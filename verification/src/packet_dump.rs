//! Raw packets: which ones are looked at, and how they are printed.

use vstd::prelude::*;
use vstd::string::*;

use crate::numbers::{decimal_nat, hex_nat, push_decimal, push_hex, zero_padded};

verus! {

/// Packets of this length or more are not looked at.
pub const MAX_PACKET_LEN: i32 = 50_000;

/// The number of bytes of a packet whose header gives the length `len`, if it is looked at.
pub fn packet_length(len: i32) -> (r: Option<usize>)
    ensures
        match r {
            Some(n) => 1 <= len < MAX_PACKET_LEN && n == len,
            None => !(1 <= len < MAX_PACKET_LEN),
        },
{
    if 1 <= len && len < MAX_PACKET_LEN {
        Some(len as usize)
    } else {
        None
    }
}

/// How the direction of a packet is printed.
pub open spec fn direction_text(is_receive: bool) -> Seq<char> {
    if is_receive {
        "<<<< RECEIVE"@
    } else {
        ">>>> SEND"@
    }
}

/// How the direction of a packet is printed.
pub fn direction_label(is_receive: bool) -> (r: &'static str)
    ensures
        r@ == direction_text(is_receive),
{
    if is_receive {
        "<<<< RECEIVE"
    } else {
        ">>>> SEND"
    }
}

/// The number of bytes in a row.
pub const ROW_LEN: usize = 16;

/// The first line: the direction and the number of bytes.
pub open spec fn dump_header(direction: Seq<char>, len: nat) -> Seq<char> {
    "["@ + direction + "] "@ + decimal_nat(len) + " bytes\n"@
}

/// The cell for byte `i` of a row: two hexadecimal digits and a space, or blanks behind the last
/// byte, and one more space in the middle of the row.
pub open spec fn dump_cell(row: Seq<u8>, i: int) -> Seq<char> {
    let digits = if i < row.len() {
        zero_padded(hex_nat(row[i] as nat), 2).push(' ')
    } else {
        "   "@
    };
    if i == 7 {
        digits.push(' ')
    } else {
        digits
    }
}

/// The first `n` cells of a row.
pub open spec fn dump_cells(row: Seq<u8>, n: nat) -> Seq<char>
    decreases n,
{
    if n == 0 {
        Seq::empty()
    } else {
        dump_cells(row, (n - 1) as nat) + dump_cell(row, n - 1)
    }
}

/// The character for a byte: itself where it is printable ASCII, else a dot.
pub open spec fn dump_char(b: u8) -> char {
    if 0x20 <= b <= 0x7e {
        b as char
    } else {
        '.'
    }
}

/// A row: where it starts, its bytes in hexadecimal, and its bytes as text.
pub open spec fn dump_row(row: Seq<u8>, offset: nat) -> Seq<char> {
    zero_padded(hex_nat(offset), 8) + "  "@ + dump_cells(row, ROW_LEN as nat) + " "@ + row.map_values(
        |b: u8| dump_char(b),
    ) + "\n"@
}

/// The bytes of row `k`.
pub open spec fn row_bytes(bytes: Seq<u8>, k: int) -> Seq<u8> {
    if 16 * k + 16 <= bytes.len() {
        bytes.subrange(16 * k, 16 * k + 16)
    } else {
        bytes.skip(16 * k)
    }
}

/// The first `n` rows.
pub open spec fn dump_rows(bytes: Seq<u8>, n: nat) -> Seq<char>
    decreases n,
{
    if n == 0 {
        Seq::empty()
    } else {
        dump_rows(bytes, (n - 1) as nat) + dump_row(row_bytes(bytes, n - 1), (16 * (n - 1)) as nat)
    }
}

/// A packet as text: a header, and as many rows as there are bytes for.
pub open spec fn packet_dump(direction: Seq<char>, bytes: Seq<u8>) -> Seq<char> {
    dump_header(direction, bytes.len()) + dump_rows(bytes, ((bytes.len() + 15) / 16) as nat)
}

/// The columns of the rows line up: in a packet of fewer than `2^32` bytes, the text of each row
/// begins behind sixty characters.
pub proof fn lemma_columns_line_up(row: Seq<u8>, offset: nat)
    requires
        offset < 0x1_0000_0000,
    ensures
        dump_row(row, offset).len() == 60 + row.len() + 1,
        forall|i: int|
            0 <= i < row.len() ==> dump_row(row, offset)[60 + i] == dump_char(#[trigger] row[i]),
{
    reveal_strlit("  ");
    reveal_strlit(" ");
    reveal_strlit("\n");
    lemma_hex_width(offset, 8);
    lemma_cells_width(row, 16);
    let before = zero_padded(hex_nat(offset), 8) + "  "@ + dump_cells(row, ROW_LEN as nat) + " "@;
    let text = row.map_values(|b: u8| dump_char(b));
    assert(before.len() == 60);
    assert(dump_row(row, offset) =~= before + text + "\n"@);
    assert forall|i: int| 0 <= i < row.len() implies dump_row(row, offset)[60 + i] == dump_char(
        #[trigger] row[i],
    ) by {
        assert((before + text)[60 + i] == text[i]);
    }
}

/// `16^w`.
spec fn hex_bound(w: nat) -> nat
    decreases w,
{
    if w == 0 {
        1
    } else {
        16 * hex_bound((w - 1) as nat)
    }
}

proof fn lemma_hex_len(n: nat, w: nat)
    requires
        w > 0,
        n < hex_bound(w),
    ensures
        1 <= hex_nat(n).len() <= w,
    decreases w,
{
    if n >= 16 {
        if w == 1 {
            assert(hex_bound(1) == 16 * hex_bound(0));
        } else {
            lemma_hex_len(n / 16, (w - 1) as nat);
        }
    }
}

proof fn lemma_hex_width(n: nat, w: nat)
    requires
        n < 0x100 && w == 2 || n < 0x1_0000_0000 && w == 8,
    ensures
        zero_padded(hex_nat(n), w).len() == w,
{
    reveal_with_fuel(hex_bound, 9);
    lemma_hex_len(n, w);
}

proof fn lemma_cells_width(row: Seq<u8>, n: nat)
    requires
        n <= 16,
    ensures
        dump_cells(row, n).len() == 3 * n + if n > 7 {
            1int
        } else {
            0
        },
    decreases n,
{
    if n > 0 {
        lemma_cells_width(row, (n - 1) as nat);
        if n - 1 < row.len() {
            lemma_hex_width(row[n - 1] as nat, 2);
        } else {
            reveal_strlit("   ");
        }
    }
}

fn push_cell(out: &mut String, bytes: &[u8], start: usize, end: usize, i: usize)
    requires
        start <= end <= bytes@.len(),
        i < ROW_LEN,
        end - start <= ROW_LEN,
    ensures
        final(out)@ == old(out)@ + dump_cell(bytes@.subrange(start as int, end as int), i as int),
{
    let ghost row = bytes@.subrange(start as int, end as int);
    if i < end - start {
        push_hex(out, bytes[start + i] as u64, 2);
        out.push(' ');
    } else {
        out.append("   ");
    }
    if i == 7 {
        out.push(' ');
    }
    assert(out@ =~= old(out)@ + dump_cell(row, i as int));
}

fn push_row_text(out: &mut String, bytes: &[u8], start: usize, end: usize)
    requires
        start <= end <= bytes@.len(),
    ensures
        final(out)@ == old(out)@ + bytes@.subrange(start as int, end as int).map_values(
            |b: u8| dump_char(b),
        ),
{
    let ghost text = bytes@.subrange(start as int, end as int).map_values(|b: u8| dump_char(b));
    let mut i: usize = start;
    assert(out@ =~= old(out)@ + text.take(0));
    while i < end
        invariant
            start <= i <= end <= bytes@.len(),
            text == bytes@.subrange(start as int, end as int).map_values(|b: u8| dump_char(b)),
            out@ == old(out)@ + text.take(i - start),
        decreases end - i,
    {
        let byte = bytes[i];
        let c = if byte >= 0x20 && byte <= 0x7e {
            byte as char
        } else {
            '.'
        };
        out.push(c);
        assert(text[i - start] == c);
        assert(text.take(i + 1 - start) =~= text.take(i - start).push(c));
        i = i + 1;
        assert(out@ =~= old(out)@ + text.take(i - start));
    }
    assert(text.take(end - start) =~= text);
}

fn push_row(out: &mut String, bytes: &[u8], start: usize, end: usize)
    requires
        start <= end <= bytes@.len(),
        end - start <= ROW_LEN,
    ensures
        final(out)@ == old(out)@ + dump_row(
            bytes@.subrange(start as int, end as int),
            start as nat,
        ),
{
    let ghost row = bytes@.subrange(start as int, end as int);
    let ghost head = old(out)@ + zero_padded(hex_nat(start as nat), 8) + "  "@;
    push_hex(out, start as u64, 8);
    out.append("  ");
    let mut i: usize = 0;
    assert(out@ =~= head + dump_cells(row, 0));
    while i < ROW_LEN
        invariant
            i <= ROW_LEN,
            start <= end <= bytes@.len(),
            end - start <= ROW_LEN,
            row == bytes@.subrange(start as int, end as int),
            out@ == head + dump_cells(row, i as nat),
        decreases ROW_LEN - i,
    {
        push_cell(out, bytes, start, end, i);
        i = i + 1;
        assert(out@ =~= head + dump_cells(row, i as nat));
    }
    out.append(" ");
    push_row_text(out, bytes, start, end);
    out.append("\n");
    assert(out@ =~= old(out)@ + dump_row(row, start as nat));
}

/// A packet as text.
pub fn format_packet_dump(direction: &str, bytes: &[u8]) -> (r: String)
    ensures
        r@ == packet_dump(direction@, bytes@),
{
    let mut out = String::new();
    out.append("[");
    out.append(direction);
    out.append("] ");
    push_decimal(&mut out, bytes.len() as u64);
    out.append(" bytes\n");
    let ghost header = dump_header(direction@, bytes@.len());
    assert(out@ =~= header);
    let mut start: usize = 0;
    let ghost mut rows: nat = 0;
    assert(out@ =~= header + dump_rows(bytes@, 0));
    while start < bytes.len()
        invariant
            start == 16 * rows || (start == bytes@.len() && rows == (bytes@.len() + 15) / 16),
            start <= bytes@.len(),
            out@ == header + dump_rows(bytes@, rows),
        decreases bytes@.len() - start,
    {
        let end: usize = if bytes.len() - start >= ROW_LEN {
            start + ROW_LEN
        } else {
            bytes.len()
        };
        push_row(&mut out, bytes, start, end);
        proof {
            assert(bytes@.subrange(start as int, end as int) =~= row_bytes(bytes@, rows as int));
            rows = rows + 1;
            assert(out@ =~= header + dump_rows(bytes@, rows));
        }
        start = end;
    }
    out
}

/// What is to be printed of a packet, if packets are to be printed.
pub fn packet_preview(enabled: bool, direction: &str, bytes: &[u8]) -> (r: Option<String>)
    ensures
        match r {
            Some(text) => enabled && text@ == packet_dump(direction@, bytes@),
            None => !enabled,
        },
{
    if enabled {
        Some(format_packet_dump(direction, bytes))
    } else {
        None
    }
}

} // verus!
