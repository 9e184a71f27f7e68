//! What holds of packets, of the messages that they hold, and of the fields of messages.

use vstd::prelude::*;

use crate::codec::document_read;
use crate::floats::{double_as_i32, is_float_text};
use crate::messages::{
    bool_field, coordinate_field, counted_messages, id_string, identified_messages, int_field,
    low_i32, message_key, messages, numbered, numbered_messages, outer_document,
};
use crate::number_laws::{is_digits, lemma_digits_are_read, lemma_only_digits_are_read};
use crate::numbers::{decimal, decimal_nat, digits_value, hex_lower, parsed_i32};
use crate::players::CoordinateModel;
use crate::record::{field, RecordModel, ValueModel};

verus! {

// ---------------------------------------------------------------------------------------------
// Packets
// ---------------------------------------------------------------------------------------------

/// A document that follows four bytes with the length of the packet, the lowest byte first, is
/// found, unless the packet with these bytes is a document itself.
pub proof fn lemma_documents_behind_their_length_are_found(payload: Seq<u8>)
    requires
        0 < payload.len() < 0x1_0000_0000 - 4,
    ensures
        ({
            let n = 4 + payload.len();
            let packet = seq![
                (n % 256) as u8,
                (n / 256 % 256) as u8,
                (n / 65536 % 256) as u8,
                (n / 16777216) as u8,
            ] + payload;
            outer_document(packet) == match (document_read(packet), document_read(payload)) {
                (Ok(doc), _) => Some(doc),
                (Err(_), Ok(doc)) => Some(doc),
                (Err(_), Err(_)) => None,
            }
        }),
{
    let n = 4 + payload.len();
    let prefix = seq![
        (n % 256) as u8,
        (n / 256 % 256) as u8,
        (n / 65536 % 256) as u8,
        (n / 16777216) as u8,
    ];
    let packet = prefix + payload;
    assert(packet.skip(4) =~= payload);
    assert(packet[0] == n % 256 && packet[1] == n / 256 % 256);
    assert(packet[2] == n / 65536 % 256 && packet[3] == n / 16777216);
}

/// A packet that is a document holds that document. Another one holds what follows its first four
/// bytes if these give its length, and nothing else.
pub proof fn lemma_packets_hold_one_document(packet: Seq<u8>)
    ensures
        ({
            let n = packet.len();
            let prefixed = 4 < n < 0x1_0000_0000 && packet[0] == n % 256 && packet[1] == n / 256
                % 256 && packet[2] == n / 65536 % 256 && packet[3] == n / 16777216;
            match document_read(packet) {
                Ok(doc) => outer_document(packet) == Some(doc),
                Err(_) => if prefixed {
                    match document_read(packet.skip(4)) {
                        Ok(doc) => outer_document(packet) == Some(doc),
                        Err(_) => outer_document(packet) is None,
                    }
                } else {
                    outer_document(packet) is None
                },
            }
        }),
{
}

// ---------------------------------------------------------------------------------------------
// Envelopes
// ---------------------------------------------------------------------------------------------

/// A document that says what kind of message it is, is the only message that it holds.
pub proof fn lemma_identified_documents_are_messages(doc: RecordModel)
    requires
        field(doc, "ID"@) is Some,
    ensures
        messages(doc) == seq![doc],
{
}

/// Another document holds the messages that it counts, if there are any of them; else those that
/// are numbered, if there are any; else those that say what kind they are.
pub proof fn lemma_messages_are_looked_for_in_turn(doc: RecordModel)
    requires
        field(doc, "ID"@) is None,
    ensures
        ({
            let count = match int_field(doc, "mc"@) {
                Some(n) => n as int,
                None => 0,
            };
            let counted = counted_messages(doc, count);
            let by_number = numbered_messages(doc);
            &&& counted.len() > 0 ==> messages(doc) == counted
            &&& counted.len() == 0 && by_number.len() > 0 ==> {
                &&& messages(doc).len() == by_number.len()
                &&& forall|i: int|
                    0 <= i < by_number.len() ==> #[trigger] messages(doc)[i] == by_number[i].1
            }
            &&& counted.len() == 0 && by_number.len() == 0 ==> messages(doc)
                == identified_messages(doc)
        }),
{
}

/// The document in the field `key`, if it holds one.
pub open spec fn document_at(doc: RecordModel, key: Seq<char>) -> Option<RecordModel> {
    match field(doc, key) {
        Some(ValueModel::Nested(d)) => Some(d),
        _ => None,
    }
}

/// Whether the numbers of a sequence rise.
pub open spec fn rises(list: Seq<int>) -> bool {
    forall|i: int, j: int| 0 <= i < j < list.len() ==> #[trigger] list[i] < #[trigger] list[j]
}

/// The counted messages are those in the fields `m0`, `m1` and so on below the count, as far as
/// they hold documents, in the order of their numbers.
pub proof fn lemma_counted_messages_are_taken_in_turn(doc: RecordModel, count: int)
    ensures
        exists|at: Seq<int>| #[trigger]
            rises(at) && at.len() == counted_messages(doc, count).len() && (forall|j: int|
                0 <= j < at.len() ==> 0 <= #[trigger] at[j] < count && document_at(
                    doc,
                    seq!['m'] + decimal_nat(at[j] as nat),
                ) == Some(counted_messages(doc, count)[j])) && (forall|n: nat|
                n < count && #[trigger] document_at(doc, seq!['m'] + decimal_nat(n)) is Some
                    ==> at.contains(n as int)),
    decreases count,
{
    if count <= 0 {
        let at = Seq::<int>::empty();
        assert(rises(at));
    } else {
        lemma_counted_messages_are_taken_in_turn(doc, count - 1);
        let before = counted_messages(doc, count - 1);
        let at = choose|at: Seq<int>| #[trigger]
            rises(at) && at.len() == before.len() && (forall|j: int|
                0 <= j < at.len() ==> 0 <= #[trigger] at[j] < count - 1 && document_at(
                    doc,
                    seq!['m'] + decimal_nat(at[j] as nat),
                ) == Some(before[j])) && (forall|n: nat|
                n < count - 1 && #[trigger] document_at(doc, seq!['m'] + decimal_nat(n)) is Some
                    ==> at.contains(n as int));
        let last = (count - 1) as nat;
        assert(message_key(last) == seq!['m'] + decimal_nat(last));
        if document_at(doc, message_key(last)) is Some {
            let now = at.push(last as int);
            assert(rises(now));
            assert forall|n: nat|
                n < count && #[trigger] document_at(
                    doc,
                    seq!['m'] + decimal_nat(n),
                ) is Some implies now.contains(n as int) by {
                if n == last {
                    assert(now[at.len() as int] == n);
                } else {
                    assert(at.contains(n as int));
                    let j = choose|j: int| 0 <= j < at.len() && at[j] == n as int;
                    assert(now[j] == n);
                }
            }
        } else {
            assert(rises(at));
        }
    }
}

/// The messages that say what kind they are come in the order of their fields, each once, and none
/// is left out.
pub proof fn lemma_identified_messages_come_in_order(doc: RecordModel)
    ensures
        exists|at: Seq<int>| #[trigger]
            rises(at) && at.len() == identified_messages(doc).len() && (forall|j: int|
                0 <= j < at.len() ==> 0 <= #[trigger] at[j] < doc.len() && doc[at[j]].1
                    == ValueModel::Nested(identified_messages(doc)[j])) && (forall|i: int|
                0 <= i < doc.len() ==> (at.contains(i) <==> is_identified(#[trigger] doc[i].1))),
    decreases doc.len(),
{
    if doc.len() == 0 {
        let at = Seq::<int>::empty();
        assert(rises(at));
    } else {
        let front = doc.drop_last();
        lemma_identified_messages_come_in_order(front);
        let before = identified_messages(front);
        let at = choose|at: Seq<int>| #[trigger]
            rises(at) && at.len() == before.len() && (forall|j: int|
                0 <= j < at.len() ==> 0 <= #[trigger] at[j] < front.len() && front[at[j]].1
                    == ValueModel::Nested(before[j])) && (forall|i: int|
                0 <= i < front.len() ==> (at.contains(i) <==> is_identified(
                    #[trigger] front[i].1,
                )));
        let last = doc.len() - 1;
        assert(doc.last() == doc[last]);
        if is_identified(doc[last].1) {
            let now = at.push(last);
            assert(rises(now));
            assert forall|i: int| 0 <= i < doc.len() implies (now.contains(i) <==> is_identified(
                #[trigger] doc[i].1,
            )) by {
                if i == last {
                    assert(now[at.len() as int] == i);
                } else {
                    assert(front[i].1 == doc[i].1);
                    if at.contains(i) {
                        let j = choose|j: int| 0 <= j < at.len() && at[j] == i;
                        assert(now[j] == i);
                    }
                    if now.contains(i) {
                        let j = choose|j: int| 0 <= j < now.len() && now[j] == i;
                        assert(at[j] == i);
                    }
                }
            }
        } else {
            assert forall|i: int| 0 <= i < doc.len() implies (at.contains(i) <==> is_identified(
                #[trigger] doc[i].1,
            )) by {
                if i < last {
                    assert(front[i].1 == doc[i].1);
                } else if at.contains(i) {
                    let j = choose|j: int| 0 <= j < at.len() && at[j] == i;
                    assert(at[j] < front.len());
                }
            }
            assert(rises(at));
        }
    }
}

/// Whether a value is a document that says what kind of message it is.
pub open spec fn is_identified(value: ValueModel) -> bool {
    value matches ValueModel::Nested(msg) && field(msg, "ID"@) is Some
}

/// A document in a field that is named by the letter `m` and a number is numbered by it; the
/// number may have a plus sign and zeros in front. Nothing else is numbered.
pub proof fn lemma_names_give_the_numbers(digits: Seq<char>, msg: RecordModel)
    requires
        is_digits(digits),
        digits_value(digits) <= usize::MAX,
    ensures
        numbered((seq!['m'] + digits, ValueModel::Nested(msg))) == Some(
            (digits_value(digits), msg),
        ),
        numbered((seq!['m', '+'] + digits, ValueModel::Nested(msg))) == Some(
            (digits_value(digits), msg),
        ),
{
    lemma_digits_are_read(digits, usize::MAX as nat);
    assert((seq!['m'] + digits).drop_first() =~= digits);
    assert((seq!['m', '+'] + digits).drop_first() =~= seq!['+'] + digits);
}

/// What is numbered is a document, under a name of the letter `m`, an optional plus sign and the
/// digits of the number.
pub proof fn lemma_numbered_fields_are_named(entry: (Seq<char>, ValueModel))
    ensures
        numbered(entry) matches Some((n, msg)) ==> {
            &&& entry.1 == ValueModel::Nested(msg)
            &&& n <= usize::MAX
            &&& exists|digits: Seq<char>|
                is_digits(digits) && digits_value(digits) == n && (entry.0 == #[trigger] (seq!['m']
                    + digits) || entry.0 == seq!['m', '+'] + digits)
        },
{
    if let Some((n, msg)) = numbered(entry) {
        let name = entry.0.drop_first();
        lemma_only_digits_are_read(name, usize::MAX as nat);
        let digits = if is_digits(name) {
            name
        } else {
            name.drop_first()
        };
        lemma_digits_are_read(digits, usize::MAX as nat);
        if is_digits(name) {
            assert(entry.0 =~= seq!['m'] + digits);
        } else {
            assert(name =~= seq!['+'] + digits);
            assert(entry.0 =~= seq!['m', '+'] + digits);
        }
        assert((seq!['m'] + digits).len() == digits.len() + 1);
    }
}

// ---------------------------------------------------------------------------------------------
// Fields
// ---------------------------------------------------------------------------------------------

/// An id is a text as it is, a number in decimal notation, or an object id in hexadecimal digits.
/// No other value is an id.
pub proof fn lemma_ids_are_texts(msg: RecordModel, key: Seq<char>)
    ensures
        match field(msg, key) {
            Some(ValueModel::Text(s)) => id_string(msg, key) == Some(s),
            Some(ValueModel::Int32(n)) => id_string(msg, key) == Some(decimal(n as int)),
            Some(ValueModel::Int64(n)) => id_string(msg, key) == Some(decimal(n as int)),
            Some(ValueModel::ObjectId(bytes)) => id_string(msg, key) == Some(hex_lower(bytes)),
            _ => id_string(msg, key) is None,
        },
{
}

/// A number is one of 32 bits as it is, the lower 32 bits of one of 64, a double without its
/// fraction, or a text that reads as one. No other value is a number.
pub proof fn lemma_numbers_come_in_several_kinds(msg: RecordModel, key: Seq<char>)
    ensures
        match field(msg, key) {
            Some(ValueModel::Int32(n)) => int_field(msg, key) == Some(n),
            Some(ValueModel::Int64(n)) => int_field(msg, key) == Some(low_i32(n as int)),
            Some(ValueModel::Double(bits)) => int_field(msg, key) == Some(double_as_i32(bits)),
            Some(ValueModel::Text(s)) => int_field(msg, key) == parsed_i32(s),
            _ => int_field(msg, key) is None,
        },
{
}

/// A coordinate is a number of any kind, kept as it is, or a text that reads as a floating-point
/// number.
pub proof fn lemma_coordinates_are_kept_as_they_are(msg: RecordModel, key: Seq<char>)
    ensures
        match field(msg, key) {
            Some(ValueModel::Int32(n)) => coordinate_field(msg, key) == Some(
                CoordinateModel::Int32(n),
            ),
            Some(ValueModel::Int64(n)) => coordinate_field(msg, key) == Some(
                CoordinateModel::Int64(n),
            ),
            Some(ValueModel::Double(bits)) => coordinate_field(msg, key) == Some(
                CoordinateModel::Double(bits),
            ),
            Some(ValueModel::Text(s)) if is_float_text(s) => coordinate_field(msg, key) == Some(
                CoordinateModel::Text(s),
            ),
            _ => coordinate_field(msg, key) is None,
        },
{
}

/// A truth value is one as it is, or a number that is not zero.
pub proof fn lemma_numbers_but_zero_are_true(msg: RecordModel, key: Seq<char>)
    ensures
        match field(msg, key) {
            Some(ValueModel::Boolean(b)) => bool_field(msg, key) == Some(b),
            Some(ValueModel::Int32(n)) => bool_field(msg, key) == Some(n != 0),
            Some(ValueModel::Int64(n)) => bool_field(msg, key) == Some(n != 0),
            _ => bool_field(msg, key) is None,
        },
{
}

} // verus!
