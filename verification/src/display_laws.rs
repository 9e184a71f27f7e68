//! What holds of what is printed, shown and sent.

use vstd::prelude::*;

use crate::chat::{chat_request, chat_step, send_requested, ChatActionModel, ChatEvent};
use crate::number_laws::{lemma_hex_digits_stand_by_place, upper_digits};
use crate::numbers::{decimal_nat, hex_nat, zero_padded};
use crate::overlay::{listed_player, marker_rgba, packet_hooks_text, text_or, world_chat_text};
use crate::packet_dump::{
    direction_text, dump_cell, dump_cells, dump_char, dump_row, dump_rows, packet_dump, row_bytes,
};
use crate::players::PlayerModel;
use crate::text::{is_white_space, lemma_trimmed_empty, trimmed};
use crate::text_laws::is_blank;

verus! {

// ---------------------------------------------------------------------------------------------
// Packet dumps
// ---------------------------------------------------------------------------------------------

/// Where the digits of byte `i` of a row stand, behind the offset of the row and two blanks: each
/// byte takes three columns, and one more lies between the two halves of the row.
pub open spec fn byte_column(i: int) -> int {
    if i < 8 {
        2 + 3 * i
    } else {
        3 + 3 * i
    }
}

proof fn lemma_byte_digits(b: u8)
    ensures
        zero_padded(hex_nat(b as nat), 2).len() == 2,
        zero_padded(hex_nat(b as nat), 2)[0] == upper_digits()[b as int / 16],
        zero_padded(hex_nat(b as nat), 2)[1] == upper_digits()[b as int % 16],
{
    reveal_with_fuel(vstd::arithmetic::power::pow, 3);
    assert(vstd::arithmetic::power::pow(16, 2) == 256);
    assert(vstd::arithmetic::power::pow(16, 1) == 16);
    assert(vstd::arithmetic::power::pow(16, 0) == 1);
    lemma_hex_digits_stand_by_place(b as nat, 2, 0);
    lemma_hex_digits_stand_by_place(b as nat, 2, 1);
    assert(b as int / 1 == b);
}

proof fn lemma_cells(row: Seq<u8>, n: nat, i: int)
    requires
        n <= 16,
        0 <= i < n,
    ensures
        dump_cells(row, n).len() == 3 * n + if n > 7 {
            1int
        } else {
            0
        },
        ({
            let cells = dump_cells(row, n);
            let at = byte_column(i) - 2;
            &&& i < row.len() ==> cells[at] == upper_digits()[row[i] as int / 16] && cells[at + 1]
                == upper_digits()[row[i] as int % 16]
            &&& i >= row.len() ==> cells[at] == ' ' && cells[at + 1] == ' '
            &&& cells[at + 2] == ' '
            &&& i == 7 ==> cells[24] == ' '
        }),
    decreases n,
{
    reveal_strlit("   ");
    let k = n - 1;
    let before = dump_cells(row, k as nat);
    if k == 0 {
        assert(dump_cells(row, 0) =~= Seq::<char>::empty());
    } else {
        lemma_cells(row, k as nat, if i < k {
            i
        } else {
            0
        });
    }
    if k < row.len() {
        lemma_byte_digits(row[k]);
    }
    let cell = dump_cell(row, k);
    assert(dump_cells(row, n) =~= before + cell);
    if i == k {
        assert(before.len() == byte_column(k) - 2);
        assert(dump_cells(row, n)[byte_column(k) - 2] == cell[0]);
        assert(dump_cells(row, n)[byte_column(k) - 1] == cell[1]);
        assert(dump_cells(row, n)[byte_column(k)] == cell[2]);
        if k == 7 {
            assert(dump_cells(row, n)[24] == cell[3]);
        }
    }
}

/// A row shows where it starts, in eight upper case hexadecimal digits or more, and then, each in
/// a column of its own, its bytes in two digits, the higher one first, and as characters: those
/// that can be printed as they are, and dots for the others. Blanks fill a row that is too short.
pub proof fn lemma_rows_show_their_bytes(row: Seq<u8>, offset: nat, i: int)
    requires
        row.len() <= 16,
        0 <= i < 16,
    ensures
        ({
            let line = dump_row(row, offset);
            let head = zero_padded(hex_nat(offset), 8);
            let start = head.len() as int;
            let at = start + byte_column(i);
            &&& line.len() == start + 53 + row.len()
            &&& line.take(start) == head
            &&& line[start] == ' '
            &&& line[start + 1] == ' '
            &&& line[start + 26] == ' '
            &&& line[start + 51] == ' '
            &&& line[start + 52 + row.len()] == '\n'
            &&& line[at + 2] == ' '
            &&& i >= row.len() ==> line[at] == ' ' && line[at + 1] == ' '
            &&& i < row.len() ==> {
                &&& line[at] == upper_digits()[row[i] as int / 16]
                &&& line[at + 1] == upper_digits()[row[i] as int % 16]
                &&& 0x20 <= row[i] < 0x7f ==> line[start + 52 + i] as int == row[i]
                &&& !(0x20 <= row[i] < 0x7f) ==> line[start + 52 + i] == '.'
            }
        }),
{
    reveal_strlit("  ");
    reveal_strlit(" ");
    reveal_strlit("\n");
    let line = dump_row(row, offset);
    let head = zero_padded(hex_nat(offset), 8);
    let cells = dump_cells(row, 16);
    let text = row.map_values(|b: u8| dump_char(b));
    lemma_cells(row, 16, i);
    lemma_cells(row, 16, 7);
    let start = head.len() as int;
    assert(line =~= head + "  "@ + cells + " "@ + text + "\n"@);
    assert(line.take(start) =~= head);
    assert forall|k: int| 0 <= k < cells.len() implies line[start + 2 + k] == #[trigger] cells[k] by {}
    assert(line[start + byte_column(i)] == cells[byte_column(i) - 2]);
    assert(line[start + byte_column(i) + 1] == cells[byte_column(i) - 1]);
    assert(line[start + byte_column(i) + 2] == cells[byte_column(i)]);
    assert(line[start + 26] == cells[24]);
    if i < row.len() {
        assert(line[start + 52 + i] == text[i]);
    }
}

/// The bytes of the row that starts at `from`: sixteen, or those that are left.
pub open spec fn bytes_from(bytes: Seq<u8>, from: int) -> Seq<u8> {
    bytes.subrange(
        from,
        if from + 16 <= bytes.len() {
            from + 16
        } else {
            bytes.len() as int
        },
    )
}

/// The rows of a dump, one for each sixteen bytes and one for what is left.
pub open spec fn rows_of(bytes: Seq<u8>, count: nat) -> Seq<Seq<char>> {
    Seq::new(count, |k: int| dump_row(bytes_from(bytes, 16 * k), (16 * k) as nat))
}

proof fn lemma_rows_flatten(bytes: Seq<u8>, count: nat)
    requires
        16 * count <= bytes.len() + 15,
    ensures
        dump_rows(bytes, count) == rows_of(bytes, count).flatten(),
    decreases count,
{
    let rows = rows_of(bytes, count);
    rows.lemma_flatten_and_flatten_alt_are_equivalent();
    if count > 0 {
        let front = rows_of(bytes, (count - 1) as nat);
        lemma_rows_flatten(bytes, (count - 1) as nat);
        front.lemma_flatten_and_flatten_alt_are_equivalent();
        assert(rows.drop_last() =~= front);
        assert(row_bytes(bytes, count - 1) =~= bytes_from(bytes, 16 * (count - 1)));
    }
}

/// A dump begins with the direction and the number of bytes, and shows the bytes sixteen in a row,
/// each row with the place where it starts, until none is left.
pub proof fn lemma_dumps_show_all_bytes(direction: Seq<char>, bytes: Seq<u8>, count: nat)
    requires
        bytes.len() <= 16 * count < bytes.len() + 16,
    ensures
        packet_dump(direction, bytes) == "["@ + direction + "] "@ + decimal_nat(bytes.len())
            + " bytes\n"@ + rows_of(bytes, count).flatten(),
{
    lemma_rows_flatten(bytes, count);
}

/// The two directions are told apart by arrows and words.
pub proof fn lemma_directions_have_labels()
    ensures
        direction_text(true) == "<<<< RECEIVE"@,
        direction_text(false) == ">>>> SEND"@,
{
}

// ---------------------------------------------------------------------------------------------
// Texts and colours
// ---------------------------------------------------------------------------------------------

/// A player is listed by name, the player of this game with a mark behind it, and in either case
/// with the position last.
pub proof fn lemma_players_are_listed_by_name(
    player: PlayerModel,
    self_user_id: Option<Seq<char>>,
    position: Seq<char>,
)
    ensures
        player.user_id == self_user_id ==> listed_player(player, self_user_id, position)
            == player.name + " (you)"@ + position,
        player.user_id != self_user_id ==> listed_player(player, self_user_id, position)
            == player.name + position,
{
}

/// The marker of the player of this game is white, and every other one has the player's colour.
pub proof fn lemma_own_marker_is_white(player: PlayerModel, self_user_id: Option<Seq<char>>)
    ensures
        player.user_id == self_user_id ==> marker_rgba(player, self_user_id) == seq![
            255u8,
            255u8,
            255u8,
            255u8,
        ],
        player.user_id != self_user_id ==> marker_rgba(player, self_user_id)
            == player.marker_color,
{
}

/// What is not known is shown by a text in its place, and whether the hooks are there by a word.
pub proof fn lemma_what_is_missing_is_shown(text: Option<Seq<char>>, other: Seq<char>)
    ensures
        text matches Some(t) ==> text_or(text, other) == t,
        text is None ==> text_or(text, other) == other,
        packet_hooks_text(true) == "Packet hooks: ready"@,
        packet_hooks_text(false) == "Packet hooks: unavailable"@,
        world_chat_text(true) == "World chat: ready"@,
        world_chat_text(false) == "World chat: unavailable"@,
{
}

// ---------------------------------------------------------------------------------------------
// Chat
// ---------------------------------------------------------------------------------------------

/// A message that is not blank is sent without the white space around it, if the game's functions
/// are known; a blank one never is.
pub proof fn lemma_messages_are_sent_unless_blank(message: Seq<char>, functions_known: bool)
    ensures
        chat_request(message, functions_known) == if is_blank(message) {
            Err("Chat message cannot be empty."@)
        } else if !functions_known {
            Err("Game chat function not initialized."@)
        } else {
            Ok(trimmed(message))
        },
{
    lemma_trimmed_empty(message);
    if trimmed(message).len() == 0 {
        assert forall|i: int| 0 <= i < message.len() implies is_white_space(
            #[trigger] message[i],
        ) by {}
    }
}

/// Either key asks for a message to be sent.
pub proof fn lemma_either_control_sends(pressed_enter: bool, send_clicked: bool)
    ensures
        send_requested(pressed_enter, send_clicked) <==> pressed_enter || send_clicked,
{
}

/// A message is taken as soon as there is a chat and a way to send it, and waits until then. What
/// comes after depends on what the game answers, and leaves what waits as it is.
pub proof fn lemma_chat_steps_follow_the_answers(pending: Option<Seq<char>>)
    ensures
        pending matches Some(message) ==> chat_step(
            pending,
            ChatEvent::Entered { functions_known: true, has_chat: true },
        ) == (ChatActionModel::MakeString(message), None::<Seq<char>>),
        forall|known: bool, chat: bool|
            pending is None || !known || !chat ==> #[trigger] chat_step(
                pending,
                ChatEvent::Entered { functions_known: known, has_chat: chat },
            ) == (ChatActionModel::CallOriginal, pending),
        chat_step(pending, ChatEvent::StringMade { made: true }) == (
            ChatActionModel::SubmitToChat,
            pending,
        ),
        chat_step(pending, ChatEvent::StringMade { made: false }) == (
            ChatActionModel::CallOriginal,
            pending,
        ),
        chat_step(pending, ChatEvent::ChatSubmitted { accepted: true }) == (
            ChatActionModel::CallOriginal,
            pending,
        ),
        chat_step(pending, ChatEvent::ChatSubmitted { accepted: false }) == (
            ChatActionModel::SubmitToWorld,
            pending,
        ),
        chat_step(pending, ChatEvent::WorldSubmitted) == (ChatActionModel::CallOriginal, pending),
{
}

} // verus!
