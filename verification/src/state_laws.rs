//! What each kind of message does to the state, and what the types of the state stand for.

use vstd::prelude::*;
use vstd::utf8::*;

use crate::messages::{
    bool_field, coordinate_field, id_string, int_field, messages, opt_record, outer_document,
    record_models,
};
use crate::minimap::{
    compressed_fits, compressed_minimap, minimap_result, MinimapData, MinimapModel,
};
use crate::packet_handler::{
    has_color_suffix, hex_value, id_color, initial_state, lemma_message_ids_differ,
    message_applied, message_in_bounds, message_minimap, message_warning, messages_applied,
    messages_warnings, opt_minimap_result, packet_in_bounds, text_models, AppModel, AppState,
};
use crate::players::{player_models, Coordinate, CoordinateModel, PlayerInfo, PlayerModel};
use crate::record::{field, Record, RecordModel, ValueModel};
use crate::text::opt_text;

verus! {

/// A decoded minimap, or why there is none.
pub type Decoded = Option<Result<MinimapModel, Seq<char>>>;

/// The text in the field `key`, if it holds one.
pub open spec fn text_at(msg: RecordModel, key: Seq<char>) -> Option<Seq<char>> {
    match field(msg, key) {
        Some(ValueModel::Text(s)) => Some(s),
        _ => None,
    }
}

/// Whether a message says that it is of the kind `kind`.
pub open spec fn says(msg: RecordModel, kind: Seq<char>) -> bool {
    text_at(msg, "ID"@) == Some(kind)
}

/// Whether a message says that it is one of the kinds that tell of a player.
pub open spec fn tells_of_player(msg: RecordModel) -> bool {
    ||| says(msg, "AnP"@)
    ||| says(msg, "U"@)
    ||| says(msg, "mP"@)
    ||| says(msg, "PSicU"@)
    ||| says(msg, "PPA"@)
}

/// Whether nobody but the player with the id `id` came, left or changed.
pub open spec fn same_but(
    before: Map<Seq<char>, PlayerModel>,
    after: Map<Seq<char>, PlayerModel>,
    id: Seq<char>,
) -> bool {
    forall|other: Seq<char>|
        other != id ==> #[trigger] after.contains_key(other) == before.contains_key(other) && (
        before.contains_key(other) ==> after[other] == before[other])
}

/// Before any message no world, player, name or map is known.
pub proof fn lemma_nothing_is_known_at_first()
    ensures
        initial_state().current_world is None,
        initial_state().self_user_id is None,
        initial_state().self_user_name is None,
        initial_state().minimap is None,
        forall|id: Seq<char>| !#[trigger] initial_state().players.contains_key(id),
{
}

/// What is sent changes nothing and gives no warning.
pub proof fn lemma_sent_message_ignored(s: AppModel, msg: RecordModel, decoded: Decoded)
    ensures
        message_applied(s, msg, false, decoded) == s,
        message_warning(msg, false, decoded) is None,
        message_minimap(msg, false) is None,
{
}

proof fn lemma_kinds_are_named()
    ensures
        "GPd"@.len() > 0,
        "TTjW"@.len() > 0,
        "LW"@.len() > 0,
        "GWC"@.len() > 0,
        "PL"@.len() > 0,
        "AnP"@.len() > 0,
        "U"@.len() > 0,
        "mP"@.len() > 0,
        "PSicU"@.len() > 0,
        "PPA"@.len() > 0,
{
    reveal_strlit("GPd");
    reveal_strlit("TTjW");
    reveal_strlit("LW");
    reveal_strlit("GWC");
    reveal_strlit("PL");
    reveal_strlit("AnP");
    reveal_strlit("U");
    reveal_strlit("mP");
    reveal_strlit("PSicU");
    reveal_strlit("PPA");
    assert("GPd"@.len() == 3);
    assert("TTjW"@.len() == 4);
    assert("LW"@.len() == 2);
    assert("GWC"@.len() == 3);
    assert("PL"@.len() == 2);
    assert("AnP"@.len() == 3);
    assert("U"@.len() == 1);
    assert("mP"@.len() == 2);
    assert("PSicU"@.len() == 5);
    assert("PPA"@.len() == 3);
}

/// A received message of another kind than those that are known, or of none, changes nothing.
pub proof fn lemma_other_messages_ignored(s: AppModel, msg: RecordModel, decoded: Decoded)
    requires
        !says(msg, "GPd"@),
        !says(msg, "TTjW"@),
        !says(msg, "LW"@),
        !says(msg, "GWC"@),
        !says(msg, "PL"@),
        !tells_of_player(msg),
    ensures
        message_applied(s, msg, true, decoded) == s,
{
    lemma_kinds_are_named();
}

/// A profile says who the player of this game is: both the id and the name are taken over, also
/// where one is missing. With an id, the player is among the players, under the name or else the
/// id, and keeps what else was known of them; nobody else is touched.
pub proof fn lemma_profile_says_who_plays(s: AppModel, msg: RecordModel, decoded: Decoded)
    requires
        says(msg, "GPd"@),
    ensures
        ({
            let after = message_applied(s, msg, true, decoded);
            let name = text_at(msg, "UN"@);
            &&& after.self_user_id == id_string(msg, "U"@)
            &&& after.self_user_name == name
            &&& after.current_world == s.current_world
            &&& after.minimap == s.minimap
            &&& match id_string(msg, "U"@) {
                None => after.players == s.players,
                Some(id) => {
                    &&& same_but(s.players, after.players, id)
                    &&& after.players.contains_key(id)
                    &&& after.players[id].user_id == Some(id)
                    &&& after.players[id].name == match name {
                        Some(n) => n,
                        None => id,
                    }
                    &&& keeps_the_rest(s.players, id, after.players[id])
                },
            }
        }),
{
    lemma_message_ids_differ();
}

/// Whether all but the id and the name of a player is as it was known before, or unknown where the
/// player was.
pub open spec fn keeps_the_rest(
    before: Map<Seq<char>, PlayerModel>,
    id: Seq<char>,
    player: PlayerModel,
) -> bool {
    if before.contains_key(id) {
        player == (PlayerModel { user_id: player.user_id, name: player.name, ..before[id] })
    } else {
        has_only_a_name(player)
    }
}

/// Whether nothing but the id and the name of a player is known.
pub open spec fn has_only_a_name(player: PlayerModel) -> bool {
    &&& player.marker_color == seq![0u8, 0u8, 0u8, 0u8]
    &&& player.x is None
    &&& player.y is None
    &&& player.dir is None
    &&& player.anim is None
    &&& player.xp_level is None
    &&& player.gem_amount is None
    &&& !player.in_portal
    &&& player.status_icon is None
}

/// Whether the answer to a request to join a world gives a result other than zero or an error, or
/// names no world.
pub open spec fn leads_nowhere(msg: RecordModel) -> bool {
    ||| int_field(msg, "JR"@) is Some && int_field(msg, "JR"@) != Some(0i32)
    ||| field(msg, "E"@) is Some
    ||| field(msg, "ER"@) is Some
    ||| text_at(msg, "W"@) is None && text_at(msg, "WN"@) is None
}

/// A request to join a world is refused by a result other than zero, or by an error; then nothing
/// changes. Nor does anything change where the answer names no world.
pub proof fn lemma_join_needs_a_world_and_no_error(s: AppModel, msg: RecordModel, decoded: Decoded)
    requires
        says(msg, "TTjW"@),
        leads_nowhere(msg),
    ensures
        message_applied(s, msg, true, decoded) == s,
{
    lemma_message_ids_differ();
}

/// Any other answer takes the player to the world that it names, in the field `W` or else in `WN`.
/// The map and all players of the world before are forgotten; the player of this game, if their id
/// is known, is the only one there, under their name or else their id.
pub proof fn lemma_join_leads_to_the_world(
    s: AppModel,
    msg: RecordModel,
    decoded: Decoded,
    world: Seq<char>,
)
    requires
        says(msg, "TTjW"@),
        int_field(msg, "JR"@) is None || int_field(msg, "JR"@) == Some(0i32),
        field(msg, "E"@) is None,
        field(msg, "ER"@) is None,
        text_at(msg, "W"@) == Some(world) || (text_at(msg, "W"@) is None && text_at(msg, "WN"@)
            == Some(world)),
    ensures
        ({
            let after = message_applied(s, msg, true, decoded);
            &&& after.current_world == Some(world)
            &&& after.minimap is None
            &&& after.self_user_id == s.self_user_id
            &&& after.self_user_name == s.self_user_name
            &&& forall|id: Seq<char>| #[trigger]
                after.players.contains_key(id) <==> s.self_user_id == Some(id)
            &&& s.self_user_id matches Some(id) ==> {
                &&& after.players[id].user_id == Some(id)
                &&& after.players[id].name == match s.self_user_name {
                    Some(n) => n,
                    None => id,
                }
                &&& has_only_a_name(after.players[id])
            }
        }),
{
    lemma_message_ids_differ();
}

/// Leaving forgets the world, its players and its map, and nothing else.
pub proof fn lemma_leaving_empties_the_world(s: AppModel, msg: RecordModel, decoded: Decoded)
    requires
        says(msg, "LW"@),
    ensures
        ({
            let after = message_applied(s, msg, true, decoded);
            &&& after.current_world is None
            &&& after.minimap is None
            &&& after.self_user_id == s.self_user_id
            &&& after.self_user_name == s.self_user_name
            &&& forall|id: Seq<char>| !#[trigger] after.players.contains_key(id)
        }),
{
    lemma_message_ids_differ();
}

/// A world that was decoded is shown from then on, whatever was known before; nothing else
/// changes. One that could not be decoded changes nothing and gives a warning with the reason.
pub proof fn lemma_worlds_replace_the_map(s: AppModel, msg: RecordModel, decoded: Decoded)
    requires
        says(msg, "GWC"@),
    ensures
        ({
            let after = message_applied(s, msg, true, decoded);
            &&& after.current_world == s.current_world
            &&& after.self_user_id == s.self_user_id
            &&& after.self_user_name == s.self_user_name
            &&& after.players == s.players
            &&& decoded matches Some(Ok(m)) ==> after.minimap == Some(m)
            &&& !(decoded matches Some(Ok(_))) ==> after.minimap == s.minimap
            &&& decoded matches Some(Err(why)) ==> message_warning(msg, true, decoded) == Some(
                "failed to decode GWC minimap: "@ + why,
            )
            &&& !(decoded matches Some(Err(_))) ==> message_warning(msg, true, decoded) is None
        }),
{
    lemma_message_ids_differ();
}

/// Only received messages that bring a world are decoded, from the bytes in the field `W`; and
/// only they give warnings.
pub proof fn lemma_only_worlds_are_decoded(msg: RecordModel, is_receive: bool, decoded: Decoded)
    ensures
        is_receive && says(msg, "GWC"@) ==> match field(msg, "W"@) {
            Some(ValueModel::Binary(bytes)) => message_minimap(msg, is_receive) == Some(
                compressed_minimap(bytes),
            ),
            _ => message_minimap(msg, is_receive) is None,
        },
        !(is_receive && says(msg, "GWC"@)) ==> message_minimap(msg, is_receive) is None
            && message_warning(msg, is_receive, decoded) is None,
{
    lemma_kinds_are_named();
}

/// A received message with a world that can be decoded leaves its minimap behind, in whatever world
/// and with whatever map it arrives; the rest of the state stays as it was.
pub proof fn lemma_received_world_is_shown(
    s: AppModel,
    msg: RecordModel,
    bytes: Seq<u8>,
    m: MinimapModel,
)
    requires
        says(msg, "GWC"@),
        field(msg, "W"@) == Some(ValueModel::Binary(bytes)),
        compressed_minimap(bytes) == Ok::<MinimapModel, Seq<char>>(m),
    ensures
        messages_applied(s, seq![msg], true) == (AppModel { minimap: Some(m), ..s }),
        messages_warnings(seq![msg], true) == Seq::<Seq<char>>::empty(),
{
    let none = Seq::<RecordModel>::empty();
    assert(none.push(msg) =~= seq![msg]);
    lemma_messages_are_applied_one_by_one(s, none, msg, true);
    lemma_only_worlds_are_decoded(msg, true, None);
    lemma_worlds_replace_the_map(s, msg, message_minimap(msg, true));
}

/// Whether a player has what a message says, and what they had where it says nothing.
pub open spec fn took_over<A>(said: Option<A>, before: Option<A>, after: Option<A>) -> bool {
    match said {
        Some(_) => after == said,
        None => after == before,
    }
}

/// A message that tells of a player changes that player alone. Their name is the one that it
/// gives; without one, the player of this game is called by their own name, if that is known, and
/// another player keeps their name or, without one, is called by their id. Every other field takes
/// over what the message says, or stays as it was; so does the marker, whose colour comes from an
/// id that is a text.
pub proof fn lemma_player_takes_over_what_is_said(
    s: AppModel,
    msg: RecordModel,
    decoded: Decoded,
    id: Seq<char>,
)
    requires
        tells_of_player(msg),
        id_string(msg, "U"@) == Some(id),
    ensures
        ({
            let after = message_applied(s, msg, true, decoded);
            let player = after.players[id];
            let known = s.players.contains_key(id);
            let before = s.players[id];
            &&& after.current_world == s.current_world
            &&& after.minimap == s.minimap
            &&& after.self_user_id == s.self_user_id
            &&& after.self_user_name == s.self_user_name
            &&& same_but(s.players, after.players, id)
            &&& after.players.contains_key(id)
            &&& player.user_id == Some(id)
            &&& text_at(msg, "UN"@) matches Some(name) ==> player.name == name
            &&& text_at(msg, "UN"@) is None && s.self_user_id == Some(id) ==> player.name == (
            match s.self_user_name {
                Some(name) => name,
                None => if known {
                    before.name
                } else {
                    Seq::<char>::empty()
                },
            })
            &&& text_at(msg, "UN"@) is None && s.self_user_id != Some(id) ==> player.name == (
            if known && before.name.len() > 0 {
                before.name
            } else {
                id
            })
            &&& text_at(msg, "U"@) matches Some(text) ==> player.marker_color == id_color(text)
            &&& text_at(msg, "U"@) is None ==> player.marker_color == (if known {
                before.marker_color
            } else {
                seq![0u8, 0u8, 0u8, 0u8]
            })
            &&& took_over(
                coordinate_field(msg, "x"@),
                if known {
                    before.x
                } else {
                    None
                },
                player.x,
            )
            &&& took_over(
                coordinate_field(msg, "y"@),
                if known {
                    before.y
                } else {
                    None
                },
                player.y,
            )
            &&& took_over(
                int_field(msg, "d"@),
                if known {
                    before.dir
                } else {
                    None
                },
                player.dir,
            )
            &&& took_over(
                int_field(msg, "a"@),
                if known {
                    before.anim
                } else {
                    None
                },
                player.anim,
            )
            &&& took_over(
                int_field(msg, "xpLvL"@),
                if known {
                    before.xp_level
                } else {
                    None
                },
                player.xp_level,
            )
            &&& took_over(
                int_field(msg, "GAmt"@),
                if known {
                    before.gem_amount
                } else {
                    None
                },
                player.gem_amount,
            )
            &&& took_over(
                bool_field(msg, "inPortal"@),
                Some(known && before.in_portal),
                Some(player.in_portal),
            )
            &&& took_over(
                int_field(msg, "SIc"@),
                if known {
                    before.status_icon
                } else {
                    None
                },
                player.status_icon,
            )
        }),
{
    lemma_message_ids_differ();
}

/// A message that tells of a player without an id changes nothing.
pub proof fn lemma_players_without_an_id_ignored(s: AppModel, msg: RecordModel, decoded: Decoded)
    requires
        tells_of_player(msg) || says(msg, "PL"@),
        id_string(msg, "U"@) is None,
    ensures
        message_applied(s, msg, true, decoded) == s,
{
    lemma_message_ids_differ();
}

/// A player who leaves is not there any more; nothing else changes.
pub proof fn lemma_leaving_player_is_removed(
    s: AppModel,
    msg: RecordModel,
    decoded: Decoded,
    id: Seq<char>,
)
    requires
        says(msg, "PL"@),
        id_string(msg, "U"@) == Some(id),
    ensures
        ({
            let after = message_applied(s, msg, true, decoded);
            &&& after.current_world == s.current_world
            &&& after.minimap == s.minimap
            &&& after.self_user_id == s.self_user_id
            &&& after.self_user_name == s.self_user_name
            &&& same_but(s.players, after.players, id)
            &&& !after.players.contains_key(id)
        }),
{
    lemma_message_ids_differ();
}

/// Messages are applied one by one: none changes nothing, and one alone does what it does with the
/// minimap that it brings.
pub proof fn lemma_messages_are_applied_one_by_one(
    s: AppModel,
    msgs: Seq<RecordModel>,
    msg: RecordModel,
    is_receive: bool,
)
    ensures
        messages_applied(s, Seq::empty(), is_receive) == s,
        messages_applied(s, msgs.push(msg), is_receive) == message_applied(
            messages_applied(s, msgs, is_receive),
            msg,
            is_receive,
            message_minimap(msg, is_receive),
        ),
        messages_warnings(Seq::empty(), is_receive) == Seq::<Seq<char>>::empty(),
        messages_warnings(msgs.push(msg), is_receive) == match message_warning(
            msg,
            is_receive,
            message_minimap(msg, is_receive),
        ) {
            Some(warning) => messages_warnings(msgs, is_receive).push(warning),
            None => messages_warnings(msgs, is_receive),
        },
{
    assert(msgs.push(msg).drop_last() =~= msgs);
}

// ---------------------------------------------------------------------------------------------
// Which messages can be handled
// ---------------------------------------------------------------------------------------------

/// A message can be handled, unless it is received and either tells of a player under a text that
/// gives no colour, or brings a world whose tiles do not fit into memory.
pub proof fn lemma_most_messages_can_be_handled(msg: RecordModel, is_receive: bool)
    ensures
        message_in_bounds(msg, is_receive) <==> !is_receive || {
            &&& tells_of_player(msg) && text_at(msg, "U"@) is Some ==> has_color_suffix(
                text_at(msg, "U"@).unwrap(),
            )
            &&& says(msg, "GWC"@) ==> (field(msg, "W"@) matches Some(ValueModel::Binary(bytes))
                ==> compressed_fits(bytes))
        },
{
    lemma_message_ids_differ();
    lemma_kinds_are_named();
}

/// A packet can be handled exactly if each of its messages can.
pub proof fn lemma_packets_can_be_handled_with_their_messages(packet: Seq<u8>, is_receive: bool)
    ensures
        match outer_document(packet) {
            Some(doc) => packet_in_bounds(packet, is_receive) <==> (forall|i: int|
                0 <= i < messages(doc).len() ==> message_in_bounds(
                    #[trigger] messages(doc)[i],
                    is_receive,
                )),
            None => packet_in_bounds(packet, is_receive),
        },
{
}

// ---------------------------------------------------------------------------------------------
// Marker colours
// ---------------------------------------------------------------------------------------------

/// An id gives a colour exactly if it has six bytes or more in UTF-8, and if none of its last
/// three pairs of bytes begins within a character.
pub proof fn lemma_long_ids_have_colors(id: Seq<char>)
    ensures
        ({
            let bytes = encode_utf8(id);
            let n = bytes.len();
            has_color_suffix(id) <==> n >= 6 && !(0x80 <= bytes[n - 2] <= 0xbf) && !(0x80
                <= bytes[n - 4] <= 0xbf) && !(0x80 <= bytes[n - 6] <= 0xbf)
        }),
{
    let bytes = encode_utf8(id);
    let n = bytes.len() as int;
    encode_utf8_valid_utf8(id);
    if n >= 6 {
        is_char_boundary_iff_not_is_continuation_byte(bytes, n - 2);
        is_char_boundary_iff_not_is_continuation_byte(bytes, n - 4);
        is_char_boundary_iff_not_is_continuation_byte(bytes, n - 6);
    }
}

/// Whether a byte is the hexadecimal digit with the value `d`, in either case.
pub open spec fn is_hex_digit(byte: u8, d: int) -> bool {
    ||| 0 <= d < 10 && byte == 48 + d
    ||| 10 <= d < 16 && byte == 65 + (d - 10)
    ||| 10 <= d < 16 && byte == 97 + (d - 10)
}

/// The last pair of bytes of an id gives the red of its colour, the pair before it the green, and
/// the one before that the blue: two hexadecimal digits their number, a plus sign and a digit that
/// digit, anything else full brightness. No channel is darker than 102, and the colour is opaque.
pub proof fn lemma_pairs_of_digits_give_the_channels(
    id: Seq<char>,
    channel: int,
    high: int,
    low: int,
)
    requires
        0 <= channel < 3,
        encode_utf8(id).len() >= 6,
    ensures
        ({
            let bytes = encode_utf8(id);
            let hi = bytes[bytes.len() - 2 - 2 * channel];
            let lo = bytes[bytes.len() - 1 - 2 * channel];
            let color = id_color(id);
            &&& color.len() == 4
            &&& color[3] == 255
            &&& is_hex_digit(hi, high) && is_hex_digit(lo, low) ==> color[channel] == (if 16 * high
                + low < 102 {
                102
            } else {
                16 * high + low
            })
            &&& hi == 43 && is_hex_digit(lo, low) ==> color[channel] == 102
            &&& (forall|d: int| !is_hex_digit(lo, d)) ==> color[channel] == 255
            &&& (forall|d: int| !is_hex_digit(hi, d)) && hi != 43 ==> color[channel] == 255
        }),
{
    let bytes = encode_utf8(id);
    let hi = bytes[bytes.len() - 2 - 2 * channel];
    let lo = bytes[bytes.len() - 1 - 2 * channel];
    lemma_hex_value(hi);
    lemma_hex_value(lo);
}

proof fn lemma_hex_value(byte: u8)
    ensures
        match hex_value(byte) {
            Some(d) => is_hex_digit(byte, d) && 0 <= d < 16 && forall|e: int|
                is_hex_digit(byte, e) ==> e == d,
            None => forall|d: int| !is_hex_digit(byte, d),
        },
{
}

// ---------------------------------------------------------------------------------------------
// What the types stand for
// ---------------------------------------------------------------------------------------------

/// An optional text stands for the text, where there is one.
pub proof fn lemma_optional_texts_stand_for_texts(text: Option<String>)
    ensures
        text matches Some(t) ==> opt_text(text) == Some(t@),
        text is None ==> opt_text(text) is None,
{
}

/// The state stands for its fields, each taken by what it stands for.
pub proof fn lemma_state_stands_for_its_fields(state: AppState)
    ensures
        state@.current_world == opt_text(state.current_world),
        state@.self_user_id == opt_text(state.self_user_id),
        state@.self_user_name == opt_text(state.self_user_name),
        state@.players == state.players@,
        state.minimap matches Some(m) ==> state@.minimap == Some(m@),
        state.minimap is None ==> state@.minimap is None,
{
}

/// What is known of a player stands for its fields, each taken by what it stands for.
pub proof fn lemma_player_stands_for_its_fields(player: PlayerInfo)
    ensures
        player@.user_id == opt_text(player.user_id),
        player@.marker_color == player.marker_color@,
        player@.name == player.name@,
        player.x matches Some(x) ==> player@.x == Some(x@),
        player.x is None ==> player@.x is None,
        player.y matches Some(y) ==> player@.y == Some(y@),
        player.y is None ==> player@.y is None,
        player@.dir == player.dir,
        player@.anim == player.anim,
        player@.xp_level == player.xp_level,
        player@.gem_amount == player.gem_amount,
        player@.in_portal == player.in_portal,
        player@.status_icon == player.status_icon,
{
}

/// A coordinate stands for the number or the text that it was given by.
pub proof fn lemma_coordinate_stands_for_its_content(c: Coordinate)
    ensures
        c matches Coordinate::Int32(n) ==> c@ == CoordinateModel::Int32(n),
        c matches Coordinate::Int64(n) ==> c@ == CoordinateModel::Int64(n),
        c matches Coordinate::Double(bits) ==> c@ == CoordinateModel::Double(bits),
        c matches Coordinate::Text(s) ==> c@ == CoordinateModel::Text(s@),
{
}

/// A minimap stands for its dimensions and its colours, tile by tile.
pub proof fn lemma_minimap_stands_for_its_tiles(m: MinimapData)
    ensures
        m@.width == m.width,
        m@.height == m.height,
        m@.colors.len() == m.colors@.len(),
        forall|i: int| 0 <= i < m@.colors.len() ==> #[trigger] m@.colors[i] == m.colors@[i]@,
        minimap_result(Ok(m)) == Ok::<MinimapModel, Seq<char>>(m@),
        opt_minimap_result(Some(Ok(m))) == Some(Ok::<MinimapModel, Seq<char>>(m@)),
{
}

/// An error stands for its text, and no result for none.
pub proof fn lemma_error_stands_for_its_text(why: String)
    ensures
        minimap_result(Err(why)) == Err::<MinimapModel, Seq<char>>(why@),
        opt_minimap_result(Some(Err(why))) == Some(Err::<MinimapModel, Seq<char>>(why@)),
        opt_minimap_result(None) is None,
{
}

/// Lists stand for their items, one for one and in order.
pub proof fn lemma_lists_stand_for_their_items(
    players: Seq<PlayerInfo>,
    texts: Seq<String>,
    docs: Seq<&Record>,
)
    ensures
        player_models(players).len() == players.len(),
        forall|i: int| 0 <= i < players.len() ==> #[trigger] player_models(players)[i] == players[i]@,
        text_models(texts).len() == texts.len(),
        forall|i: int| 0 <= i < texts.len() ==> #[trigger] text_models(texts)[i] == texts[i]@,
        record_models(docs).len() == docs.len(),
        forall|i: int| 0 <= i < docs.len() ==> #[trigger] record_models(docs)[i] == docs[i]@,
{
}

/// A document that was read stands for its content, and none for nothing.
pub proof fn lemma_optional_documents_stand_for_documents(doc: Option<Record>)
    ensures
        doc matches Some(d) ==> opt_record(doc) == Some(d@),
        doc is None ==> opt_record(doc) is None,
{
}

} // verus!
