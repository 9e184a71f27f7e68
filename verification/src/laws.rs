//! What holds of the state whatever messages arrive.

use vstd::prelude::*;

use crate::codec::document_read;
use crate::messages::{
    id_string, length_prefix, message_key, numbered, numbered_messages, outer_document, placed,
};
use crate::minimap::{compressed_world, lemma_decoded_minimap_wf, MinimapModel};
use crate::numbers::{decimal_nat, lemma_decimal_reads_back};
use crate::packet_handler::{
    id_color, initial_state, is_player_update, join_refused, joined_world,
    lemma_message_ids_differ, message_applied, message_id, message_minimap, messages_applied,
    world_payload, AppModel,
};
use crate::record::{field_str, RecordModel, ValueModel};

verus! {

/// A minimap that was decoded has one colour for each tile.
pub open spec fn decoded_wf(decoded: Option<Result<MinimapModel, Seq<char>>>) -> bool {
    decoded matches Some(Ok(m)) ==> m.wf()
}

/// Whether a colour is opaque and none of its channels darker than two fifths of full brightness.
pub open spec fn is_bright(color: Seq<u8>) -> bool {
    &&& color.len() == 4
    &&& color[0] >= 102
    &&& color[1] >= 102
    &&& color[2] >= 102
    &&& color[3] == 255
}

/// Whether a colour is the transparent one of a player whose marker has not been given a colour.
pub open spec fn is_transparent(color: Seq<u8>) -> bool {
    color == seq![0u8, 0u8, 0u8, 0u8]
}

/// A colour that was made for an id can be seen.
pub proof fn lemma_marker_colors_are_bright(id: Seq<char>)
    ensures
        is_bright(id_color(id)),
{
}

/// Each player is known under their own user id and has a bright marker, if it has a colour at
/// all; and the minimap has one colour for each tile.
pub open spec fn consistent(s: AppModel) -> bool {
    &&& forall|id: Seq<char>| #[trigger]
        s.players.contains_key(id) ==> {
            &&& s.players[id].user_id == Some(id)
            &&& is_transparent(s.players[id].marker_color) || is_bright(s.players[id].marker_color)
        }
    &&& s.minimap matches Some(m) ==> m.wf()
}

/// Before any message the state is consistent.
pub proof fn lemma_initial_state_consistent()
    ensures
        consistent(initial_state()),
{
}

/// A message leaves a consistent state consistent.
pub proof fn lemma_message_keeps_consistent(
    s: AppModel,
    msg: RecordModel,
    is_receive: bool,
    decoded: Option<Result<MinimapModel, Seq<char>>>,
)
    requires
        consistent(s),
        decoded_wf(decoded),
    ensures
        consistent(message_applied(s, msg, is_receive, decoded)),
{
    if let Some(text) = field_str(msg, "U"@) {
        lemma_marker_colors_are_bright(text);
    }
}

/// The messages of a packet leave a consistent state consistent.
pub proof fn lemma_messages_keep_consistent(s: AppModel, msgs: Seq<RecordModel>, is_receive: bool)
    requires
        consistent(s),
    ensures
        consistent(messages_applied(s, msgs, is_receive)),
    decreases msgs.len(),
{
    if msgs.len() > 0 {
        lemma_messages_keep_consistent(s, msgs.drop_last(), is_receive);
        lemma_message_minimap_wf(msgs.last(), is_receive);
        lemma_message_keeps_consistent(
            messages_applied(s, msgs.drop_last(), is_receive),
            msgs.last(),
            is_receive,
            message_minimap(msgs.last(), is_receive),
        );
    }
}

/// The minimap that a message brings has one colour for each tile.
pub proof fn lemma_message_minimap_wf(msg: RecordModel, is_receive: bool)
    ensures
        decoded_wf(message_minimap(msg, is_receive)),
{
    if let Some(bytes) = world_payload(msg, is_receive) {
        if let Ok(world) = compressed_world(bytes) {
            lemma_decoded_minimap_wf(world);
        }
    }
}

/// What is sent changes nothing: only received messages do.
pub proof fn lemma_sent_messages_ignored(s: AppModel, msgs: Seq<RecordModel>)
    ensures
        messages_applied(s, msgs, false) == s,
    decreases msgs.len(),
{
    if msgs.len() > 0 {
        lemma_sent_messages_ignored(s, msgs.drop_last());
    }
}

/// Packets are handled one after the other: the messages of two of them in a row change the state
/// as all of their messages in a row do.
pub proof fn lemma_messages_in_sequence(
    s: AppModel,
    first: Seq<RecordModel>,
    second: Seq<RecordModel>,
    is_receive: bool,
)
    ensures
        messages_applied(s, first + second, is_receive) == messages_applied(
            messages_applied(s, first, is_receive),
            second,
            is_receive,
        ),
    decreases second.len(),
{
    if second.len() == 0 {
        assert(first + second =~= first);
    } else {
        assert((first + second).drop_last() =~= first + second.drop_last());
        lemma_messages_in_sequence(s, first, second.drop_last(), is_receive);
    }
}

/// A message that arrives twice in a row changes nothing the second time.
pub proof fn lemma_message_idempotent(
    s: AppModel,
    msg: RecordModel,
    is_receive: bool,
    decoded: Option<Result<MinimapModel, Seq<char>>>,
)
    ensures
        ({
            let once = message_applied(s, msg, is_receive, decoded);
            message_applied(once, msg, is_receive, decoded) == once
        }),
{
    let once = message_applied(s, msg, is_receive, decoded);
    let twice = message_applied(once, msg, is_receive, decoded);
    assert(twice.players =~= once.players);
    assert(twice =~= once);
}

/// Leaving a world forgets it, its players and its map, and keeps who the player is.
pub proof fn lemma_leaving_forgets_world(
    s: AppModel,
    msg: RecordModel,
    decoded: Option<Result<MinimapModel, Seq<char>>>,
)
    requires
        message_id(msg) == "LW"@,
    ensures
        message_applied(s, msg, true, decoded) == (AppModel {
            self_user_id: s.self_user_id,
            self_user_name: s.self_user_name,
            ..initial_state()
        }),
{
    lemma_message_ids_differ();
}

/// A refused request to join a world changes nothing.
pub proof fn lemma_refused_join_ignored(
    s: AppModel,
    msg: RecordModel,
    decoded: Option<Result<MinimapModel, Seq<char>>>,
)
    requires
        message_id(msg) == "TTjW"@,
        join_refused(msg),
    ensures
        message_applied(s, msg, true, decoded) == s,
{
    lemma_message_ids_differ();
}

/// After joining a world nobody but the player of this game is known to be there, the player is
/// if their id is known, and there is no map yet.
pub proof fn lemma_joining_resets_world(
    s: AppModel,
    msg: RecordModel,
    decoded: Option<Result<MinimapModel, Seq<char>>>,
)
    requires
        message_id(msg) == "TTjW"@,
        !join_refused(msg),
        joined_world(msg) is Some,
    ensures
        ({
            let after = message_applied(s, msg, true, decoded);
            &&& after.current_world == joined_world(msg)
            &&& after.minimap is None
            &&& after.self_user_id == s.self_user_id
            &&& after.self_user_name == s.self_user_name
            &&& forall|id: Seq<char>| #[trigger]
                after.players.contains_key(id) <==> s.self_user_id == Some(id)
        }),
{
    lemma_message_ids_differ();
}

/// A message about a player leaves everything else as it was: the other players, the world, the
/// map, and who the player of this game is.
pub proof fn lemma_update_touches_one_player(
    s: AppModel,
    msg: RecordModel,
    decoded: Option<Result<MinimapModel, Seq<char>>>,
)
    requires
        is_player_update(message_id(msg)),
    ensures
        ({
            let after = message_applied(s, msg, true, decoded);
            &&& after.current_world == s.current_world
            &&& after.minimap == s.minimap
            &&& after.self_user_id == s.self_user_id
            &&& after.self_user_name == s.self_user_name
            &&& forall|id: Seq<char>|
                id_string(msg, "U"@) != Some(id) ==> (#[trigger] after.players.contains_key(id)
                    == s.players.contains_key(id) && (s.players.contains_key(id)
                    ==> after.players[id] == s.players[id]))
            &&& id_string(msg, "U"@) matches Some(id) ==> after.players.contains_key(id)
        }),
{
    lemma_message_ids_differ();
}

/// A player who left is gone, whatever was said of them just before.
pub proof fn lemma_left_player_is_gone(
    s: AppModel,
    update: RecordModel,
    left: RecordModel,
    decoded: Option<Result<MinimapModel, Seq<char>>>,
)
    requires
        is_player_update(message_id(update)),
        message_id(left) == "PL"@,
        id_string(left, "U"@) is Some,
        id_string(update, "U"@) == id_string(left, "U"@),
    ensures
        message_applied(message_applied(s, update, true, decoded), left, true, decoded)
            == message_applied(s, left, true, decoded),
        !message_applied(s, left, true, decoded).players.contains_key(
            id_string(left, "U"@).unwrap(),
        ),
{
    lemma_message_ids_differ();
    let id = id_string(left, "U"@).unwrap();
    let updated = message_applied(s, update, true, decoded);
    let a = message_applied(updated, left, true, decoded);
    let b = message_applied(s, left, true, decoded);
    assert(a.players =~= b.players);
    assert(a =~= b);
}

/// Messages of a kind that is not known change nothing.
pub proof fn lemma_unknown_message_ignored(
    s: AppModel,
    msg: RecordModel,
    is_receive: bool,
    decoded: Option<Result<MinimapModel, Seq<char>>>,
)
    requires
        !is_player_update(message_id(msg)),
        message_id(msg) != "GPd"@,
        message_id(msg) != "TTjW"@,
        message_id(msg) != "LW"@,
        message_id(msg) != "GWC"@,
        message_id(msg) != "PL"@,
    ensures
        message_applied(s, msg, is_receive, decoded) == s,
{
}

// ---------------------------------------------------------------------------------------------
// Envelopes
// ---------------------------------------------------------------------------------------------

/// The numbered messages of a document in the order of the document.
pub open spec fn numbered_as_written(doc: RecordModel) -> Seq<(nat, RecordModel)>
    decreases doc.len(),
{
    if doc.len() == 0 {
        Seq::empty()
    } else {
        match numbered(doc.last()) {
            Some(item) => numbered_as_written(doc.drop_last()).push(item),
            None => numbered_as_written(doc.drop_last()),
        }
    }
}

/// The items of `list` with the number `n`, in order.
pub open spec fn with_number(list: Seq<(nat, RecordModel)>, n: nat) -> Seq<(nat, RecordModel)> {
    list.filter(number_is(n))
}

/// Whether an item has the number `n`.
pub open spec fn number_is(n: nat) -> spec_fn((nat, RecordModel)) -> bool {
    |item: (nat, RecordModel)| item.0 == n
}

/// Whether the numbers of a list never fall.
pub open spec fn numbers_rise(list: Seq<(nat, RecordModel)>) -> bool {
    forall|i: int, j: int| 0 <= i < j < list.len() ==> (#[trigger] list[i]).0 <= (#[trigger] list[j]).0
}

/// Numbered messages come by their numbers. None is lost or added, and those with the same number
/// stay in the order of the document.
pub proof fn lemma_numbered_messages_in_order(doc: RecordModel)
    ensures
        numbers_rise(numbered_messages(doc)),
        numbered_messages(doc).len() == numbered_as_written(doc).len(),
        forall|n: nat| #[trigger]
            with_number(numbered_messages(doc), n) == with_number(numbered_as_written(doc), n),
    decreases doc.len(),
{
    if doc.len() > 0 {
        let before = doc.drop_last();
        lemma_numbered_messages_in_order(before);
        if let Some(item) = numbered(doc.last()) {
            lemma_placed_in_order(numbered_messages(before), item);
            assert forall|n: nat| #[trigger]
                with_number(numbered_messages(doc), n) == with_number(
                    numbered_as_written(doc),
                    n,
                ) by {
                lemma_placed_with_number(numbered_messages(before), item, n);
                numbered_as_written(before).lemma_filter_push(item, number_is(n));
                assert(with_number(numbered_messages(before), n) == with_number(
                    numbered_as_written(before),
                    n,
                ));
            }
        }
    }
}

proof fn lemma_placed_in_order(list: Seq<(nat, RecordModel)>, item: (nat, RecordModel))
    requires
        numbers_rise(list),
    ensures
        numbers_rise(placed(list, item)),
        placed(list, item).len() == list.len() + 1,
        forall|i: int|
            0 <= i < placed(list, item).len() ==> (#[trigger] placed(list, item)[i]).0 <= item.0 || (
            list.len() > 0 && placed(list, item)[i].0 <= list.last().0),
    decreases list.len(),
{
    if list.len() == 0 || list.last().0 <= item.0 {
    } else {
        let front = list.drop_last();
        lemma_placed_in_order(front, item);
        if front.len() > 0 {
            assert(front.last() == list[list.len() - 2]);
        }
    }
}

proof fn lemma_placed_with_number(
    list: Seq<(nat, RecordModel)>,
    item: (nat, RecordModel),
    n: nat,
)
    ensures
        with_number(placed(list, item), n) == if item.0 == n {
            with_number(list, n).push(item)
        } else {
            with_number(list, n)
        },
    decreases list.len(),
{
    let is_n = number_is(n);
    if list.len() == 0 || list.last().0 <= item.0 {
        list.lemma_filter_push(item, is_n);
    } else {
        let front = list.drop_last();
        lemma_placed_with_number(front, item, n);
        placed(front, item).lemma_filter_push(list.last(), is_n);
        front.lemma_filter_push(list.last(), is_n);
        assert(front.push(list.last()) =~= list);
    }
}

/// A document that follows a prefix with the length of the packet is found, unless the packet with
/// its prefix is a document too; and a packet that is a document is that document, whatever its
/// first bytes say.
pub proof fn lemma_prefix_is_skipped(prefix: Seq<u8>, payload: Seq<u8>)
    requires
        prefix.len() == 4,
        payload.len() > 0,
        length_prefix(prefix) == 4 + payload.len(),
    ensures
        outer_document(prefix + payload) == match (
            document_read(prefix + payload),
            document_read(payload),
        ) {
            (Ok(doc), _) => Some(doc),
            (Err(_), Ok(doc)) => Some(doc),
            (Err(_), Err(_)) => None,
        },
{
    let packet = prefix + payload;
    assert(length_prefix(packet) == length_prefix(prefix));
    assert(packet.skip(4) =~= payload);
}

/// A message that is found by counting bears the number that it was counted with.
pub proof fn lemma_counted_names_are_numbered(i: nat, msg: RecordModel)
    requires
        i <= usize::MAX,
    ensures
        numbered((message_key(i), ValueModel::Nested(msg))) == Some((i, msg)),
{
    lemma_decimal_reads_back(i);
    assert(message_key(i).drop_first() =~= decimal_nat(i));
    assert(message_key(i).first() == 'm');
}

} // verus!
