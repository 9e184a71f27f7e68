//! What holds of trimmed and ordered texts, and of the order of players.

use vstd::prelude::*;
use vstd::utf8::*;

use crate::players::{in_player_order, lists_players, player_before, unknown_player, PlayerModel};
use crate::text::{bytes_before, is_white_space, text_before, trimmed, trimmed_end, trimmed_start};

verus! {

/// Whether a text holds nothing but white space.
pub open spec fn is_blank(s: Seq<char>) -> bool {
    forall|i: int| 0 <= i < s.len() ==> is_white_space(#[trigger] s[i])
}

/// Trimming takes away white space at either end, as much as there is, and nothing else.
pub proof fn lemma_trimming_takes_white_space_away(
    before: Seq<char>,
    text: Seq<char>,
    after: Seq<char>,
)
    requires
        is_blank(before),
        is_blank(after),
        text.len() > 0 ==> !is_white_space(text.first()) && !is_white_space(text.last()),
    ensures
        trimmed(before + text + after) == text,
    decreases before.len() + after.len(),
{
    let whole = before + text + after;
    if before.len() > 0 {
        assert(whole.first() == before[0]);
        let rest = before.drop_first();
        assert(is_blank(rest)) by {
            assert forall|i: int| 0 <= i < rest.len() implies is_white_space(#[trigger] rest[i]) by {
                assert(rest[i] == before[i + 1]);
            }
        }
        assert(whole.drop_first() =~= rest + text + after);
        lemma_trimming_takes_white_space_away(rest, text, after);
    } else if text.len() == 0 {
        assert(whole =~= after);
        lemma_blank_start(after);
    } else {
        assert(whole =~= text + after);
        assert(whole.first() == text.first());
        assert(trimmed_start(whole) == whole);
        lemma_blank_end(text, after);
    }
}

proof fn lemma_blank_start(s: Seq<char>)
    requires
        is_blank(s),
    ensures
        trimmed_start(s) == Seq::<char>::empty(),
        trimmed(s) == Seq::<char>::empty(),
    decreases s.len(),
{
    if s.len() > 0 {
        assert(is_white_space(s[0]));
        let rest = s.drop_first();
        assert forall|i: int| 0 <= i < rest.len() implies is_white_space(#[trigger] rest[i]) by {
            assert(rest[i] == s[i + 1]);
        }
        lemma_blank_start(rest);
    } else {
        assert(s =~= Seq::<char>::empty());
    }
}

proof fn lemma_blank_end(text: Seq<char>, after: Seq<char>)
    requires
        is_blank(after),
        text.len() > 0,
        !is_white_space(text.last()),
    ensures
        trimmed_end(text + after) == text,
    decreases after.len(),
{
    let whole = text + after;
    if after.len() == 0 {
        assert(whole =~= text);
    } else {
        assert(whole.last() == after[after.len() - 1]);
        let rest = after.drop_last();
        assert forall|i: int| 0 <= i < rest.len() implies is_white_space(#[trigger] rest[i]) by {
            assert(rest[i] == after[i]);
        }
        assert(whole.drop_last() =~= text + rest);
        lemma_blank_end(text, rest);
    }
}

/// Whether `a` is a proper beginning of `b`, or has the smaller byte where they first differ.
pub open spec fn is_less(a: Seq<u8>, b: Seq<u8>) -> bool {
    exists|p: int|
        0 <= p <= a.len() && p < b.len() && #[trigger] a.take(p) == b.take(p) && (p == a.len()
            || a[p] < b[p])
}

/// Bytes are ordered by the first place where they differ; a beginning comes before the whole.
pub proof fn lemma_bytes_are_ordered_by_their_first_difference(a: Seq<u8>, b: Seq<u8>)
    ensures
        bytes_before(a, b) <==> is_less(a, b),
    decreases a.len(),
{
    if a.len() == 0 || b.len() == 0 {
        if a.len() < b.len() {
            assert(a.take(0) =~= b.take(0));
        }
    } else if a.first() != b.first() {
        if a.first() < b.first() {
            assert(a.take(0) =~= b.take(0));
        }
        if is_less(a, b) {
            let p = choose|p: int|
                0 <= p <= a.len() && p < b.len() && #[trigger] a.take(p) == b.take(p) && (p
                    == a.len() || a[p] < b[p]);
            if p > 0 {
                assert(a.take(p)[0] == b.take(p)[0]);
            }
        }
    } else {
        let x = a.drop_first();
        let y = b.drop_first();
        lemma_bytes_are_ordered_by_their_first_difference(x, y);
        if is_less(x, y) {
            let p = choose|p: int|
                0 <= p <= x.len() && p < y.len() && #[trigger] x.take(p) == y.take(p) && (p
                    == x.len() || x[p] < y[p]);
            assert(a.take(p + 1) =~= seq![a.first()] + x.take(p));
            assert(b.take(p + 1) =~= seq![b.first()] + y.take(p));
        }
        if is_less(a, b) {
            let p = choose|p: int|
                0 <= p <= a.len() && p < b.len() && #[trigger] a.take(p) == b.take(p) && (p
                    == a.len() || a[p] < b[p]);
            assert(p > 0);
            assert(x.take(p - 1) =~= a.take(p).drop_first());
            assert(y.take(p - 1) =~= b.take(p).drop_first());
        }
    }
}

/// Texts are ordered as their UTF-8 bytes are.
pub proof fn lemma_texts_are_ordered_by_their_bytes(a: Seq<char>, b: Seq<char>)
    ensures
        text_before(a, b) <==> is_less(encode_utf8(a), encode_utf8(b)),
{
    lemma_bytes_are_ordered_by_their_first_difference(encode_utf8(a), encode_utf8(b));
}

/// Whether the first of two optional texts comes no later than the second: a missing one first,
/// then by their bytes.
pub open spec fn id_no_later(a: Option<Seq<char>>, b: Option<Seq<char>>) -> bool {
    match (a, b) {
        (None, _) => true,
        (Some(_), None) => false,
        (Some(x), Some(y)) => !is_less(encode_utf8(y), encode_utf8(x)),
    }
}

/// One player comes before another exactly if their name does, or if their names are the same and
/// their user id does; nothing else of them counts.
pub proof fn lemma_players_are_ordered_by_name_and_id(a: PlayerModel, b: PlayerModel)
    ensures
        player_before(a, b) <==> is_less(encode_utf8(a.name), encode_utf8(b.name)) || (a.name
            == b.name && !id_no_later(b.user_id, a.user_id)),
{
    lemma_texts_are_ordered_by_their_bytes(a.name, b.name);
    if let (Some(x), Some(y)) = (a.user_id, b.user_id) {
        lemma_texts_are_ordered_by_their_bytes(x, y);
    }
}

/// In a list of players in order, no name is less than an earlier one, and among players of the
/// same name no user id is less than an earlier one.
pub proof fn lemma_listed_players_rise(list: Seq<PlayerModel>, i: int, j: int)
    requires
        in_player_order(list),
        0 <= i < j < list.len(),
    ensures
        !is_less(encode_utf8(list[j].name), encode_utf8(list[i].name)),
        list[i].name == list[j].name ==> id_no_later(list[i].user_id, list[j].user_id),
{
    assert(!player_before(list[j], list[i]));
    lemma_players_are_ordered_by_name_and_id(list[j], list[i]);
}

/// Whether somebody is one of the players.
pub open spec fn is_one_of(player: PlayerModel, players: Map<Seq<char>, PlayerModel>) -> bool {
    exists|id: Seq<char>| #[trigger] players.contains_key(id) && players[id] == player
}

/// A list of the players has as many entries as there are players, holds each of them, and holds
/// nobody else.
pub proof fn lemma_each_player_is_listed(
    list: Seq<PlayerModel>,
    players: Map<Seq<char>, PlayerModel>,
)
    requires
        lists_players(list, players),
    ensures
        players.dom().finite(),
        list.len() == players.dom().len(),
        forall|id: Seq<char>| #[trigger]
            players.contains_key(id) ==> list.contains(players[id]),
        forall|i: int| 0 <= i < list.len() ==> is_one_of(#[trigger] list[i], players),
{
    let keys = choose|keys: Seq<Seq<char>>| #[trigger]
        keys.no_duplicates() && keys.to_set() == players.dom() && list == keys.map_values(
            |k: Seq<char>| players[k],
        );
    keys.unique_seq_to_set();
    assert forall|id: Seq<char>| #[trigger] players.contains_key(id) implies list.contains(
        players[id],
    ) by {
        assert(keys.to_set().contains(id));
        let i = choose|i: int| 0 <= i < keys.len() && keys[i] == id;
        assert(list[i] == players[id]);
    }
    assert forall|i: int| 0 <= i < list.len() implies is_one_of(#[trigger] list[i], players) by {
        assert(keys.to_set().contains(keys[i]));
        assert(players.contains_key(keys[i]));
    }
}

/// Nothing is known of an unknown player: neither id, name nor place, and their marker is
/// transparent.
pub proof fn lemma_nothing_is_known_of_unknown_players()
    ensures
        unknown_player() == (PlayerModel {
            user_id: None,
            marker_color: seq![0u8, 0u8, 0u8, 0u8],
            name: Seq::<char>::empty(),
            x: None,
            y: None,
            dir: None,
            anim: None,
            xp_level: None,
            gem_amount: None,
            in_portal: false,
            status_icon: None,
        }),
{
}

} // verus!
