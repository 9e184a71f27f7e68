//! The players in the current world.

use vstd::prelude::*;

use crate::text::{
    copy_opt_text, is_before, lemma_text_before_order, opt_text, same_text, text_before,
};

verus! {

/// A coordinate as a message gives it. Each of them stands for the number nearest to it in single
/// precision.
#[derive(Debug, PartialEq)]
pub enum Coordinate {
    Int32(i32),
    Int64(i64),
    /// A double, by its bits.
    Double(u64),
    /// A number as text.
    Text(String),
}

/// What a `Coordinate` stands for.
pub enum CoordinateModel {
    Int32(i32),
    Int64(i64),
    Double(u64),
    Text(Seq<char>),
}

impl View for Coordinate {
    type V = CoordinateModel;

    open spec fn view(&self) -> CoordinateModel {
        match *self {
            Coordinate::Int32(n) => CoordinateModel::Int32(n),
            Coordinate::Int64(n) => CoordinateModel::Int64(n),
            Coordinate::Double(bits) => CoordinateModel::Double(bits),
            Coordinate::Text(s) => CoordinateModel::Text(s@),
        }
    }
}

/// What an optional coordinate stands for.
pub open spec fn opt_coordinate(c: Option<Coordinate>) -> Option<CoordinateModel> {
    match c {
        Some(c) => Some(c@),
        None => None,
    }
}

fn copy_opt_coordinate(c: &Option<Coordinate>) -> (r: Option<Coordinate>)
    ensures
        opt_coordinate(r) == opt_coordinate(*c),
{
    match c {
        Some(Coordinate::Int32(n)) => Some(Coordinate::Int32(*n)),
        Some(Coordinate::Int64(n)) => Some(Coordinate::Int64(*n)),
        Some(Coordinate::Double(bits)) => Some(Coordinate::Double(*bits)),
        Some(Coordinate::Text(s)) => Some(Coordinate::Text(s.clone())),
        None => None,
    }
}

/// What is known of a player.
#[derive(Debug, PartialEq)]
pub struct PlayerInfo {
    pub user_id: Option<String>,
    /// The red, green, blue and alpha channels of the player's marker.
    pub marker_color: [u8; 4],
    pub name: String,
    pub x: Option<Coordinate>,
    pub y: Option<Coordinate>,
    pub dir: Option<i32>,
    pub anim: Option<i32>,
    pub xp_level: Option<i32>,
    pub gem_amount: Option<i32>,
    pub in_portal: bool,
    pub status_icon: Option<i32>,
}

/// What a `PlayerInfo` stands for.
#[verifier::ext_equal]
pub struct PlayerModel {
    pub user_id: Option<Seq<char>>,
    pub marker_color: Seq<u8>,
    pub name: Seq<char>,
    pub x: Option<CoordinateModel>,
    pub y: Option<CoordinateModel>,
    pub dir: Option<i32>,
    pub anim: Option<i32>,
    pub xp_level: Option<i32>,
    pub gem_amount: Option<i32>,
    pub in_portal: bool,
    pub status_icon: Option<i32>,
}

impl View for PlayerInfo {
    type V = PlayerModel;

    open spec fn view(&self) -> PlayerModel {
        PlayerModel {
            user_id: opt_text(self.user_id),
            marker_color: self.marker_color@,
            name: self.name@,
            x: opt_coordinate(self.x),
            y: opt_coordinate(self.y),
            dir: self.dir,
            anim: self.anim,
            xp_level: self.xp_level,
            gem_amount: self.gem_amount,
            in_portal: self.in_portal,
            status_icon: self.status_icon,
        }
    }
}

/// A player of whom nothing is known.
pub open spec fn unknown_player() -> PlayerModel {
    PlayerModel {
        user_id: None,
        marker_color: seq![0u8, 0u8, 0u8, 0u8],
        name: Seq::empty(),
        x: None,
        y: None,
        dir: None,
        anim: None,
        xp_level: None,
        gem_amount: None,
        in_portal: false,
        status_icon: None,
    }
}

impl Default for PlayerInfo {
    fn default() -> (r: Self)
        ensures
            r@ == unknown_player(),
    {
        let r = PlayerInfo {
            user_id: None,
            marker_color: [0, 0, 0, 0],
            name: String::new(),
            x: None,
            y: None,
            dir: None,
            anim: None,
            xp_level: None,
            gem_amount: None,
            in_portal: false,
            status_icon: None,
        };
        assert(r@ =~= unknown_player());
        r
    }
}

impl Clone for PlayerInfo {
    fn clone(&self) -> (r: Self)
        ensures
            r@ == self@,
    {
        PlayerInfo {
            user_id: copy_opt_text(&self.user_id),
            marker_color: self.marker_color,
            name: self.name.clone(),
            x: copy_opt_coordinate(&self.x),
            y: copy_opt_coordinate(&self.y),
            dir: self.dir,
            anim: self.anim,
            xp_level: self.xp_level,
            gem_amount: self.gem_amount,
            in_portal: self.in_portal,
            status_icon: self.status_icon,
        }
    }
}

// ---------------------------------------------------------------------------------------------
// The order of players
// ---------------------------------------------------------------------------------------------

/// The order of optional texts: a missing one comes first.
pub open spec fn opt_text_before(a: Option<Seq<char>>, b: Option<Seq<char>>) -> bool {
    match (a, b) {
        (Some(x), Some(y)) => text_before(x, y),
        (None, Some(_)) => true,
        _ => false,
    }
}

/// The order of players: by name, and by user id where the names are the same.
pub open spec fn player_before(a: PlayerModel, b: PlayerModel) -> bool {
    text_before(a.name, b.name) || (a.name == b.name && opt_text_before(a.user_id, b.user_id))
}

/// The order of players is irreflexive and transitive, and two players that it leaves unordered
/// have the same name and user id.
pub proof fn lemma_player_before_order(a: PlayerModel, b: PlayerModel, c: PlayerModel)
    ensures
        !player_before(a, a),
        player_before(a, b) && player_before(b, c) ==> player_before(a, c),
        player_before(a, b) || player_before(b, a) || (a.name == b.name && a.user_id == b.user_id),
{
    lemma_text_before_order(a.name, b.name, c.name);
    if let (Some(x), Some(y)) = (a.user_id, b.user_id) {
        lemma_text_before_order(x, y, match c.user_id {
            Some(z) => z,
            None => x,
        });
    }
    if let Some(x) = a.user_id {
        lemma_text_before_order(x, x, x);
    }
}

fn is_player_before(a: &PlayerInfo, b: &PlayerInfo) -> (r: bool)
    ensures
        r == player_before(a@, b@),
{
    if is_before(a.name.as_str(), b.name.as_str()) {
        return true;
    }
    if !same_text(a.name.as_str(), b.name.as_str()) {
        return false;
    }
    match (&a.user_id, &b.user_id) {
        (Some(x), Some(y)) => is_before(x.as_str(), y.as_str()),
        (None, Some(_)) => true,
        _ => false,
    }
}

// ---------------------------------------------------------------------------------------------
// The table of players
// ---------------------------------------------------------------------------------------------

/// Players by the id that they are known under. No id occurs twice.
#[derive(Debug, PartialEq)]
pub struct PlayerTable {
    entries: Vec<(String, PlayerInfo)>,
}

impl View for PlayerTable {
    type V = Map<Seq<char>, PlayerModel>;

    closed spec fn view(&self) -> Map<Seq<char>, PlayerModel> {
        Map::new(
            |k: Seq<char>| self.holds(k),
            |k: Seq<char>| self.entries@[self.position(k)].1@,
        )
    }
}

/// Whether `list` holds each player of `players` exactly once.
pub open spec fn lists_players(
    list: Seq<PlayerModel>,
    players: Map<Seq<char>, PlayerModel>,
) -> bool {
    exists|keys: Seq<Seq<char>>| #[trigger]
        keys.no_duplicates() && keys.to_set() == players.dom() && list == keys.map_values(
            |k: Seq<char>| players[k],
        )
}

/// Whether no player of `list` comes before one that is listed earlier.
pub open spec fn in_player_order(list: Seq<PlayerModel>) -> bool {
    forall|i: int, j: int|
        0 <= i < j < list.len() ==> !player_before(#[trigger] list[j], #[trigger] list[i])
}

/// A list of players, each taken by its view.
pub open spec fn player_models(players: Seq<PlayerInfo>) -> Seq<PlayerModel> {
    players.map_values(|p: PlayerInfo| p@)
}

impl PlayerTable {
    spec fn has_at(&self, i: int, k: Seq<char>) -> bool {
        0 <= i < self.entries@.len() && self.entries@[i].0@ == k
    }

    spec fn holds(&self, k: Seq<char>) -> bool {
        exists|i: int| self.has_at(i, k)
    }

    spec fn position(&self, k: Seq<char>) -> int {
        choose|i: int| self.has_at(i, k)
    }

    spec fn keys(&self) -> Seq<Seq<char>> {
        self.entries@.map_values(|e: (String, PlayerInfo)| e.0@)
    }

    /// No id occurs twice.
    pub closed spec fn wf(&self) -> bool {
        forall|i: int, j: int|
            0 <= i < j < self.entries@.len() ==> (#[trigger] self.entries@[i]).0@ != (
            #[trigger] self.entries@[j]).0@
    }

    proof fn lemma_at(&self, i: int)
        requires
            self.wf(),
            0 <= i < self.entries@.len(),
        ensures
            self@.contains_key(self.entries@[i].0@),
            self@[self.entries@[i].0@] == self.entries@[i].1@,
    {
        let k = self.entries@[i].0@;
        assert(self.has_at(i, k));
        let p = self.position(k);
        assert(self.has_at(p, k));
    }

    proof fn lemma_absent(&self, k: Seq<char>)
        requires
            forall|i: int| 0 <= i < self.entries@.len() ==> (#[trigger] self.entries@[i]).0@ != k,
        ensures
            !self@.contains_key(k),
    {
        assert(!self.holds(k));
    }

    proof fn lemma_dom(&self)
        requires
            self.wf(),
        ensures
            self.keys().no_duplicates(),
            self.keys().to_set() == self@.dom(),
    {
        let keys = self.keys();
        assert forall|k: Seq<char>| keys.to_set().contains(k) == self@.dom().contains(k) by {
            if keys.to_set().contains(k) {
                let i = choose|i: int| 0 <= i < keys.len() && keys[i] == k;
                self.lemma_at(i);
            }
            if self@.dom().contains(k) {
                let i = choose|i: int| self.has_at(i, k);
                assert(keys[i] == k);
            }
        }
        assert(keys.to_set() =~= self@.dom());
    }

    /// A table without players.
    pub fn new() -> (r: PlayerTable)
        ensures
            r.wf(),
            r@ == Map::<Seq<char>, PlayerModel>::empty(),
    {
        let r = PlayerTable { entries: Vec::new() };
        assert(r@ =~= Map::<Seq<char>, PlayerModel>::empty());
        r
    }

    /// The number of players.
    pub fn len(&self) -> (r: usize)
        requires
            self.wf(),
        ensures
            self@.dom().finite(),
            r == self@.dom().len(),
    {
        proof {
            self.lemma_dom();
            self.keys().unique_seq_to_set();
        }
        self.entries.len()
    }

    fn find(&self, key: &str) -> (r: Option<usize>)
        requires
            self.wf(),
        ensures
            match r {
                Some(i) => i < self.entries@.len() && self.entries@[i as int].0@ == key@,
                None => forall|i: int|
                    0 <= i < self.entries@.len() ==> (#[trigger] self.entries@[i]).0@ != key@,
            },
    {
        let mut i: usize = 0;
        while i < self.entries.len()
            invariant
                i <= self.entries@.len(),
                forall|j: int| 0 <= j < i ==> (#[trigger] self.entries@[j]).0@ != key@,
            decreases self.entries@.len() - i,
        {
            if same_text(self.entries[i].0.as_str(), key) {
                return Some(i);
            }
            i = i + 1;
        }
        None
    }

    /// The player with the id `key`.
    pub fn get(&self, key: &str) -> (r: Option<&PlayerInfo>)
        requires
            self.wf(),
        ensures
            match r {
                Some(p) => self@.contains_key(key@) && self@[key@] == p@,
                None => !self@.contains_key(key@),
            },
    {
        match self.find(key) {
            Some(i) => {
                proof {
                    self.lemma_at(i as int);
                }
                Some(&self.entries[i].1)
            },
            None => {
                proof {
                    self.lemma_absent(key@);
                }
                None
            },
        }
    }

    /// Puts a player under the id `key`, in the place of the one that was there.
    pub fn insert(&mut self, key: String, player: PlayerInfo)
        requires
            old(self).wf(),
        ensures
            final(self).wf(),
            final(self)@ == old(self)@.insert(key@, player@),
    {
        let ghost before = *self;
        let ghost k = key@;
        let ghost v = player@;
        match self.find(key.as_str()) {
            Some(i) => {
                self.entries.set(i, (key, player));
                proof {
                    let after = *self;
                    assert forall|m: Seq<char>| #[trigger]
                        after@.contains_key(m) == before@.insert(k, v).contains_key(m) && (
                    after@.contains_key(m) ==> after@[m] == before@.insert(k, v)[m]) by {
                        before.lemma_at(i as int);
                        after.lemma_at(i as int);
                        if after@.contains_key(m) {
                            let j = choose|j: int| after.has_at(j, m);
                            after.lemma_at(j);
                            before.lemma_at(j);
                        }
                        if before@.contains_key(m) {
                            let j = choose|j: int| before.has_at(j, m);
                            after.lemma_at(j);
                        }
                    }
                    assert(after@ =~= before@.insert(k, v));
                }
            },
            None => {
                self.entries.push((key, player));
                proof {
                    let after = *self;
                    let n = before.entries@.len() as int;
                    assert forall|m: Seq<char>| #[trigger]
                        after@.contains_key(m) == before@.insert(k, v).contains_key(m) && (
                    after@.contains_key(m) ==> after@[m] == before@.insert(k, v)[m]) by {
                        after.lemma_at(n);
                        if after@.contains_key(m) {
                            let j = choose|j: int| after.has_at(j, m);
                            after.lemma_at(j);
                            if j < n {
                                before.lemma_at(j);
                            }
                        }
                        if before@.contains_key(m) {
                            let j = choose|j: int| before.has_at(j, m);
                            assert(after.entries@[j] == before.entries@[j]);
                            after.lemma_at(j);
                        }
                    }
                    assert(after@ =~= before@.insert(k, v));
                }
            },
        }
    }

    /// Removes the player with the id `key`, if there is one.
    pub fn remove(&mut self, key: &str)
        requires
            old(self).wf(),
        ensures
            final(self).wf(),
            final(self)@ == old(self)@.remove(key@),
    {
        let ghost before = *self;
        match self.find(key) {
            Some(i) => {
                let _ = self.entries.remove(i);
                proof {
                    let after = *self;
                    let at = i as int;
                    assert(forall|j: int|
                        0 <= j < after.entries@.len() ==> #[trigger] after.entries@[j]
                            == before.entries@[if j < at { j } else { j + 1 }]);
                    assert forall|m: Seq<char>| #[trigger]
                        after@.contains_key(m) == before@.remove(key@).contains_key(m) && (
                    after@.contains_key(m) ==> after@[m] == before@.remove(key@)[m]) by {
                        if after@.contains_key(m) {
                            let j = choose|j: int| after.has_at(j, m);
                            after.lemma_at(j);
                            before.lemma_at(if j < at { j } else { j + 1 });
                        }
                        if before@.contains_key(m) && m != key@ {
                            let j = choose|j: int| before.has_at(j, m);
                            let l = if j < at { j } else { j - 1 };
                            assert(after.entries@[l] == before.entries@[j]);
                            after.lemma_at(l);
                        }
                    }
                    assert(after@ =~= before@.remove(key@));
                }
            },
            None => {
                proof {
                    self.lemma_absent(key@);
                    assert(self@ =~= before@.remove(key@));
                }
            },
        }
    }

    /// Removes all players.
    pub fn clear(&mut self)
        ensures
            final(self).wf(),
            final(self)@ == Map::<Seq<char>, PlayerModel>::empty(),
    {
        self.entries.clear();
        assert(self@ =~= Map::<Seq<char>, PlayerModel>::empty());
    }

    /// The players in order, each once.
    pub fn sorted(&self) -> (r: Vec<PlayerInfo>)
        requires
            self.wf(),
        ensures
            lists_players(player_models(r@), self@),
            in_player_order(player_models(r@)),
    {
        let mut out: Vec<PlayerInfo> = Vec::new();
        let ghost mut keys: Seq<Seq<char>> = Seq::empty();
        let mut i: usize = 0;
        while i < self.entries.len()
            invariant
                i <= self.entries@.len(),
                self.wf(),
                keys.len() == i,
                out@.len() == i,
                keys.to_set() =~= self.keys().take(i as int).to_set(),
                keys.no_duplicates(),
                forall|j: int| 0 <= j < i ==> (#[trigger] out@[j])@ == self@[keys[j]],
                in_player_order(player_models(out@)),
            decreases self.entries@.len() - i,
        {
            let player = self.entries[i].1.clone();
            let ghost k = self.entries@[i as int].0@;
            let ghost list = player_models(out@);
            let mut p: usize = out.len();
            while p > 0 && is_player_before(&player, &out[p - 1])
                invariant
                    p <= out@.len(),
                    list == player_models(out@),
                    forall|j: int|
                        p <= j < list.len() ==> player_before(player@, #[trigger] list[j]),
                decreases p,
            {
                p = p - 1;
            }
            let ghost old_out = out@;
            out.insert(p, player);
            proof {
                let old_keys = keys;
                keys = old_keys.insert(p as int, k);
                self.lemma_at(i as int);
                lemma_insert_in_order(list, player@, p as int);
                assert(player_models(out@) =~= list.insert(p as int, player@));
                lemma_insert_key(old_keys, k, p as int);
                assert(self.keys().take(i + 1) =~= self.keys().take(i as int).push(k));
                lemma_push_set(self.keys().take(i as int), k);
                assert(!old_keys.contains(k)) by {
                    if old_keys.contains(k) {
                        assert(old_keys.to_set().contains(k));
                        assert(self.keys().take(i as int).to_set().contains(k));
                        let j = choose|j: int|
                            0 <= j < i && #[trigger] self.keys().take(i as int)[j] == k;
                        assert(self.entries@[j].0@ == k);
                    }
                }
                assert forall|j: int| 0 <= j < i + 1 implies (#[trigger] out@[j])@ == self@[keys[j]] by {
                    if j < p {
                        assert(out@[j] == old_out[j]);
                    } else if j > p {
                        assert(out@[j] == old_out[j - 1]);
                    }
                }
            }
            i = i + 1;
        }
        proof {
            assert(self.keys().take(i as int) =~= self.keys());
            self.lemma_dom();
            assert(player_models(out@) =~= keys.map_values(|k: Seq<char>| self@[k]));
        }
        out
    }
}

proof fn lemma_push_set<A>(s: Seq<A>, a: A)
    ensures
        s.push(a).to_set() =~= s.to_set().insert(a),
{
    assert forall|x: A| s.push(a).to_set().contains(x) == s.to_set().insert(a).contains(x) by {
        if s.push(a).contains(x) {
            let j = choose|j: int| 0 <= j < s.push(a).len() && s.push(a)[j] == x;
            if j < s.len() {
                assert(s[j] == x);
            }
        }
        if s.contains(x) {
            let j = choose|j: int| 0 <= j < s.len() && s[j] == x;
            assert(s.push(a)[j] == x);
        }
        assert(s.push(a)[s.len() as int] == a);
    }
}

proof fn lemma_insert_key<A>(s: Seq<A>, a: A, p: int)
    requires
        0 <= p <= s.len(),
    ensures
        s.insert(p, a).to_set() =~= s.to_set().insert(a),
        s.no_duplicates() && !s.contains(a) ==> s.insert(p, a).no_duplicates(),
{
    let t = s.insert(p, a);
    assert forall|x: A| t.to_set().contains(x) == s.to_set().insert(a).contains(x) by {
        if t.contains(x) {
            let j = choose|j: int| 0 <= j < t.len() && t[j] == x;
            if j < p {
                assert(s[j] == x);
            } else if j > p {
                assert(s[j - 1] == x);
            }
        }
        if s.contains(x) {
            let j = choose|j: int| 0 <= j < s.len() && s[j] == x;
            assert(t[if j < p { j } else { j + 1 }] == x);
        }
        assert(t[p] == a);
    }
}

proof fn lemma_insert_in_order(list: Seq<PlayerModel>, player: PlayerModel, p: int)
    requires
        in_player_order(list),
        0 <= p <= list.len(),
        forall|j: int| p <= j < list.len() ==> player_before(player, #[trigger] list[j]),
        p > 0 ==> !player_before(player, list[p - 1]),
    ensures
        in_player_order(list.insert(p, player)),
{
    let out = list.insert(p, player);
    assert forall|i: int, j: int| 0 <= i < j < out.len() implies !player_before(
        #[trigger] out[j],
        #[trigger] out[i],
    ) by {
        let old_i = if i < p { i } else { i - 1 };
        let old_j = if j < p { j } else { j - 1 };
        if i != p && j != p {
            assert(out[i] == list[old_i] && out[j] == list[old_j]);
        } else if i == p {
            assert(out[j] == list[old_j]);
            lemma_player_before_order(player, list[old_j], player);
        } else {
            assert(out[i] == list[i]);
            if i < p - 1 {
                lemma_not_before(list[i], list[p - 1], player);
            }
        }
    }
}

proof fn lemma_not_before(a: PlayerModel, b: PlayerModel, c: PlayerModel)
    requires
        !player_before(b, a),
        !player_before(c, b),
    ensures
        !player_before(c, a),
{
    lemma_player_before_order(b, a, c);
    lemma_player_before_order(c, a, b);
    lemma_player_before_order(c, b, a);
    lemma_player_before_order(a, b, c);
}

/// Where each player is known under their own user id, there is one way alone to list the players
/// in order.
pub proof fn lemma_player_order_is_unique(
    players: Map<Seq<char>, PlayerModel>,
    a: Seq<PlayerModel>,
    b: Seq<PlayerModel>,
)
    requires
        forall|id: Seq<char>| #[trigger]
            players.contains_key(id) ==> players[id].user_id == Some(id),
        lists_players(a, players),
        in_player_order(a),
        lists_players(b, players),
        in_player_order(b),
    ensures
        a == b,
{
    lemma_listed_strictly(players, a);
    lemma_listed_strictly(players, b);
    lemma_strict_lists_equal(a, b);
}

spec fn strictly_ordered(list: Seq<PlayerModel>) -> bool {
    forall|i: int, j: int|
        0 <= i < j < list.len() ==> player_before(#[trigger] list[i], #[trigger] list[j])
}

proof fn lemma_listed_strictly(players: Map<Seq<char>, PlayerModel>, list: Seq<PlayerModel>)
    requires
        forall|id: Seq<char>| #[trigger]
            players.contains_key(id) ==> players[id].user_id == Some(id),
        lists_players(list, players),
        in_player_order(list),
    ensures
        strictly_ordered(list),
        forall|p: PlayerModel| #[trigger]
            list.contains(p) <==> exists|id: Seq<char>|
                players.contains_key(id) && #[trigger] players[id] == p,
{
    let keys = choose|keys: Seq<Seq<char>>| #[trigger]
        keys.no_duplicates() && keys.to_set() == players.dom() && list == keys.map_values(
            |k: Seq<char>| players[k],
        );
    assert forall|i: int| 0 <= i < keys.len() implies players.contains_key(#[trigger] keys[i]) by {
        assert(keys.to_set().contains(keys[i]));
    }
    assert forall|i: int, j: int| 0 <= i < j < list.len() implies player_before(
        #[trigger] list[i],
        #[trigger] list[j],
    ) by {
        assert(list[i] == players[keys[i]] && list[j] == players[keys[j]]);
        assert(keys[i] != keys[j]);
        lemma_player_before_order(list[i], list[j], list[i]);
    }
    assert forall|p: PlayerModel| #[trigger] list.contains(p) == (exists|id: Seq<char>|
        players.contains_key(id) && #[trigger] players[id] == p) by {
        if list.contains(p) {
            let i = choose|i: int| 0 <= i < list.len() && list[i] == p;
            assert(players.contains_key(keys[i]) && players[keys[i]] == p);
        }
        if exists|id: Seq<char>| players.contains_key(id) && #[trigger] players[id] == p {
            let id = choose|id: Seq<char>| players.contains_key(id) && #[trigger] players[id] == p;
            assert(keys.to_set().contains(id));
            let i = choose|i: int| 0 <= i < keys.len() && keys[i] == id;
            assert(list[i] == p);
        }
    }
}

proof fn lemma_strict_lists_equal(a: Seq<PlayerModel>, b: Seq<PlayerModel>)
    requires
        strictly_ordered(a),
        strictly_ordered(b),
        forall|p: PlayerModel| #[trigger] a.contains(p) <==> b.contains(p),
    ensures
        a == b,
    decreases a.len(),
{
    if a.len() == 0 {
        if b.len() > 0 {
            assert(b.contains(b[0]));
            assert(a.contains(b[0]));
        }
        assert(a =~= b);
    } else {
        assert(a.contains(a[0]));
        let k = choose|k: int| 0 <= k < b.len() && b[k] == a[0];
        assert(b.contains(b[0]));
        assert(a.contains(b[0]));
        let l = choose|l: int| 0 <= l < a.len() && a[l] == b[0];
        lemma_player_before_order(a[0], b[0], a[0]);
        assert(a[0] == b[0]);
        let x = a.drop_first();
        let y = b.drop_first();
        assert forall|i: int, j: int| 0 <= i < j < x.len() implies player_before(
            #[trigger] x[i],
            #[trigger] x[j],
        ) by {
            assert(x[i] == a[i + 1] && x[j] == a[j + 1]);
        }
        assert forall|i: int, j: int| 0 <= i < j < y.len() implies player_before(
            #[trigger] y[i],
            #[trigger] y[j],
        ) by {
            assert(y[i] == b[i + 1] && y[j] == b[j + 1]);
        }
        lemma_tail_members(a);
        lemma_tail_members(b);
        assert forall|p: PlayerModel| #[trigger] x.contains(p) == y.contains(p) by {
            assert(a.contains(p) == b.contains(p));
        }
        lemma_strict_lists_equal(x, y);
        assert(a =~= seq![a[0]] + x);
        assert(b =~= seq![b[0]] + y);
    }
}

proof fn lemma_tail_members(a: Seq<PlayerModel>)
    requires
        strictly_ordered(a),
        a.len() > 0,
    ensures
        forall|p: PlayerModel| #[trigger]
            a.drop_first().contains(p) <==> a.contains(p) && p != a[0],
{
    let x = a.drop_first();
    assert forall|p: PlayerModel| #[trigger] x.contains(p) == (a.contains(p) && p != a[0]) by {
        if x.contains(p) {
            let i = choose|i: int| 0 <= i < x.len() && x[i] == p;
            assert(a[i + 1] == p);
            lemma_player_before_order(a[0], a[0], a[0]);
        }
        if a.contains(p) && p != a[0] {
            let i = choose|i: int| 0 <= i < a.len() && a[i] == p;
            assert(x[i - 1] == p);
        }
    }
}

} // verus!
