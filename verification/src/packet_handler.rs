//! What the overlay knows of the game, and how messages change it.

use vstd::prelude::*;
use vstd::string::*;
use vstd::utf8::*;

use crate::messages::{
    bool_field, collect_messages, coordinate_field, get_bool, get_f32, get_i32, get_id_string,
    id_string, int_field, messages, outer_document, record_models, try_parse_outer_document,
};
use crate::minimap::{
    compressed_fits, compressed_minimap, decode_minimap_from_gwc, is_compressed_in_bounds,
    minimap_result, MinimapData, MinimapModel,
};
use crate::players::{
    in_player_order, lists_players, player_models, unknown_player, PlayerInfo, PlayerModel,
    PlayerTable,
};
use crate::record::{field, field_str, Record, RecordModel, Value, ValueModel};
use crate::text::{joined, opt_text, same_text};
use crate::text_laws::{
    id_no_later, is_less, lemma_each_player_is_listed, lemma_listed_players_rise,
};

verus! {

/// What the overlay knows: where the player is, who they are, who else is there, and the map.
#[derive(Debug, PartialEq)]
pub struct AppState {
    pub current_world: Option<String>,
    pub self_user_id: Option<String>,
    pub self_user_name: Option<String>,
    pub players: PlayerTable,
    pub minimap: Option<MinimapData>,
}

/// What an `AppState` stands for.
#[verifier::ext_equal]
pub struct AppModel {
    pub current_world: Option<Seq<char>>,
    pub self_user_id: Option<Seq<char>>,
    pub self_user_name: Option<Seq<char>>,
    pub players: Map<Seq<char>, PlayerModel>,
    pub minimap: Option<MinimapModel>,
}

/// What an optional minimap stands for.
pub open spec fn opt_minimap(m: Option<MinimapData>) -> Option<MinimapModel> {
    match m {
        Some(m) => Some(m@),
        None => None,
    }
}

impl View for AppState {
    type V = AppModel;

    open spec fn view(&self) -> AppModel {
        AppModel {
            current_world: opt_text(self.current_world),
            self_user_id: opt_text(self.self_user_id),
            self_user_name: opt_text(self.self_user_name),
            players: self.players@,
            minimap: opt_minimap(self.minimap),
        }
    }
}

/// Nothing is known yet.
pub open spec fn initial_state() -> AppModel {
    AppModel {
        current_world: None,
        self_user_id: None,
        self_user_name: None,
        players: Map::empty(),
        minimap: None,
    }
}

impl Default for AppState {
    fn default() -> (r: Self)
        ensures
            r.wf(),
            r@ == initial_state(),
    {
        AppState {
            current_world: None,
            self_user_id: None,
            self_user_name: None,
            players: PlayerTable::new(),
            minimap: None,
        }
    }
}

impl AppState {
    /// The table of players is well formed.
    pub open spec fn wf(&self) -> bool {
        self.players.wf()
    }

    /// The players by name, and by user id where the names are the same.
    pub fn sorted_players(&self) -> (r: Vec<PlayerInfo>)
        requires
            self.wf(),
        ensures
            lists_players(player_models(r@), self@.players),
            in_player_order(player_models(r@)),
            r@.len() == self@.players.dom().len(),
            forall|i: int, j: int|
                0 <= i < j < r@.len() ==> !is_less(
                    encode_utf8((#[trigger] r@[j]).name@),
                    encode_utf8((#[trigger] r@[i]).name@),
                ) && (r@[i].name@ == r@[j].name@ ==> id_no_later(
                    opt_text(r@[i].user_id),
                    opt_text(r@[j].user_id),
                )),
    {
        let r = self.players.sorted();
        proof {
            let list = player_models(r@);
            lemma_each_player_is_listed(list, self@.players);
            assert forall|i: int, j: int| 0 <= i < j < r@.len() implies !is_less(
                encode_utf8((#[trigger] r@[j]).name@),
                encode_utf8((#[trigger] r@[i]).name@),
            ) && (r@[i].name@ == r@[j].name@ ==> id_no_later(
                opt_text(r@[i].user_id),
                opt_text(r@[j].user_id),
            )) by {
                assert(list[i] == r@[i]@ && list[j] == r@[j]@);
                lemma_listed_players_rise(list, i, j);
            }
        }
        r
    }
}

// ---------------------------------------------------------------------------------------------
// Marker colours
// ---------------------------------------------------------------------------------------------

/// The value of a hexadecimal digit in either case.
pub open spec fn hex_value(b: u8) -> Option<int> {
    if 48 <= b <= 57 {
        Some(b - 48)
    } else if 65 <= b <= 70 {
        Some(b - 55)
    } else if 97 <= b <= 102 {
        Some(b - 87)
    } else {
        None
    }
}

/// What two characters read as a hexadecimal number: two digits, or a plus sign and a digit. What
/// is no number counts as 255.
pub open spec fn hex_channel(hi: u8, lo: u8) -> int {
    match (hex_value(hi), hex_value(lo)) {
        (Some(h), Some(l)) => 16 * h + l,
        (None, Some(l)) => if hi == 43 {
            l
        } else {
            255
        },
        _ => 255,
    }
}

/// A channel of a marker is never darker than two fifths of full brightness.
pub open spec fn marker_channel(n: int) -> u8 {
    if n < 102 {
        102
    } else {
        n as u8
    }
}

/// Whether the last three pairs of bytes of an id can be cut off it: there are as many, and no
/// cut goes through a character.
pub open spec fn has_color_suffix(id: Seq<char>) -> bool {
    let bytes = encode_utf8(id);
    let n = bytes.len() as int;
    &&& n >= 6
    &&& is_char_boundary(bytes, n - 2)
    &&& is_char_boundary(bytes, n - 4)
    &&& is_char_boundary(bytes, n - 6)
}

/// The marker colour for an id: red from its last two bytes, green from the two before, blue from
/// the two before those.
pub open spec fn id_color(id: Seq<char>) -> Seq<u8> {
    let bytes = encode_utf8(id);
    let n = bytes.len() as int;
    seq![
        marker_channel(hex_channel(bytes[n - 2], bytes[n - 1])),
        marker_channel(hex_channel(bytes[n - 4], bytes[n - 3])),
        marker_channel(hex_channel(bytes[n - 6], bytes[n - 5])),
        255u8,
    ]
}

fn hex_value_of(b: u8) -> (r: Option<u8>)
    ensures
        match r {
            Some(v) => hex_value(b) == Some(v as int) && v < 16,
            None => hex_value(b) is None,
        },
{
    if 48 <= b && b <= 57 {
        Some(b - 48)
    } else if 65 <= b && b <= 70 {
        Some(b - 55)
    } else if 97 <= b && b <= 102 {
        Some(b - 87)
    } else {
        None
    }
}

fn marker_channel_of(hi: u8, lo: u8) -> (r: u8)
    ensures
        r == marker_channel(hex_channel(hi, lo)),
{
    let n: u8 = match (hex_value_of(hi), hex_value_of(lo)) {
        (Some(h), Some(l)) => 16 * h + l,
        (None, Some(l)) => if hi == 43 {
            l
        } else {
            255
        },
        _ => 255,
    };
    if n < 102 {
        102
    } else {
        n
    }
}

/// The marker colour for an id.
pub fn generate_color_from_id(id: &str) -> (r: [u8; 4])
    requires
        has_color_suffix(id@),
    ensures
        r@ == id_color(id@),
{
    let bytes = id.as_bytes();
    let n: usize = bytes.len();
    let color = [
        marker_channel_of(bytes[n - 2], bytes[n - 1]),
        marker_channel_of(bytes[n - 4], bytes[n - 3]),
        marker_channel_of(bytes[n - 6], bytes[n - 5]),
        255,
    ];
    assert(color@ =~= id_color(id@));
    color
}

/// Whether a marker colour can be made for an id.
pub fn is_color_id(id: &str) -> (r: bool)
    ensures
        r == has_color_suffix(id@),
{
    let bytes = id.as_bytes();
    let n: usize = bytes.len();
    n >= 6 && id.is_char_boundary(n - 2) && id.is_char_boundary(n - 4) && id.is_char_boundary(n - 6)
}

// ---------------------------------------------------------------------------------------------
// Messages about players
// ---------------------------------------------------------------------------------------------

/// What is known of the player with the id `id`.
pub open spec fn known_player(players: Map<Seq<char>, PlayerModel>, id: Seq<char>) -> PlayerModel {
    if players.contains_key(id) {
        players[id]
    } else {
        unknown_player()
    }
}

/// The first value, or the second where there is none.
pub open spec fn or_else<A>(a: Option<A>, b: Option<A>) -> Option<A> {
    match a {
        Some(_) => a,
        None => b,
    }
}

/// The name of a player after a message: the one that it gives, or the player's own name where
/// the message is about the player of this game, or else the name that was known, or else the id.
pub open spec fn updated_name(
    s: AppModel,
    msg: RecordModel,
    id: Seq<char>,
    known: Seq<char>,
) -> Seq<char> {
    match field_str(msg, "UN"@) {
        Some(name) => name,
        None => if s.self_user_id == Some(id) {
            match s.self_user_name {
                Some(name) => name,
                None => known,
            }
        } else if known.len() == 0 {
            id
        } else {
            known
        },
    }
}

/// What is known of a player after a message: what it says, and what was known where it says
/// nothing.
pub open spec fn updated_player(
    s: AppModel,
    msg: RecordModel,
    id: Seq<char>,
    known: PlayerModel,
) -> PlayerModel {
    PlayerModel {
        user_id: Some(id),
        marker_color: match field_str(msg, "U"@) {
            Some(text) => id_color(text),
            None => known.marker_color,
        },
        name: updated_name(s, msg, id, known.name),
        x: or_else(coordinate_field(msg, "x"@), known.x),
        y: or_else(coordinate_field(msg, "y"@), known.y),
        dir: or_else(int_field(msg, "d"@), known.dir),
        anim: or_else(int_field(msg, "a"@), known.anim),
        xp_level: or_else(int_field(msg, "xpLvL"@), known.xp_level),
        gem_amount: or_else(int_field(msg, "GAmt"@), known.gem_amount),
        in_portal: match bool_field(msg, "inPortal"@) {
            Some(b) => b,
            None => known.in_portal,
        },
        status_icon: or_else(int_field(msg, "SIc"@), known.status_icon),
    }
}

/// The state after a message about the player with the id `id`.
pub open spec fn player_upserted(s: AppModel, msg: RecordModel, id: Seq<char>) -> AppModel {
    AppModel {
        players: s.players.insert(
            id,
            updated_player(s, msg, id, known_player(s.players, id)),
        ),
        ..s
    }
}

/// The state with the player of this game among the players, where their id is known, under their
/// own name or else their id.
pub open spec fn with_self(s: AppModel) -> AppModel {
    match s.self_user_id {
        Some(id) => AppModel {
            players: s.players.insert(
                id,
                PlayerModel {
                    user_id: Some(id),
                    name: match s.self_user_name {
                        Some(name) => name,
                        None => id,
                    },
                    ..known_player(s.players, id)
                },
            ),
            ..s
        },
        None => s,
    }
}

fn player_or_default(players: &PlayerTable, id: &str) -> (r: PlayerInfo)
    requires
        players.wf(),
    ensures
        r@ == known_player(players@, id@),
{
    match players.get(id) {
        Some(p) => p.clone(),
        None => PlayerInfo::default(),
    }
}

fn add_self(state: &mut AppState)
    requires
        old(state).wf(),
    ensures
        final(state).wf(),
        final(state)@ == with_self(old(state)@),
{
    let id = match &state.self_user_id {
        Some(id) => id.clone(),
        None => {
            return;
        },
    };
    let name = match &state.self_user_name {
        Some(name) => name.clone(),
        None => id.clone(),
    };
    let mut player = player_or_default(&state.players, id.as_str());
    player.user_id = Some(id.clone());
    player.name = name;
    state.players.insert(id, player);
}

/// Takes over what a message says of the player with the id `user_id`.
pub fn upsert_player(state: &mut AppState, msg: &Record, user_id: String)
    requires
        old(state).wf(),
        field_str(msg@, "U"@) matches Some(text) ==> has_color_suffix(text),
    ensures
        final(state).wf(),
        final(state)@ == player_upserted(old(state)@, msg@, user_id@),
{
    let mut player = player_or_default(&state.players, user_id.as_str());
    let ghost known = player@;
    player.user_id = Some(user_id.clone());
    if let Some(text) = msg.get_str("U") {
        player.marker_color = generate_color_from_id(text.as_str());
    }
    if let Some(name) = msg.get_str("UN") {
        player.name = name.clone();
    } else {
        let is_self = match &state.self_user_id {
            Some(id) => same_text(id.as_str(), user_id.as_str()),
            None => false,
        };
        if is_self {
            if let Some(name) = &state.self_user_name {
                player.name = name.clone();
            }
        } else if player.name.as_str().is_empty() {
            player.name = user_id.clone();
        }
    }
    if let Some(x) = get_f32(msg, "x") {
        player.x = Some(x);
    }
    if let Some(y) = get_f32(msg, "y") {
        player.y = Some(y);
    }
    if let Some(dir) = get_i32(msg, "d") {
        player.dir = Some(dir);
    }
    if let Some(anim) = get_i32(msg, "a") {
        player.anim = Some(anim);
    }
    if let Some(xp_level) = get_i32(msg, "xpLvL") {
        player.xp_level = Some(xp_level);
    }
    if let Some(gem_amount) = get_i32(msg, "GAmt") {
        player.gem_amount = Some(gem_amount);
    }
    if let Some(in_portal) = get_bool(msg, "inPortal") {
        player.in_portal = in_portal;
    }
    if let Some(status_icon) = get_i32(msg, "SIc") {
        player.status_icon = Some(status_icon);
    }
    assert(player@ =~= updated_player(state@, msg@, user_id@, known));
    state.players.insert(user_id, player);
}

// ---------------------------------------------------------------------------------------------
// Messages
// ---------------------------------------------------------------------------------------------

/// What kind of message `msg` is; the empty text where it does not say.
pub open spec fn message_id(msg: RecordModel) -> Seq<char> {
    match field_str(msg, "ID"@) {
        Some(id) => id,
        None => Seq::empty(),
    }
}

/// The kinds of messages that say something of a player.
pub open spec fn is_player_update(id: Seq<char>) -> bool {
    id == "AnP"@ || id == "U"@ || id == "mP"@ || id == "PSicU"@ || id == "PPA"@
}

/// The compressed world that a message brings.
pub open spec fn world_payload(msg: RecordModel, is_receive: bool) -> Option<Seq<u8>> {
    if is_receive && message_id(msg) == "GWC"@ {
        match field(msg, "W"@) {
            Some(ValueModel::Binary(bytes)) => Some(bytes),
            _ => None,
        }
    } else {
        None
    }
}

/// The state after the player's profile has been received.
pub open spec fn profile_received(s: AppModel, msg: RecordModel) -> AppModel {
    with_self(
        AppModel {
            self_user_id: id_string(msg, "U"@),
            self_user_name: field_str(msg, "UN"@),
            ..s
        },
    )
}

/// Whether the answer to a request to join a world refuses it.
pub open spec fn join_refused(msg: RecordModel) -> bool {
    ||| (int_field(msg, "JR"@) matches Some(n) && n != 0)
    ||| field(msg, "E"@) is Some
    ||| field(msg, "ER"@) is Some
}

/// The world that was joined.
pub open spec fn joined_world(msg: RecordModel) -> Option<Seq<char>> {
    or_else(field_str(msg, "W"@), field_str(msg, "WN"@))
}

/// The state after an answer to a request to join a world.
pub open spec fn join_answered(s: AppModel, msg: RecordModel) -> AppModel {
    if join_refused(msg) {
        s
    } else {
        match joined_world(msg) {
            Some(world) => with_self(
                AppModel {
                    current_world: Some(world),
                    players: Map::empty(),
                    minimap: None,
                    ..s
                },
            ),
            None => s,
        }
    }
}

/// The state after a message, where `decoded` is the minimap of the world that it brings.
pub open spec fn message_applied(
    s: AppModel,
    msg: RecordModel,
    is_receive: bool,
    decoded: Option<Result<MinimapModel, Seq<char>>>,
) -> AppModel {
    let id = message_id(msg);
    if !is_receive {
        s
    } else if id == "GPd"@ {
        profile_received(s, msg)
    } else if id == "TTjW"@ {
        join_answered(s, msg)
    } else if id == "LW"@ {
        AppModel { current_world: None, players: Map::empty(), minimap: None, ..s }
    } else if id == "GWC"@ {
        match decoded {
            Some(Ok(m)) => AppModel { minimap: Some(m), ..s },
            _ => s,
        }
    } else if is_player_update(id) {
        match id_string(msg, "U"@) {
            Some(user_id) => player_upserted(s, msg, user_id),
            None => s,
        }
    } else if id == "PL"@ {
        match id_string(msg, "U"@) {
            Some(user_id) => AppModel { players: s.players.remove(user_id), ..s },
            None => s,
        }
    } else {
        s
    }
}

/// The warning that a message gives rise to.
pub open spec fn message_warning(
    msg: RecordModel,
    is_receive: bool,
    decoded: Option<Result<MinimapModel, Seq<char>>>,
) -> Option<Seq<char>> {
    if is_receive && message_id(msg) == "GWC"@ {
        match decoded {
            Some(Err(e)) => Some("failed to decode GWC minimap: "@ + e),
            _ => None,
        }
    } else {
        None
    }
}

/// Whether a marker colour can be made of the id in a message, where one is to be made.
pub open spec fn color_in_bounds(msg: RecordModel, is_receive: bool) -> bool {
    is_receive && is_player_update(message_id(msg)) ==> (field_str(msg, "U"@) matches Some(text)
        ==> has_color_suffix(text))
}

/// A decoded minimap, taken by its view.
pub open spec fn opt_minimap_result(r: Option<Result<MinimapData, String>>) -> Option<
    Result<MinimapModel, Seq<char>>,
> {
    match r {
        Some(r) => Some(minimap_result(r)),
        None => None,
    }
}

/// The kinds of messages are told apart by their names.
pub proof fn lemma_message_ids_differ()
    ensures
        "GPd"@ != "TTjW"@,
        "GPd"@ != "LW"@,
        "GPd"@ != "GWC"@,
        "GPd"@ != "PL"@,
        "TTjW"@ != "LW"@,
        "TTjW"@ != "GWC"@,
        "TTjW"@ != "PL"@,
        "LW"@ != "GWC"@,
        "LW"@ != "PL"@,
        "GWC"@ != "PL"@,
        !is_player_update("GPd"@),
        !is_player_update("TTjW"@),
        !is_player_update("LW"@),
        !is_player_update("GWC"@),
        !is_player_update("PL"@),
{
    reveal_strlit("GPd");
    reveal_strlit("TTjW");
    reveal_strlit("LW");
    reveal_strlit("GWC");
    reveal_strlit("PL");
    reveal_strlit("AnP");
    reveal_strlit("U");
    reveal_strlit("mP");
    reveal_strlit("PSicU");
    reveal_strlit("PPA");
    assert("GPd"@.len() == 3 && "TTjW"@.len() == 4 && "LW"@.len() == 2 && "GWC"@.len() == 3);
    assert("PL"@.len() == 2 && "AnP"@.len() == 3 && "U"@.len() == 1 && "mP"@.len() == 2);
    assert("PSicU"@.len() == 5 && "PPA"@.len() == 3);
    assert("GPd"@[1] == 'P' && "GWC"@[1] == 'W' && "AnP"@[1] == 'n' && "PPA"@[1] == 'P');
    assert("GPd"@[0] == 'G' && "GWC"@[0] == 'G' && "PPA"@[0] == 'P');
    assert("LW"@[0] == 'L' && "PL"@[0] == 'P' && "mP"@[0] == 'm');
}

fn is_player_update_id(id: &str) -> (r: bool)
    ensures
        r == is_player_update(id@),
{
    same_text(id, "AnP") || same_text(id, "U") || same_text(id, "mP") || same_text(id, "PSicU")
        || same_text(id, "PPA")
}

fn message_id_of(msg: &Record) -> (r: String)
    ensures
        r@ == message_id(msg@),
{
    match msg.get_str("ID") {
        Some(id) => id.clone(),
        None => String::new(),
    }
}

fn receive_join_answer(state: &mut AppState, msg: &Record)
    requires
        old(state).wf(),
    ensures
        final(state).wf(),
        final(state)@ == join_answered(old(state)@, msg@),
{
    let refused = match get_i32(msg, "JR") {
        Some(n) => n != 0,
        None => false,
    };
    if refused || msg.contains_key("E") || msg.contains_key("ER") {
        return;
    }
    let world = match msg.get_str("W") {
        Some(world) => world.clone(),
        None => match msg.get_str("WN") {
            Some(world) => world.clone(),
            None => {
                return;
            },
        },
    };
    state.current_world = Some(world);
    state.players.clear();
    state.minimap = None;
    add_self(state);
}

/// Changes the state as a message says, where `decoded` is the minimap of the world that it
/// brings. The result is a warning.
pub fn apply_message(
    state: &mut AppState,
    msg: &Record,
    is_receive: bool,
    decoded: Option<Result<MinimapData, String>>,
) -> (r: Option<String>)
    requires
        old(state).wf(),
        color_in_bounds(msg@, is_receive),
    ensures
        final(state).wf(),
        final(state)@ == message_applied(
            old(state)@,
            msg@,
            is_receive,
            opt_minimap_result(decoded),
        ),
        opt_text(r) == message_warning(msg@, is_receive, opt_minimap_result(decoded)),
{
    if !is_receive {
        return None;
    }
    let msg_id = message_id_of(msg);
    let id = msg_id.as_str();
    let mut warning: Option<String> = None;
    if same_text(id, "GPd") {
        state.self_user_id = get_id_string(msg, "U");
        state.self_user_name = match msg.get_str("UN") {
            Some(name) => Some(name.clone()),
            None => None,
        };
        add_self(state);
    } else if same_text(id, "TTjW") {
        receive_join_answer(state, msg);
    } else if same_text(id, "LW") {
        state.current_world = None;
        state.players.clear();
        state.minimap = None;
    } else if same_text(id, "GWC") {
        match decoded {
            Some(Ok(minimap)) => {
                state.minimap = Some(minimap);
            },
            Some(Err(e)) => {
                warning = Some(joined("failed to decode GWC minimap: ", e.as_str()));
            },
            None => {},
        }
    } else if is_player_update_id(id) {
        if let Some(user_id) = get_id_string(msg, "U") {
            upsert_player(state, msg, user_id);
        }
    } else if same_text(id, "PL") {
        if let Some(user_id) = get_id_string(msg, "U") {
            state.players.remove(user_id.as_str());
        }
    }
    proof {
        lemma_message_ids_differ();
    }
    warning
}

// ---------------------------------------------------------------------------------------------
// Messages that bring a world
// ---------------------------------------------------------------------------------------------

/// The minimap of the world that a message brings.
pub open spec fn message_minimap(msg: RecordModel, is_receive: bool) -> Option<
    Result<MinimapModel, Seq<char>>,
> {
    match world_payload(msg, is_receive) {
        Some(bytes) => Some(compressed_minimap(bytes)),
        None => None,
    }
}

/// Whether a message can be handled: a marker colour can be made where one is to be made, and the
/// tiles of a world can be held in memory.
pub open spec fn message_in_bounds(msg: RecordModel, is_receive: bool) -> bool {
    &&& color_in_bounds(msg, is_receive)
    &&& world_payload(msg, is_receive) matches Some(bytes) ==> compressed_fits(bytes)
}

fn payload_of<'a>(msg: &'a Record, is_receive: bool) -> (r: Option<&'a Vec<u8>>)
    ensures
        match r {
            Some(bytes) => world_payload(msg@, is_receive) == Some(bytes@),
            None => world_payload(msg@, is_receive) is None,
        },
{
    if !is_receive {
        return None;
    }
    let msg_id = message_id_of(msg);
    if !same_text(msg_id.as_str(), "GWC") {
        return None;
    }
    match msg.get("W") {
        Some(Value::Binary(bytes)) => Some(bytes),
        _ => None,
    }
}

/// Whether a message can be handled.
pub fn is_message_in_bounds(msg: &Record, is_receive: bool) -> (r: bool)
    ensures
        r == message_in_bounds(msg@, is_receive),
{
    if !is_receive {
        return true;
    }
    let msg_id = message_id_of(msg);
    if is_player_update_id(msg_id.as_str()) {
        if let Some(text) = msg.get_str("U") {
            if !is_color_id(text.as_str()) {
                return false;
            }
        }
    }
    match payload_of(msg, is_receive) {
        Some(bytes) => is_compressed_in_bounds(bytes.as_slice()),
        None => true,
    }
}

/// Handles a message. The result is a warning.
pub fn process_message(state: &mut AppState, msg: &Record, is_receive: bool) -> (r: Option<String>)
    requires
        old(state).wf(),
        message_in_bounds(msg@, is_receive),
    ensures
        final(state).wf(),
        final(state)@ == message_applied(
            old(state)@,
            msg@,
            is_receive,
            message_minimap(msg@, is_receive),
        ),
        opt_text(r) == message_warning(msg@, is_receive, message_minimap(msg@, is_receive)),
{
    let decoded = match payload_of(msg, is_receive) {
        Some(bytes) => Some(decode_minimap_from_gwc(bytes.as_slice())),
        None => None,
    };
    apply_message(state, msg, is_receive, decoded)
}

// ---------------------------------------------------------------------------------------------
// Packets
// ---------------------------------------------------------------------------------------------

/// The state after messages, one after the other.
pub open spec fn messages_applied(s: AppModel, msgs: Seq<RecordModel>, is_receive: bool) -> AppModel
    decreases msgs.len(),
{
    if msgs.len() == 0 {
        s
    } else {
        message_applied(
            messages_applied(s, msgs.drop_last(), is_receive),
            msgs.last(),
            is_receive,
            message_minimap(msgs.last(), is_receive),
        )
    }
}

/// The warnings that messages give rise to, in order.
pub open spec fn messages_warnings(msgs: Seq<RecordModel>, is_receive: bool) -> Seq<Seq<char>>
    decreases msgs.len(),
{
    if msgs.len() == 0 {
        Seq::empty()
    } else {
        let before = messages_warnings(msgs.drop_last(), is_receive);
        match message_warning(
            msgs.last(),
            is_receive,
            message_minimap(msgs.last(), is_receive),
        ) {
            Some(w) => before.push(w),
            None => before,
        }
    }
}

/// Whether messages can be handled.
pub open spec fn messages_in_bounds(msgs: Seq<RecordModel>, is_receive: bool) -> bool {
    forall|i: int| 0 <= i < msgs.len() ==> message_in_bounds(#[trigger] msgs[i], is_receive)
}

/// Whether the messages of a packet can be handled.
pub open spec fn packet_in_bounds(bytes: Seq<u8>, is_receive: bool) -> bool {
    match outer_document(bytes) {
        Some(doc) => messages_in_bounds(messages(doc), is_receive),
        None => true,
    }
}

/// What there is to report of a packet.
#[derive(Debug, PartialEq)]
pub struct PacketReport {
    /// The packet was received and holds a document, but no message.
    pub without_envelope: bool,
    /// What could not be decoded, in order.
    pub warnings: Vec<String>,
}

/// Texts, each taken by its view.
pub open spec fn text_models(texts: Seq<String>) -> Seq<Seq<char>> {
    texts.map_values(|t: String| t@)
}

/// Handles the messages of a document, one after the other.
pub fn process_document(state: &mut AppState, doc: &Record, is_receive: bool) -> (r: PacketReport)
    requires
        old(state).wf(),
        messages_in_bounds(messages(doc@), is_receive),
    ensures
        final(state).wf(),
        final(state)@ == messages_applied(old(state)@, messages(doc@), is_receive),
        r.without_envelope == (is_receive && messages(doc@).len() == 0),
        text_models(r.warnings@) == messages_warnings(messages(doc@), is_receive),
{
    let msgs = collect_messages(doc);
    let ghost models = messages(doc@);
    let ghost start = state@;
    let mut warnings: Vec<String> = Vec::new();
    assert(text_models(warnings@) =~= Seq::empty());
    assert(models.len() == msgs@.len());
    let mut i: usize = 0;
    while i < msgs.len()
        invariant
            i <= msgs@.len(),
            state.wf(),
            models == record_models(msgs@),
            messages_in_bounds(models, is_receive),
            state@ == messages_applied(start, models.take(i as int), is_receive),
            text_models(warnings@) == messages_warnings(models.take(i as int), is_receive),
        decreases msgs@.len() - i,
    {
        proof {
            assert(models[i as int] == msgs@[i as int]@);
            assert(models.take(i + 1).drop_last() =~= models.take(i as int));
            assert(models.take(i + 1).last() == models[i as int]);
        }
        let warning = process_message(state, msgs[i], is_receive);
        if let Some(w) = warning {
            let ghost before = warnings@;
            warnings.push(w);
            assert(text_models(warnings@) =~= text_models(before).push(w@));
        }
        i = i + 1;
    }
    assert(models.take(i as int) =~= models);
    PacketReport { without_envelope: is_receive && msgs.len() == 0, warnings }
}

/// Handles a packet: the messages of the document that it holds, one after the other. A packet
/// that holds no document is ignored.
pub fn process_packet(state: &mut AppState, bytes: &[u8], is_receive: bool) -> (r: PacketReport)
    requires
        old(state).wf(),
        packet_in_bounds(bytes@, is_receive),
    ensures
        final(state).wf(),
        match outer_document(bytes@) {
            Some(doc) => {
                &&& final(state)@ == messages_applied(old(state)@, messages(doc), is_receive)
                &&& r.without_envelope == (is_receive && messages(doc).len() == 0)
                &&& text_models(r.warnings@) == messages_warnings(messages(doc), is_receive)
            },
            None => {
                &&& final(state)@ == old(state)@
                &&& !r.without_envelope
                &&& r.warnings@.len() == 0
            },
        },
{
    match try_parse_outer_document(bytes) {
        Some(doc) => process_document(state, &doc, is_receive),
        None => PacketReport { without_envelope: false, warnings: Vec::new() },
    }
}

/// Whether the messages of a packet can be handled.
pub fn is_packet_in_bounds(bytes: &[u8], is_receive: bool) -> (r: bool)
    ensures
        r == packet_in_bounds(bytes@, is_receive),
{
    let doc = match try_parse_outer_document(bytes) {
        Some(doc) => doc,
        None => {
            return true;
        },
    };
    let msgs = collect_messages(&doc);
    let ghost models = messages(doc@);
    assert(models.len() == msgs@.len());
    let mut i: usize = 0;
    while i < msgs.len()
        invariant
            i <= msgs@.len(),
            models == record_models(msgs@),
            outer_document(bytes@) == Some(doc@),
            models == messages(doc@),
            forall|j: int| 0 <= j < i ==> message_in_bounds(#[trigger] models[j], is_receive),
        decreases msgs@.len() - i,
    {
        assert(models[i as int] == msgs@[i as int]@);
        if !is_message_in_bounds(msgs[i], is_receive) {
            return false;
        }
        i = i + 1;
    }
    true
}

/// Handles a packet whose messages can be handled; leaves the state as it was where they cannot.
pub fn try_process_packet(state: &mut AppState, bytes: &[u8], is_receive: bool) -> (r: Option<
    PacketReport,
>)
    requires
        old(state).wf(),
    ensures
        final(state).wf(),
        r is Some == packet_in_bounds(bytes@, is_receive),
        match r {
            None => final(state)@ == old(state)@,
            Some(report) => match outer_document(bytes@) {
                Some(doc) => {
                    &&& final(state)@ == messages_applied(old(state)@, messages(doc), is_receive)
                    &&& report.without_envelope == (is_receive && messages(doc).len() == 0)
                    &&& text_models(report.warnings@) == messages_warnings(
                        messages(doc),
                        is_receive,
                    )
                },
                None => {
                    &&& final(state)@ == old(state)@
                    &&& !report.without_envelope
                    &&& report.warnings@.len() == 0
                },
            },
        },
{
    if is_packet_in_bounds(bytes, is_receive) {
        Some(process_packet(state, bytes, is_receive))
    } else {
        None
    }
}

} // verus!
