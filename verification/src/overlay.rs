//! The texts and colours that the overlay shows.

use vstd::prelude::*;
use vstd::string::*;

use crate::numbers::{decimal_nat, push_decimal};
use crate::packet_handler::AppState;
use crate::players::{PlayerInfo, PlayerModel};
use crate::text::{joined, opt_text, same_opt_text};

verus! {

/// The first value, or the second where there is none.
pub open spec fn text_or(text: Option<Seq<char>>, other: Seq<char>) -> Seq<char> {
    match text {
        Some(t) => t,
        None => other,
    }
}

fn labelled(label: &str, text: &Option<String>, other: &str) -> (r: String)
    ensures
        r@ == label@ + text_or(opt_text(*text), other@),
{
    match text {
        Some(t) => joined(label, t.as_str()),
        None => joined(label, other),
    }
}

/// The lines of the first tab, from top to bottom.
#[derive(Debug, PartialEq)]
pub struct BasicTab {
    pub packet_hooks: String,
    pub world: String,
    pub player: String,
    pub world_chat: String,
}

/// Whether the hooks are there, as text.
pub open spec fn packet_hooks_text(ready: bool) -> Seq<char> {
    if ready {
        "Packet hooks: ready"@
    } else {
        "Packet hooks: unavailable"@
    }
}

/// Whether world chat is there, as text.
pub open spec fn world_chat_text(ready: bool) -> Seq<char> {
    if ready {
        "World chat: ready"@
    } else {
        "World chat: unavailable"@
    }
}

/// The lines of the first tab: whether the hooks are there, the current world, and the player.
pub fn basic_tab(state: &AppState, packet_hooks_ready: bool, chat_hook_ready: bool) -> (r: BasicTab)
    ensures
        r.packet_hooks@ == packet_hooks_text(packet_hooks_ready),
        r.world@ == "World: "@ + text_or(state@.current_world, "(none)"@),
        r.player@ == "Self: "@ + text_or(state@.self_user_name, "(unknown)"@),
        r.world_chat@ == world_chat_text(chat_hook_ready),
{
    BasicTab {
        packet_hooks: if packet_hooks_ready {
            "Packet hooks: ready".to_owned()
        } else {
            "Packet hooks: unavailable".to_owned()
        },
        world: labelled("World: ", &state.current_world, "(none)"),
        player: labelled("Self: ", &state.self_user_name, "(unknown)"),
        world_chat: if chat_hook_ready {
            "World chat: ready".to_owned()
        } else {
            "World chat: unavailable".to_owned()
        },
    }
}

/// What the second tab shows in place of the map and the players, while no world is known.
pub fn world_tab_notice(state: &AppState) -> (r: Option<&'static str>)
    ensures
        match r {
            Some(text) => state@.current_world is None && text@
                == "Minimap and player list appear after world packets arrive."@,
            None => state@.current_world is Some,
        },
{
    if state.current_world.is_some() {
        None
    } else {
        Some("Minimap and player list appear after world packets arrive.")
    }
}

/// The heading of the list of players: how many there are.
pub fn players_heading(state: &AppState) -> (r: String)
    requires
        state.wf(),
    ensures
        r@ == "Players ("@ + decimal_nat(state@.players.dom().len()) + ")"@,
{
    let mut text = String::new();
    text.append("Players (");
    push_decimal(&mut text, state.players.len() as u64);
    text.append(")");
    assert(text@ =~= "Players ("@ + decimal_nat(state@.players.dom().len()) + ")"@);
    text
}

/// How a player is listed: by name, with a mark on the player of this game, and with the text
/// `position` behind it.
pub open spec fn listed_player(
    player: PlayerModel,
    self_user_id: Option<Seq<char>>,
    position: Seq<char>,
) -> Seq<char> {
    if player.user_id == self_user_id {
        player.name + " (you)"@ + position
    } else {
        player.name + position
    }
}

/// How a player is listed.
pub fn player_label(player: &PlayerInfo, self_user_id: &Option<String>, position: &str) -> (r:
    String)
    ensures
        r@ == listed_player(player@, opt_text(*self_user_id), position@),
{
    let mut text = player.name.clone();
    if same_opt_text(&player.user_id, self_user_id) {
        text.append(" (you)");
    }
    text.append(position);
    text
}

/// The colour of a player's marker on the minimap: white for the player of this game.
pub open spec fn marker_rgba(player: PlayerModel, self_user_id: Option<Seq<char>>) -> Seq<u8> {
    if player.user_id == self_user_id {
        seq![255u8, 255u8, 255u8, 255u8]
    } else {
        player.marker_color
    }
}

/// The colour of a player's marker on the minimap. There is no marker without both coordinates.
pub fn player_marker(player: &PlayerInfo, self_user_id: &Option<String>) -> (r: Option<[u8; 4]>)
    ensures
        match r {
            Some(color) => player@.x is Some && player@.y is Some && color@ == marker_rgba(
                player@,
                opt_text(*self_user_id),
            ),
            None => player@.x is None || player@.y is None,
        },
{
    if player.x.is_none() || player.y.is_none() {
        return None;
    }
    if same_opt_text(&player.user_id, self_user_id) {
        let white: [u8; 4] = [255, 255, 255, 255];
        assert(white@ =~= seq![255u8, 255u8, 255u8, 255u8]);
        Some(white)
    } else {
        Some(player.marker_color)
    }
}

} // verus!
