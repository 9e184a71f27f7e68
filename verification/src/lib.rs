//! State tracking, packet decoding and display rules of the Furina overlay.

pub mod text;
pub mod numbers;
pub mod floats;
pub mod record;
pub mod record_laws;
pub mod codec;
pub mod blocks;
pub mod minimap;
pub mod world_laws;
pub mod players;
pub mod text_laws;
pub mod messages;
pub mod number_laws;
pub mod message_laws;
pub mod packet_handler;
pub mod laws;
pub mod state_laws;
pub mod packet_dump;
pub mod chat;
pub mod overlay;
pub mod display_laws;
