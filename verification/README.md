# Furina

Furina is an overlay for Pixel Worlds. It follows the messages that the game receives and shows the
current world, a minimap, the players in it and a chat box.

- `src/` is the library, written in Rust and verified with Verus: reading packets, the messages that
  they hold, the state that the messages change, block and marker colours, the minimap, packet
  dumps, chat, and the texts that are shown. What holds of the state whatever messages arrive
  stands in `src/laws.rs`.
- `src/codec.rs` and `src/text.rs` hold what is trusted of `zstd`, `bson` and the standard library.
- `tests/` runs the library on concrete packets, worlds and messages.
- `app/` is the program around it, for Windows: `app/lib.rs` hooks the game and draws the overlay,
  `app/main.rs` loads it. The addresses of the game's functions are given in the environment when
  it is built (see `app/offsets.rs`).
