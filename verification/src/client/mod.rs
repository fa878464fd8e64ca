//! The game client: the packets it exchanges with the server, the players
//! it knows of, and how held keys become a heading.
pub mod data;
pub mod game;
pub mod input;
pub mod object;
pub mod packets;
pub mod player;
