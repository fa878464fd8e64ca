//! The game server: the packets it reads and writes, its players, the
//! decisions it makes for each connection, and its configuration.
pub mod config;
pub mod conn;
pub mod packets;
pub mod player;
pub mod state;
