//! The server's configuration, as read from its configuration file.
use vstd::prelude::*;

verus! {

#[derive(Debug, Clone, PartialEq)]
pub struct Config {
    pub server: ServerConfig,
    pub client: ClientConfig,
    pub game: GameConfig,
}

#[derive(Debug, Clone, PartialEq)]
pub struct ServerConfig {
    pub address: String,
}

#[derive(Debug, Clone, PartialEq)]
pub struct ClientConfig {}

#[derive(Debug, Clone, PartialEq)]
pub struct GameConfig {
    update_interval: u32,
}

impl GameConfig {
    /// The interval between game-loop steps, as configured.
    pub closed spec fn spec_update_interval(&self) -> u32 {
        self.update_interval
    }

    pub fn new(update_interval: u32) -> (c: Self)
        ensures
            c.spec_update_interval() == update_interval,
    {
        GameConfig { update_interval }
    }

    pub fn update_interval(&self) -> (v: u32)
        ensures
            v == self.spec_update_interval(),
    {
        self.update_interval
    }
}

} // verus!
