//! Packets that the client reads from the server and writes to it. Each
//! coordinate or angle field holds the bit pattern of a 32-bit float.
use vstd::prelude::*;

verus! {

/// A packet sent by the server.
#[derive(Debug, Clone, PartialEq)]
pub enum IncomingPackets {
    AddPlayer(AddPlayerPacket),
    SetInit(SetInitPacket),
    RemovePlayer(RemovePlayerPacket),
    UpdatePlayers(UpdatePlayersPacket),
    AddBuilding,
    RemoveBuilding,
    UpdateBuilding,
    AddAnimal,
    RemoveAnimal,
    UpdateAnimals,
}

/// Announces a player; `is_mine` says whether it is this client's own.
#[derive(Debug, Clone, PartialEq)]
pub struct SetInitPacket {
    pub is_mine: bool,
    pub id: u64,
    pub x: u32,
    pub y: u32,
    pub name: String,
}

#[derive(Debug, Clone, PartialEq)]
pub struct AddPlayerPacket {
    pub id: u64,
    pub name: String,
    pub x: u32,
    pub y: u32,
}

#[derive(Debug, Clone, PartialEq)]
pub struct RemovePlayerPacket {
    pub id: u64,
}

/// The positions of all players, as `(id, x, y)`.
#[derive(Debug, Clone, PartialEq)]
pub struct UpdatePlayersPacket {
    pub data: Vec<(u64, u32, u32)>,
}

/// A player with movement state, as the server simulates it.
#[derive(Debug, Clone, PartialEq)]
pub struct Player {
    pub id: u64,
    pub name: String,
    pub x: u32,
    pub y: u32,
    pub move_dir: Option<u32>,
    pub x_vel: u32,
    pub y_vel: u32,
    pub x_accel: u32,
    pub y_accel: u32,
    pub lock_movement: bool,
}

impl Player {
    /// A player at rest at `(x, y)`: no heading, zero velocity and
    /// acceleration, movement not locked.
    pub fn new(id: u64, name: String, x: u32, y: u32) -> (p: Self)
        ensures
            p == (Player {
                id,
                name,
                x,
                y,
                move_dir: None,
                x_vel: 0,
                y_vel: 0,
                x_accel: 0,
                y_accel: 0,
                lock_movement: false,
            }),
    {
        Player {
            id,
            name,
            x,
            y,
            move_dir: None,
            x_vel: 0,
            y_vel: 0,
            x_accel: 0,
            y_accel: 0,
            lock_movement: false,
        }
    }
}

/// A packet sent to the server.
#[derive(Debug, Clone, PartialEq)]
pub enum OutgoingPackets {
    Spawn(SpawnPacket),
    SetMoveDir(MovePacket),
}

/// A request to join under a name.
#[derive(Debug, Clone, PartialEq)]
pub struct SpawnPacket {
    pub name: String,
}

/// The direction this client wants to move in, or `None` to stand still.
#[derive(Debug, Clone, PartialEq)]
pub struct MovePacket {
    pub dir: Option<u32>,
}

} // verus!
