//! Packets that the server reads from clients and writes to them. Each
//! coordinate or angle field holds the bit pattern of a 32-bit float.
use vstd::prelude::*;

verus! {

/// A packet sent by a client.
#[derive(Debug, Clone, PartialEq)]
pub enum IncomingPackets {
    Spawn(SpawnPacket),
    SetMoveDir(MovePacket),
    Aim,
    Hit,
    Place,
}

/// A request to join the game under a name.
#[derive(Debug, Clone, PartialEq)]
pub struct SpawnPacket {
    pub name: String,
}

/// The direction the client wants to move in, or `None` to stand still.
#[derive(Debug, Clone, PartialEq)]
pub struct MovePacket {
    pub dir: Option<u32>,
}

#[derive(Debug, Clone, PartialEq)]
pub struct AimPacket {
    pub direction: i8,
}

#[derive(Debug, Clone, PartialEq)]
pub struct HitPacket {}

#[derive(Debug, Clone, PartialEq)]
pub struct PlacePacket {
    pub item: u8,
}

/// A packet sent to a client.
#[derive(Debug, Clone, PartialEq)]
pub enum OutgoingPackets {
    AddPlayer(AddPlayerPacket),
    SetInit(SetInitPacket),
    RemovePlayer(RemovePlayerPacket),
    UpdatePlayers(UpdatePlayersPacket),
    AddBuilding,
    RemoveBuilding,
    UpdateBuilding,
    AddAnimal,
    RemoveAnimal,
    UpdateAnimals,
}

/// Announces a player; `is_mine` tells the receiving client whether the
/// player is its own.
#[derive(Debug, Clone, PartialEq)]
pub struct SetInitPacket {
    pub is_mine: bool,
    pub id: u64,
    pub x: u32,
    pub y: u32,
    pub name: String,
}

#[derive(Debug, Clone, PartialEq)]
pub struct AddPlayerPacket {
    pub id: u64,
    pub name: String,
    pub x: u32,
    pub y: u32,
}

#[derive(Debug, Clone, PartialEq)]
pub struct RemovePlayerPacket {
    pub id: u64,
}

/// The positions of all players, as `(id, x, y)`.
#[derive(Debug, Clone, PartialEq)]
pub struct UpdatePlayersPacket {
    pub data: Vec<(u64, u32, u32)>,
}

} // verus!
