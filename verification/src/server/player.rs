//! A player as the server keeps it.
use vstd::prelude::*;

verus! {

/// A player in the world. Position, velocity and heading are the bit
/// patterns of 32-bit floats.
#[derive(Debug, Clone)]
pub struct Player {
    pub id: u64,
    pub name: String,
    pub x: u32,
    pub y: u32,
    pub move_dir: Option<u32>,
    pub x_vel: u32,
    pub y_vel: u32,
}

impl Player {
    /// A standing player at `(x, y)`: no heading and zero velocity.
    pub fn new(id: u64, name: String, x: u32, y: u32) -> (p: Self)
        ensures
            p.id == id,
            p.name == name,
            p.x == x,
            p.y == y,
            p.move_dir == None::<u32>,
            p.x_vel == 0,
            p.y_vel == 0,
    {
        Player { id, name, x, y, move_dir: None, x_vel: 0, y_vel: 0 }
    }
}

} // verus!
