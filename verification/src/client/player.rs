//! A player as the client draws it. Every position, time and interpolation
//! field holds the bit pattern of a 32-bit float.
use vstd::prelude::*;

verus! {

#[derive(Debug, Clone, PartialEq)]
pub struct Player {
    pub id: u64,
    pub name: String,
    pub x: u32,
    pub y: u32,
    pub last_x: u32,
    pub last_y: u32,
    pub lerp_x: u32,
    pub lerp_y: u32,
    pub last_lerp_x: u32,
    pub last_lerp_y: u32,
    pub delta: u32,
    pub time_1: u32,
    pub time_2: u32,
}

/// A player just announced at `(x, y)`: every remembered and interpolated
/// position is `(x, y)`, and the timing fields are zero.
pub open spec fn spawned(id: u64, name: String, x: u32, y: u32) -> Player {
    Player {
        id,
        name,
        x,
        y,
        last_x: x,
        last_y: y,
        lerp_x: x,
        lerp_y: y,
        last_lerp_x: x,
        last_lerp_y: y,
        delta: 0,
        time_1: 0,
        time_2: 0,
    }
}

/// `p` told that it is now at `(x, y)`: the old position and interpolated
/// position are remembered, and the latest update time becomes the
/// previous one.
pub open spec fn moved(p: Player, x: u32, y: u32) -> Player {
    Player {
        last_x: p.x,
        last_y: p.y,
        x,
        y,
        time_1: p.time_2,
        last_lerp_x: p.lerp_x,
        last_lerp_y: p.lerp_y,
        ..p
    }
}

impl Player {
    pub fn new(id: u64, name: String, x: u32, y: u32) -> (p: Self)
        ensures
            p == spawned(id, name, x, y),
    {
        Player {
            id,
            name,
            x,
            y,
            last_x: x,
            last_y: y,
            lerp_x: x,
            lerp_y: y,
            last_lerp_x: x,
            last_lerp_y: y,
            delta: 0,
            time_1: 0,
            time_2: 0,
        }
    }

    /// Takes in a new position from the server.
    pub fn move_to(&mut self, x: u32, y: u32)
        ensures
            *final(self) == moved(*old(self), x, y),
            final(self).x == x && final(self).y == y,
            final(self).last_x == old(self).x && final(self).last_y == old(self).y,
            final(self).last_lerp_x == old(self).lerp_x && final(self).last_lerp_y == old(self).lerp_y,
            final(self).time_1 == old(self).time_2,
    {
        self.last_x = self.x;
        self.last_y = self.y;
        self.x = x;
        self.y = y;
        self.time_1 = self.time_2;
        self.last_lerp_x = self.lerp_x;
        self.last_lerp_y = self.lerp_y;
    }
}

/// Taking in a position puts the player exactly there, whatever its earlier
/// position; it remembers where it was and where it was drawn, the latest
/// update time becomes the previous one, and nothing else changes.
pub proof fn lemma_moved_is_at_new_position(p: Player, x: u32, y: u32)
    ensures
        moved(p, x, y).x == x,
        moved(p, x, y).y == y,
        moved(p, x, y).last_x == p.x,
        moved(p, x, y).last_y == p.y,
        moved(p, x, y).last_lerp_x == p.lerp_x,
        moved(p, x, y).last_lerp_y == p.lerp_y,
        moved(p, x, y).time_1 == p.time_2,
        moved(p, x, y).id == p.id,
        moved(p, x, y).name == p.name,
        moved(p, x, y).lerp_x == p.lerp_x,
        moved(p, x, y).lerp_y == p.lerp_y,
        moved(p, x, y).delta == p.delta,
        moved(p, x, y).time_2 == p.time_2,
{
}


} // verus!
