//! From held movement keys to the direction the player wants to go.
use vstd::prelude::*;

verus! {

/// Which movement keys are held: WASD and the arrow keys.
#[derive(Debug, Clone, Copy, PartialEq, Eq)]
pub struct HeldKeys {
    pub w: bool,
    pub a: bool,
    pub s: bool,
    pub d: bool,
    pub up: bool,
    pub left: bool,
    pub down: bool,
    pub right: bool,
}

/// `step` if the key is held, 0 otherwise.
pub open spec fn contribution(held: bool, step: int) -> int {
    if held { step } else { 0 }
}

/// The sum of the directions of the held keys, with y growing downwards:
/// W and Up point to (0, -1), A and Left to (-1, 0), S and Down to (0, 1),
/// D and Right to (1, 0).
pub open spec fn spec_movement(k: HeldKeys) -> (int, int) {
    (
        contribution(k.a, -1) + contribution(k.left, -1) + contribution(k.d, 1) + contribution(k.right, 1),
        contribution(k.w, -1) + contribution(k.up, -1) + contribution(k.s, 1) + contribution(k.down, 1),
    )
}

/// One axis: +1 for each held key of `plus`, -1 for each of `minus`.
fn axis(minus1: bool, minus2: bool, plus1: bool, plus2: bool) -> (v: i8)
    ensures
        v == contribution(minus1, -1) + contribution(minus2, -1) + contribution(plus1, 1) + contribution(plus2, 1),
{
    let mut v: i8 = 0;
    if minus1 {
        v = v - 1;
    }
    if minus2 {
        v = v - 1;
    }
    if plus1 {
        v = v + 1;
    }
    if plus2 {
        v = v + 1;
    }
    v
}

/// The direction the held keys point in; each component is in -2..=2.
pub fn movement_vector(keys: &HeldKeys) -> (v: (i8, i8))
    ensures
        (v.0 as int, v.1 as int) == spec_movement(*keys),
{
    (axis(keys.a, keys.left, keys.d, keys.right), axis(keys.w, keys.up, keys.s, keys.down))
}

/// Holding both keys of an opposite pair moves the player as holding
/// neither does.
pub proof fn lemma_opposite_keys_cancel(k: HeldKeys)
    ensures
        spec_movement(HeldKeys { w: true, s: true, ..k }) == spec_movement(HeldKeys { w: false, s: false, ..k }),
        spec_movement(HeldKeys { a: true, d: true, ..k }) == spec_movement(HeldKeys { a: false, d: false, ..k }),
        spec_movement(HeldKeys { up: true, down: true, ..k }) == spec_movement(HeldKeys { up: false, down: false, ..k }),
        spec_movement(HeldKeys { left: true, right: true, ..k }) == spec_movement(HeldKeys { left: false, right: false, ..k }),
{
}

/// No held key means no movement.
pub proof fn lemma_no_keys_no_movement()
    ensures
        spec_movement(
            HeldKeys { w: false, a: false, s: false, d: false, up: false, left: false, down: false, right: false },
        ) == (0int, 0int),
{
}

/// Each held key adds its own unit direction, whatever else is held:
/// W and Up add (0, -1), A and Left add (-1, 0), S and Down add (0, 1),
/// D and Right add (1, 0).
pub proof fn lemma_each_key_adds_its_direction(k: HeldKeys)
    ensures
        spec_movement(HeldKeys { w: true, ..k }) == (
            spec_movement(HeldKeys { w: false, ..k }).0,
            spec_movement(HeldKeys { w: false, ..k }).1 - 1,
        ),
        spec_movement(HeldKeys { up: true, ..k }) == (
            spec_movement(HeldKeys { up: false, ..k }).0,
            spec_movement(HeldKeys { up: false, ..k }).1 - 1,
        ),
        spec_movement(HeldKeys { s: true, ..k }) == (
            spec_movement(HeldKeys { s: false, ..k }).0,
            spec_movement(HeldKeys { s: false, ..k }).1 + 1,
        ),
        spec_movement(HeldKeys { down: true, ..k }) == (
            spec_movement(HeldKeys { down: false, ..k }).0,
            spec_movement(HeldKeys { down: false, ..k }).1 + 1,
        ),
        spec_movement(HeldKeys { a: true, ..k }) == (
            spec_movement(HeldKeys { a: false, ..k }).0 - 1,
            spec_movement(HeldKeys { a: false, ..k }).1,
        ),
        spec_movement(HeldKeys { left: true, ..k }) == (
            spec_movement(HeldKeys { left: false, ..k }).0 - 1,
            spec_movement(HeldKeys { left: false, ..k }).1,
        ),
        spec_movement(HeldKeys { d: true, ..k }) == (
            spec_movement(HeldKeys { d: false, ..k }).0 + 1,
            spec_movement(HeldKeys { d: false, ..k }).1,
        ),
        spec_movement(HeldKeys { right: true, ..k }) == (
            spec_movement(HeldKeys { right: false, ..k }).0 + 1,
            spec_movement(HeldKeys { right: false, ..k }).1,
        ),
{
}

} // verus!
