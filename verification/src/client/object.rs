//! An object placed in the world.
use vstd::prelude::*;

verus! {

#[derive(Debug, Clone, PartialEq)]
pub struct Object {
    pub id: u64,
    x: u32,
    y: u32,
    scale: u32,
    owner: Option<u32>,
}

} // verus!
