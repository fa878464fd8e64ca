//! Kinds of things in the world.
use vstd::prelude::*;

verus! {

/// The skins a player can wear.
#[derive(Debug, Clone, Copy, PartialEq, Eq)]
pub enum SkinTypes {
    DefaultSkin,
    SoldierSkin,
}

} // verus!
