//! Chess variants.
use vstd::prelude::*;

verus! {

/// Which variant is active.
#[derive(Debug, Clone, Copy, PartialEq, Eq, Structural)]
pub enum Variant {
    Standard,
    Chess960,
    FourPlayer,
    ThreeCheck,
    Horde,
    Atomic,
}

} // verus!
