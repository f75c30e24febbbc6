//! Third-person camera rig: a follow / orbit controller, a line-of-sight
//! resolver and a per-frame transform smoother, all over fixed-point values.
use vstd::prelude::*;

pub mod fixed;
pub mod rig;
pub mod rigs;
pub mod orbit;
pub mod sight;
pub mod smooth;
pub mod cursor;

verus! {

} // verus!
