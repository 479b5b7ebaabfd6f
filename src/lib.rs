//! Verified core of a renderer for composed Spine skeletons: the blend-state table, skin
//! composition, the texture registry and its deletion queue, the animation clock, mesh
//! capacity checks, and the frame sequence with its read-back row flip.

use vstd::prelude::*;

pub mod blend;
pub mod clock;
pub mod frame;
pub mod mesh;
pub mod skin;
pub mod texture;

verus! {

} // verus!
