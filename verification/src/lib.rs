//! Verified core of a Quake level viewer: decoding of the BSP file format,
//! entity-list scanning, texture classification, mesh layout, draw planning
//! and the integer parts of player input handling.

pub mod le_bytes;
pub mod text;
pub mod types;
pub mod entities;
pub mod texture;
pub mod mesh;
pub mod render;
pub mod input;
pub mod lights;
pub mod hull;
pub mod bsp;

use vstd::prelude::*;

verus! {

} // verus!
