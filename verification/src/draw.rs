//! Grid-to-pixel coordinate scaling.
//!
//! Each grid cell is `BLOCK_SIZE` pixels wide.  The float-typed drawing
//! helpers themselves belong to the rendering side outside the library; the
//! conversion to a pixel count is plain integer arithmetic and lives here.

use vstd::prelude::*;

verus! {

/// Side length of one grid cell in pixels.
pub const BLOCK_SIZE: i64 = 25;

/// A game coordinate scaled to pixels and clamped to the `u32` range:
/// negative coordinates clamp to 0 and oversized ones to `u32::MAX`.
pub open spec fn spec_to_coord_u32(game_coord: int) -> int {
    if game_coord <= 0 {
        0
    } else if game_coord * BLOCK_SIZE > u32::MAX {
        u32::MAX as int
    } else {
        game_coord * BLOCK_SIZE
    }
}

/// Pixel offset of the grid coordinate `game_coord`, saturating at the
/// bounds of `u32`.
pub fn to_coord_u32(game_coord: i32) -> (r: u32)
    ensures
        r as int == spec_to_coord_u32(game_coord as int),
{
    if game_coord <= 0 {
        0
    } else {
        let scaled: i64 = (game_coord as i64) * BLOCK_SIZE;
        if scaled > (u32::MAX as i64) {
            u32::MAX
        } else {
            scaled as u32
        }
    }
}

} // verus!
