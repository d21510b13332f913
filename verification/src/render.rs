//! What the renderer shares with the rest of the game.

pub mod view;

use vstd::prelude::*;

verus! {

/// Something drawn on that knows its size in pixels.
pub trait SizedSurface {
    /// Width and height.
    fn get_size(&self) -> (u32, u32);

    fn get_width(&self) -> u32;

    fn get_height(&self) -> u32;
}

} // verus!
