//! Descriptor of the pheromone grid shared with the GPU shaders.

use vstd::prelude::*;

verus! {

/// Grid dimensions in the layout the GPU shaders expect (16 bytes).
#[derive(Clone, Copy, Debug)]
pub struct GridInfo {
    pub width: u32,
    pub height: u32,
    pub _pad: [u32; 2],
}

impl GridInfo {
    /// The descriptor of a `width` x `height` grid, with zeroed padding.
    pub fn new(width: u32, height: u32) -> (info: GridInfo)
        ensures
            info.width == width,
            info.height == height,
            info._pad@ == seq![0u32, 0u32],
    {
        GridInfo { width, height, _pad: [0u32, 0u32] }
    }
}

} // verus!
