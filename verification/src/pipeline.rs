//! Sizes and dispatch counts of the GPU simulation passes.
//!
//! The compute shaders run in workgroups of 64 invocations, one invocation
//! per ant or per pheromone cell. The ant buffer holds one 24-byte record per
//! ant and the pheromone buffer one `u32` per grid cell.

use vstd::prelude::*;

verus! {

/// Invocations per compute workgroup.
pub const WORKGROUP_SIZE: u32 = 64;

/// Bytes of one ant record in the ant buffer: two pairs of `f32` and two `u32`.
pub const ANT_RECORD_BYTES: usize = 24;

/// Bytes of one pheromone cell.
pub const CELL_BYTES: u32 = 4;

/// Bytes of one RGBA8 pixel of a screenshot.
pub const PIXEL_BYTES: u32 = 4;

/// Number of workgroups that cover `n` invocations: `n / 64` rounded up.
pub open spec fn groups_for(n: int) -> int {
    (n + WORKGROUP_SIZE - 1) / (WORKGROUP_SIZE as int)
}

/// The workgroups for `n` invocations cover all of them, and one workgroup
/// fewer would not.
pub proof fn lemma_groups_cover(n: int)
    requires
        0 <= n,
    ensures
        groups_for(n) * WORKGROUP_SIZE >= n,
        (groups_for(n) - 1) * WORKGROUP_SIZE < n,
{
}

/// Workgroups to dispatch for `n` invocations.
pub fn workgroup_count(n: u32) -> (groups: u32)
    ensures
        groups == groups_for(n as int),
        groups * WORKGROUP_SIZE >= n,
        groups * WORKGROUP_SIZE < n + WORKGROUP_SIZE,
{
    let whole = n / WORKGROUP_SIZE;
    if n % WORKGROUP_SIZE == 0 {
        whole
    } else {
        whole + 1
    }
}

/// Workgroup counts of one simulation tick.
#[derive(Clone, Copy, Debug, PartialEq, Eq)]
pub struct TickDispatch {
    /// Workgroups of the pheromone decay pass, one invocation per grid cell.
    pub decay_groups: u32,
    /// Workgroups of the collision pass and of the movement pass, one invocation per ant.
    pub ant_groups: u32,
}

/// Workgroup counts of one tick of a simulation of `ant_count` ants on a
/// `grid_width` x `grid_height` pheromone grid. The ant count is taken as a
/// `u32`, as the shaders index ants with `u32`.
pub fn tick_dispatch(ant_count: usize, grid_width: u32, grid_height: u32) -> (dispatch: TickDispatch)
    requires
        grid_width * grid_height <= u32::MAX,
    ensures
        dispatch.decay_groups == groups_for(grid_width * grid_height),
        dispatch.ant_groups == groups_for((ant_count as u32) as int),
        dispatch.decay_groups * WORKGROUP_SIZE >= grid_width * grid_height,
        dispatch.decay_groups * WORKGROUP_SIZE < grid_width * grid_height + WORKGROUP_SIZE,
        dispatch.ant_groups * WORKGROUP_SIZE >= (ant_count as u32),
        dispatch.ant_groups * WORKGROUP_SIZE < (ant_count as u32) + WORKGROUP_SIZE,
{
    let cells: u32 = grid_width * grid_height;
    TickDispatch {
        decay_groups: workgroup_count(cells),
        ant_groups: workgroup_count(ant_count as u32),
    }
}

/// All-zero contents of a `width` x `height` grid of cells.
pub fn zeroed_cells(width: u32, height: u32) -> (cells: Vec<u32>)
    requires
        width * height <= u32::MAX,
    ensures
        cells@ == Seq::new((width * height) as nat, |i: int| 0u32),
{
    let n: u32 = width * height;
    let mut cells: Vec<u32> = Vec::new();
    let mut i: u32 = 0;
    while i < n
        invariant
            i <= n,
            cells@ == Seq::new(i as nat, |k: int| 0u32),
        decreases n - i,
    {
        cells.push(0u32);
        i = i + 1;
    }
    cells
}

/// Bytes to copy back when reading the ant buffer of `ant_count` ants.
pub fn ant_readback_size(ant_count: usize) -> (size: u64)
    requires
        ant_count * ANT_RECORD_BYTES <= usize::MAX,
    ensures
        size == ant_count * ANT_RECORD_BYTES,
{
    (ant_count * ANT_RECORD_BYTES) as u64
}

/// Bytes to copy back when reading a `width` x `height` pheromone grid.
pub fn pheromone_readback_size(width: u32, height: u32) -> (size: u64)
    requires
        width * height * CELL_BYTES <= u32::MAX,
    ensures
        size == width * height * CELL_BYTES,
{
    assert(width * height <= width * height * CELL_BYTES) by (nonlinear_arith);
    (width * height * CELL_BYTES) as u64
}

/// Buffer layout of an RGBA8 screenshot.
#[derive(Clone, Copy, Debug, PartialEq, Eq)]
pub struct ScreenshotLayout {
    /// Bytes of the whole image.
    pub buffer_size: usize,
    /// Bytes of one row of pixels.
    pub bytes_per_row: u32,
}

/// Layout of a `width` x `height` RGBA8 screenshot, rows packed without padding.
pub fn screenshot_layout(width: u32, height: u32) -> (layout: ScreenshotLayout)
    requires
        width * height * PIXEL_BYTES <= u32::MAX,
        PIXEL_BYTES * width <= u32::MAX,
    ensures
        layout.buffer_size == width * height * PIXEL_BYTES,
        layout.bytes_per_row == PIXEL_BYTES * width,
{
    assert(width * height <= width * height * PIXEL_BYTES) by (nonlinear_arith);
    let size: u32 = width * height * PIXEL_BYTES;
    ScreenshotLayout { buffer_size: size as usize, bytes_per_row: PIXEL_BYTES * width }
}

} // verus!
