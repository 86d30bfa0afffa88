//! Verified core of the ant-colony simulation: the food grid, the grid
//! descriptors shared with the GPU, ant-type bookkeeping, colour parsing,
//! dispatch arithmetic and the input/frame decisions of the window loop.

pub mod ant;
pub mod color_scheme;
pub mod control;
pub mod food;
pub mod pheromone;
pub mod pipeline;
pub mod spawn;
