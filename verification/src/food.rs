//! Food grid for the ant simulation.
//!
//! Food is a grid of `u32` cells, one per pixel: `0` means no food and
//! `1` means food is present. The grid is stored row by row, so the cell
//! at column `x` and row `y` lives at index `y * width + x`.

use vstd::prelude::*;

use crate::pipeline::zeroed_cells;
use vstd::arithmetic::div_mod::{lemma_fundamental_div_mod, lemma_fundamental_div_mod_converse};

verus! {

/// Grid dimensions in the layout the GPU shaders expect (16 bytes).
#[derive(Clone, Copy, Debug)]
pub struct GridInfo {
    pub width: u32,
    pub height: u32,
    pub _pad: [u32; 2],
}

/// Index of the cell at column `x`, row `y` in a row-major grid.
pub open spec fn grid_index(width: int, x: int, y: int) -> int {
    y * width + x
}

/// Whether `(x, y)` lies inside a `width` x `height` grid.
pub open spec fn in_grid(width: int, height: int, x: int, y: int) -> bool {
    0 <= x < width && 0 <= y < height
}

/// The food value read at `(x, y)`: the stored cell inside the grid, `0` outside it.
pub open spec fn grid_cell(cells: Seq<u32>, width: int, height: int, x: int, y: int) -> u32 {
    if in_grid(width, height, x, y) {
        cells[grid_index(width, x, y)]
    } else {
        0
    }
}

/// A value clamped into `{0, 1}`.
pub open spec fn food_value(value: u32) -> u32 {
    if value > 1 {
        1
    } else {
        value
    }
}

/// The cells after writing `value` (clamped to `{0, 1}`) at `(x, y)`; writes
/// outside the grid leave the cells as they were.
pub open spec fn grid_set(cells: Seq<u32>, width: int, height: int, x: int, y: int, value: u32) -> Seq<u32> {
    if in_grid(width, height, x, y) {
        cells.update(grid_index(width, x, y), food_value(value))
    } else {
        cells
    }
}

/// Every cell holds `0` or `1`.
pub open spec fn all_binary(cells: Seq<u32>) -> bool {
    forall|i: int| 0 <= i < cells.len() ==> #[trigger] cells[i] <= 1
}

/// The smaller of two integers.
pub open spec fn min_int(a: int, b: int) -> int {
    if a < b {
        a
    } else {
        b
    }
}

/// The larger of two integers.
pub open spec fn max_int(a: int, b: int) -> int {
    if a > b {
        a
    } else {
        b
    }
}

/// Squared distance between `(x, y)` and `(cx, cy)`.
pub open spec fn dist_sq(x: int, y: int, cx: int, cy: int) -> int {
    (x - cx) * (x - cx) + (y - cy) * (y - cy)
}

/// Whether the circle fill with centre `(cx, cy)` and radius `r` visits the
/// cell `(x, y)` of a `width` x `height` grid: the cell lies in the circle's
/// bounding box clamped to the grid. A dimension above `i32::MAX` turns into a
/// negative bound once read as an `i32`, so then no cell is visited.
pub open spec fn circle_visits(width: int, height: int, cx: int, cy: int, r: int, x: int, y: int) -> bool {
    &&& width <= i32::MAX
    &&& height <= i32::MAX
    &&& max_int(cx - r, 0) <= x <= min_int(cx + r, width - 1)
    &&& max_int(cy - r, 0) <= y <= min_int(cy + r, height - 1)
}

/// Whether the circle fill marks the cell `(x, y)` with food.
pub open spec fn circle_fills(
    width: int,
    height: int,
    cx: int,
    cy: int,
    r: int,
    r_squared: int,
    x: int,
    y: int,
) -> bool {
    &&& circle_visits(width, height, cx, cy, r, x, y)
    &&& dist_sq(x, y, cx, cy) <= r_squared
}

/// The cells after a circle fill: a cell at index `i` (column `i % width`,
/// row `i / width`) becomes `1` when the fill marks it and keeps its value otherwise.
pub open spec fn grid_after_circle(
    cells: Seq<u32>,
    width: int,
    height: int,
    cx: int,
    cy: int,
    r: int,
    r_squared: int,
) -> Seq<u32> {
    Seq::new(
        cells.len(),
        |i: int|
            if width > 0 && circle_fills(width, height, cx, cy, r, r_squared, i % width, i / width) {
                1u32
            } else {
                cells[i]
            },
    )
}

/// For a positive width, the cell index `i` sits at column `x` and row `y`
/// exactly when `i == y * width + x`, for every column `0 <= x < width`.
pub proof fn lemma_cell_coordinates(width: int, i: int, x: int, y: int)
    requires
        0 < width,
        0 <= i,
        0 <= x < width,
        0 <= y,
    ensures
        (i % width == x && i / width == y) <==> i == grid_index(width, x, y),
        0 <= i % width < width,
        0 <= i / width,
{
    lemma_fundamental_div_mod(i, width);
    vstd::arithmetic::mul::lemma_mul_is_commutative(width, i / width);
    vstd::arithmetic::mul::lemma_mul_is_commutative(width, y);
    if i == grid_index(width, x, y) {
        lemma_fundamental_div_mod_converse(i, width, y, x);
    }
    assert(0 <= i / width) by {
        vstd::arithmetic::div_mod::lemma_div_pos_is_pos(i, width);
    }
}

/// Reading a cell after writing one gives back the written value, clamped to
/// `{0, 1}`, at the written position inside the grid, and the previous value
/// everywhere else.
pub proof fn lemma_get_after_set(
    cells: Seq<u32>,
    width: int,
    height: int,
    x: int,
    y: int,
    value: u32,
    x2: int,
    y2: int,
)
    requires
        0 <= width,
        0 <= height,
        cells.len() == width * height,
    ensures
        grid_cell(grid_set(cells, width, height, x, y, value), width, height, x2, y2) == if x2 == x
            && y2 == y && in_grid(width, height, x, y) {
            food_value(value)
        } else {
            grid_cell(cells, width, height, x2, y2)
        },
{
    if in_grid(width, height, x, y) && in_grid(width, height, x2, y2) {
        lemma_index_in_grid(width, height, x, y);
        lemma_index_in_grid(width, height, x2, y2);
        if x2 != x || y2 != y {
            lemma_cell_coordinates(width, grid_index(width, x2, y2), x2, y2);
            lemma_cell_coordinates(width, grid_index(width, x2, y2), x, y);
        }
    }
}

/// Every position of a grid inside its bounds has an index inside its cells.
pub proof fn lemma_index_in_grid(width: int, height: int, x: int, y: int)
    requires
        in_grid(width, height, x, y),
    ensures
        0 <= grid_index(width, x, y) < width * height,
{
    assert(0 <= y * width) by (nonlinear_arith)
        requires
            0 <= y,
            0 < width,
    ;
    assert(y * width + x < width * height) by (nonlinear_arith)
        requires
            0 <= x < width,
            0 <= y < height,
    ;
}

/// A freshly created grid holds no food anywhere.
pub proof fn lemma_new_grid_is_empty(width: int, height: int, x: int, y: int)
    requires
        0 <= width,
        0 <= height,
    ensures
        grid_cell(Seq::new((width * height) as nat, |i: int| 0u32), width, height, x, y) == 0,
{
    if in_grid(width, height, x, y) {
        lemma_index_in_grid(width, height, x, y);
    }
}

/// Writing a cell keeps every cell of the grid at `0` or `1`.
pub proof fn lemma_set_keeps_binary(cells: Seq<u32>, width: int, height: int, x: int, y: int, value: u32)
    requires
        cells.len() == width * height,
        all_binary(cells),
    ensures
        all_binary(grid_set(cells, width, height, x, y, value)),
{
    if in_grid(width, height, x, y) {
        lemma_index_in_grid(width, height, x, y);
    }
}

/// Filling a circle keeps every cell of the grid at `0` or `1`.
pub proof fn lemma_fill_keeps_binary(
    cells: Seq<u32>,
    width: int,
    height: int,
    cx: int,
    cy: int,
    r: int,
    r_squared: int,
)
    requires
        all_binary(cells),
    ensures
        all_binary(grid_after_circle(cells, width, height, cx, cy, r, r_squared)),
{
}

/// Filling the same circle twice leaves the grid as filling it once does.
pub proof fn lemma_fill_idempotent(
    cells: Seq<u32>,
    width: int,
    height: int,
    cx: int,
    cy: int,
    r: int,
    r_squared: int,
)
    ensures
        grid_after_circle(grid_after_circle(cells, width, height, cx, cy, r, r_squared), width, height, cx, cy, r, r_squared)
            == grid_after_circle(cells, width, height, cx, cy, r, r_squared),
{
    let once = grid_after_circle(cells, width, height, cx, cy, r, r_squared);
    assert(grid_after_circle(once, width, height, cx, cy, r, r_squared) =~= once);
}

/// After a circle fill every cell that the fill marks holds food, read at its
/// column and row.
pub proof fn lemma_fill_marks_disc(
    cells: Seq<u32>,
    width: int,
    height: int,
    cx: int,
    cy: int,
    r: int,
    r_squared: int,
    x: int,
    y: int,
)
    requires
        cells.len() == width * height,
        circle_fills(width, height, cx, cy, r, r_squared, x, y),
    ensures
        grid_cell(grid_after_circle(cells, width, height, cx, cy, r, r_squared), width, height, x, y) == 1,
{
    lemma_index_in_grid(width, height, x, y);
    lemma_cell_coordinates(width, grid_index(width, x, y), x, y);
}

/// A circle fill puts food on every cell of the grid whose column is within
/// `r` of `cx`, whose row is within `r` of `cy`, and whose squared distance to
/// `(cx, cy)` is at most `r_squared` (for dimensions that fit in an `i32`).
/// The column range is bounded by the grid's width and the row range by its
/// height, each on its own.
pub proof fn lemma_fill_covers_disc(
    cells: Seq<u32>,
    width: int,
    height: int,
    cx: int,
    cy: int,
    r: int,
    r_squared: int,
    x: int,
    y: int,
)
    requires
        cells.len() == width * height,
        width <= i32::MAX,
        height <= i32::MAX,
        0 <= x < width,
        0 <= y < height,
        cx - r <= x <= cx + r,
        cy - r <= y <= cy + r,
        (x - cx) * (x - cx) + (y - cy) * (y - cy) <= r_squared,
    ensures
        grid_cell(grid_after_circle(cells, width, height, cx, cy, r, r_squared), width, height, x, y) == 1,
{
    lemma_index_in_grid(width, height, x, y);
    lemma_cell_coordinates(width, grid_index(width, x, y), x, y);
}

/// A circle fill leaves every other cell of the grid as it was: a cell off
/// the disc keeps its value.
pub proof fn lemma_fill_keeps_other_cells(
    cells: Seq<u32>,
    width: int,
    height: int,
    cx: int,
    cy: int,
    r: int,
    r_squared: int,
    x: int,
    y: int,
)
    requires
        cells.len() == width * height,
        0 <= x < width,
        0 <= y < height,
        !(width <= i32::MAX && height <= i32::MAX && cx - r <= x <= cx + r && cy - r <= y <= cy + r && (x - cx)
            * (x - cx) + (y - cy) * (y - cy) <= r_squared),
    ensures
        grid_cell(grid_after_circle(cells, width, height, cx, cy, r, r_squared), width, height, x, y) == grid_cell(
            cells,
            width,
            height,
            x,
            y,
        ),
{
    lemma_index_in_grid(width, height, x, y);
    lemma_cell_coordinates(width, grid_index(width, x, y), x, y);
}

/// Represents a 2D grid of food.
/// Each cell is a u32 where 0 = no food, 1 = food present.
#[derive(Debug)]
pub struct FoodGrid {
    pub data: Vec<u32>,
    pub width: u32,
    pub height: u32,
}

impl FoodGrid {
    /// The grid holds exactly one cell per position and every index fits in a `u32`.
    pub open spec fn wf(&self) -> bool {
        &&& self.data@.len() == self.width * self.height
        &&& self.width * self.height <= u32::MAX
    }

    /// Reading or writing `(x, y)` computes an in-range `u32` index into `data`.
    pub open spec fn accessible(&self, x: u32, y: u32) -> bool {
        in_grid(self.width as int, self.height as int, x as int, y as int) ==> {
            &&& grid_index(self.width as int, x as int, y as int) <= u32::MAX
            &&& grid_index(self.width as int, x as int, y as int) < self.data@.len()
        }
    }

    /// Every position of a well-formed grid, inside or outside its bounds, can
    /// be read and written.
    pub proof fn lemma_wf_accessible(&self, x: u32, y: u32)
        requires
            self.wf(),
        ensures
            self.accessible(x, y),
    {
        if in_grid(self.width as int, self.height as int, x as int, y as int) {
            lemma_index_in_grid(self.width as int, self.height as int, x as int, y as int);
        }
    }

    /// Create a new empty food grid.
    pub fn new(width: u32, height: u32) -> (grid: Self)
        requires
            width * height <= u32::MAX,
        ensures
            grid.width == width,
            grid.height == height,
            grid.data@ == Seq::new((width * height) as nat, |i: int| 0u32),
            grid.wf(),
    {
        let data = zeroed_cells(width, height);
        Self { data, width, height }
    }

    /// Get food value at a position.
    pub fn get(&self, x: u32, y: u32) -> (value: u32)
        requires
            self.accessible(x, y),
        ensures
            value == grid_cell(self.data@, self.width as int, self.height as int, x as int, y as int),
            x < self.width && y < self.height ==> value == self.data@[y * self.width + x],
            !(x < self.width && y < self.height) ==> value == 0,
    {
        if x < self.width && y < self.height {
            self.data[(y * self.width + x) as usize]
        } else {
            0
        }
    }

    /// Set food value at a position (0 = no food, 1 = food).
    pub fn set(&mut self, x: u32, y: u32, value: u32)
        requires
            old(self).accessible(x, y),
        ensures
            final(self).width == old(self).width,
            final(self).height == old(self).height,
            final(self).data@ == grid_set(
                old(self).data@,
                old(self).width as int,
                old(self).height as int,
                x as int,
                y as int,
                value,
            ),
            x < old(self).width && y < old(self).height ==> final(self).data@ == old(self).data@.update(
                y * old(self).width + x,
                if value == 0 {
                    0u32
                } else {
                    1u32
                },
            ),
            !(x < old(self).width && y < old(self).height) ==> final(self).data@ == old(self).data@,
    {
        if x < self.width && y < self.height {
            let v: u32 = if value > 1 {
                1
            } else {
                value
            };
            self.data.set((y * self.width + x) as usize, v);
        }
    }

    /// Mark with food every cell of the circle with centre `(cx, cy)` (in cells),
    /// radius `r` and squared radius `r_squared`: the cells of the clamped
    /// bounding box `[cx - r, cx + r] x [cy - r, cy + r]` whose squared distance
    /// to the centre is at most `r_squared`.
    pub fn fill_circle_cells(&mut self, cx: i32, cy: i32, r: i32, r_squared: i32)
        requires
            i32::MIN <= cx - r <= i32::MAX,
            i32::MIN <= cx + r <= i32::MAX,
            i32::MIN <= cy - r <= i32::MAX,
            i32::MIN <= cy + r <= i32::MAX,
            old(self).width != 0x8000_0000u32,
            old(self).height != 0x8000_0000u32,
            forall|x: int, y: int|
                circle_visits(old(self).width as int, old(self).height as int, cx as int, cy as int, r as int, x, y)
                    ==> #[trigger] dist_sq(x, y, cx as int, cy as int) <= i32::MAX,
            forall|x: int, y: int|
                #[trigger] circle_fills(
                    old(self).width as int,
                    old(self).height as int,
                    cx as int,
                    cy as int,
                    r as int,
                    r_squared as int,
                    x,
                    y,
                ) ==> grid_index(old(self).width as int, x, y) <= u32::MAX
                    && grid_index(old(self).width as int, x, y) < old(self).data@.len(),
        ensures
            final(self).width == old(self).width,
            final(self).height == old(self).height,
            final(self).data@ == grid_after_circle(
                old(self).data@,
                old(self).width as int,
                old(self).height as int,
                cx as int,
                cy as int,
                r as int,
                r_squared as int,
            ),
            forall|x: int, y: int|
                0 <= x < old(self).width && 0 <= y < old(self).height && old(self).width <= i32::MAX
                    && old(self).height <= i32::MAX && cx - r <= x <= cx + r && cy - r <= y <= cy + r && (x - cx) * (
                x - cx) + (y - cy) * (y - cy) <= r_squared ==> #[trigger] final(self).data@[y * old(self).width + x]
                    == 1,
    {
        proof {
            let w = self.width as int;
            let h = self.height as int;
            assert forall|x: int, y: int|
                0 <= x < w && 0 <= y < h && w <= i32::MAX && h <= i32::MAX && cx - r <= x <= cx + r && cy - r <= y
                    <= cy + r && (x - cx) * (x - cx) + (y - cy) * (y - cy) <= r_squared implies #[trigger] grid_after_circle(
                self.data@,
                w,
                h,
                cx as int,
                cy as int,
                r as int,
                r_squared as int,
            )[y * w + x] == 1 by {
                assert(circle_fills(w, h, cx as int, cy as int, r as int, r_squared as int, x, y));
                lemma_index_in_grid(w, h, x, y);
                lemma_cell_coordinates(w, grid_index(w, x, y), x, y);
                assert(grid_index(w, x, y) < self.data@.len());
            }
        }
        let ghost old_cells = self.data@;
        let ghost w = self.width as int;
        let ghost h = self.height as int;
        let min_x: i32 = if cx - r > 0 { cx - r } else { 0 };
        let min_y: i32 = if cy - r > 0 { cy - r } else { 0 };
        if self.width == 0 || self.height == 0 || self.width > 0x7fff_ffffu32 || self.height > 0x7fff_ffffu32 {
            // The clamped range is empty: a zero dimension leaves no cell, and a
            // dimension above `i32::MAX` is negative once read as an `i32`.
            assert(self.data@ =~= grid_after_circle(old_cells, w, h, cx as int, cy as int, r as int, r_squared as int));
            return;
        }
        let wi: i32 = self.width as i32;
        let hi: i32 = self.height as i32;
        let max_x: i32 = if cx + r < wi - 1 { cx + r } else { wi - 1 };
        let max_y: i32 = if cy + r < hi - 1 { cy + r } else { hi - 1 };
        let mut y: i32 = min_y;
        while y <= max_y
            invariant
                self.width == w,
                self.height == h,
                0 < w <= i32::MAX,
                0 < h <= i32::MAX,
                min_y == max_int(cy - r, 0),
                max_y == min_int(cy + r, h - 1),
                min_x == max_int(cx - r, 0),
                max_x == min_int(cx + r, w - 1),
                min_y <= y,
                y <= max_y + 1 || y == min_y,
                max_y < i32::MAX,
                self.data@.len() == old_cells.len(),
                forall|px: int, py: int|
                    circle_visits(w, h, cx as int, cy as int, r as int, px, py)
                        ==> #[trigger] dist_sq(px, py, cx as int, cy as int) <= i32::MAX,
                forall|px: int, py: int|
                    #[trigger] circle_fills(w, h, cx as int, cy as int, r as int, r_squared as int, px, py)
                        ==> grid_index(w, px, py) <= u32::MAX && grid_index(w, px, py) < old_cells.len(),
                forall|i: int|
                    0 <= i < old_cells.len() ==> #[trigger] self.data@[i] == if circle_fills(
                        w,
                        h,
                        cx as int,
                        cy as int,
                        r as int,
                        r_squared as int,
                        i % w,
                        i / w,
                    ) && i / w < y {
                        1u32
                    } else {
                        old_cells[i]
                    },
            decreases max_y + 1 - y,
        {
            let mut x: i32 = min_x;
            while x <= max_x
                invariant
                    self.width == w,
                    self.height == h,
                    0 < w <= i32::MAX,
                    0 < h <= i32::MAX,
                    min_y == max_int(cy - r, 0),
                    max_y == min_int(cy + r, h - 1),
                    min_x == max_int(cx - r, 0),
                    max_x == min_int(cx + r, w - 1),
                    min_y <= y <= max_y,
                    min_x <= x,
                    x <= max_x + 1 || x == min_x,
                    max_x < i32::MAX,
                    self.data@.len() == old_cells.len(),
                    forall|px: int, py: int|
                        circle_visits(w, h, cx as int, cy as int, r as int, px, py)
                            ==> #[trigger] dist_sq(px, py, cx as int, cy as int) <= i32::MAX,
                    forall|px: int, py: int|
                        #[trigger] circle_fills(w, h, cx as int, cy as int, r as int, r_squared as int, px, py)
                            ==> grid_index(w, px, py) <= u32::MAX && grid_index(w, px, py) < old_cells.len(),
                    forall|i: int|
                        0 <= i < old_cells.len() ==> #[trigger] self.data@[i] == if circle_fills(
                            w,
                            h,
                            cx as int,
                            cy as int,
                            r as int,
                            r_squared as int,
                            i % w,
                            i / w,
                        ) && (i / w < y || (i / w == y && i % w < x)) {
                            1u32
                        } else {
                            old_cells[i]
                        },
                decreases max_x + 1 - x,
            {
                assert(circle_visits(w, h, cx as int, cy as int, r as int, x as int, y as int));
                assert(dist_sq(x as int, y as int, cx as int, cy as int) <= i32::MAX);
                let dx: i32 = x - cx;
                let dy: i32 = y - cy;
                assert(0 <= dx * dx) by (nonlinear_arith);
                assert(0 <= dy * dy) by (nonlinear_arith);
                if dx * dx + dy * dy <= r_squared {
                    assert(circle_fills(w, h, cx as int, cy as int, r as int, r_squared as int, x as int, y as int));
                    let ghost idx = grid_index(w, x as int, y as int);
                    assert(0 <= (y as int) * w) by (nonlinear_arith)
                        requires
                            0 <= y,
                            0 < w,
                    ;
                    let index: usize = (y as u32 * self.width + x as u32) as usize;
                    assert(index == idx);
                    self.data.set(index, 1u32);
                    assert forall|i: int| 0 <= i < old_cells.len() implies #[trigger] self.data@[i] == if circle_fills(
                        w,
                        h,
                        cx as int,
                        cy as int,
                        r as int,
                        r_squared as int,
                        i % w,
                        i / w,
                    ) && (i / w < y || (i / w == y && i % w < x + 1)) {
                        1u32
                    } else {
                        old_cells[i]
                    } by {
                        lemma_cell_coordinates(w, i, x as int, y as int);
                    }
                } else {
                    assert forall|i: int| 0 <= i < old_cells.len() implies #[trigger] self.data@[i] == if circle_fills(
                        w,
                        h,
                        cx as int,
                        cy as int,
                        r as int,
                        r_squared as int,
                        i % w,
                        i / w,
                    ) && (i / w < y || (i / w == y && i % w < x + 1)) {
                        1u32
                    } else {
                        old_cells[i]
                    } by {
                        lemma_cell_coordinates(w, i, x as int, y as int);
                    }
                }
                x = x + 1;
            }
            assert forall|i: int| 0 <= i < old_cells.len() implies #[trigger] self.data@[i] == if circle_fills(
                w,
                h,
                cx as int,
                cy as int,
                r as int,
                r_squared as int,
                i % w,
                i / w,
            ) && i / w < y + 1 {
                1u32
            } else {
                old_cells[i]
            } by {
                lemma_fundamental_div_mod(i, w);
                if circle_fills(w, h, cx as int, cy as int, r as int, r_squared as int, i % w, i / w) && i / w == y {
                    assert(i % w <= max_x);
                }
            }
            y = y + 1;
        }
        assert(self.data@ =~= grid_after_circle(old_cells, w, h, cx as int, cy as int, r as int, r_squared as int)) by {
            assert forall|i: int| 0 <= i < old_cells.len() implies #[trigger] self.data@[i] == grid_after_circle(
                old_cells,
                w,
                h,
                cx as int,
                cy as int,
                r as int,
                r_squared as int,
            )[i] by {
                if circle_fills(w, h, cx as int, cy as int, r as int, r_squared as int, i % w, i / w) {
                    assert(i / w <= max_y);
                }
            }
        }
    }

    /// Get the grid info for GPU buffer.
    pub fn grid_info(&self) -> (info: GridInfo)
        ensures
            info.width == self.width,
            info.height == self.height,
            info._pad@ == seq![0u32, 0u32],
    {
        GridInfo { width: self.width, height: self.height, _pad: [0u32, 0u32] }
    }
}

/// Food spawner that creates initial food sources.
#[derive(Debug)]
pub struct FoodSpawner {
    pub food_grid: FoodGrid,
}

impl FoodSpawner {
    /// Create a new food spawner with an empty grid.
    pub fn new(width: u32, height: u32) -> (spawner: Self)
        requires
            width * height <= u32::MAX,
        ensures
            spawner.food_grid.width == width,
            spawner.food_grid.height == height,
            spawner.food_grid.data@ == Seq::new((width * height) as nat, |i: int| 0u32),
            spawner.food_grid.wf(),
    {
        Self { food_grid: FoodGrid::new(width, height) }
    }
}

} // verus!
