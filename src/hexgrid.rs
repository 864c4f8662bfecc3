use vstd::prelude::*;
use vstd::arithmetic::div_mod::{lemma_fundamental_div_mod_converse_div, lemma_fundamental_div_mod_converse_mod};
use crate::geometry::{COORD_LIMIT, in_range, abs, half, half_of};
use crate::hexagon::{Hexagon, inner_radius, lemma_inner_radius};
use crate::terrain::{band_of, terrain_color};

verus! {

/// Number of cells in a grid of `width` columns and `height` rows.
pub open spec fn cell_count(width: int, height: int) -> int {
    if width <= 0 || height <= 0 {
        0
    } else {
        width * height
    }
}

/// Horizontal center of the cell in column `x`, row `y`: odd rows are
/// shifted right by one inner radius.
pub open spec fn cell_center_x(x: int, y: int, r: int) -> int {
    let i = inner_radius(r);
    if y % 2 == 0 {
        2 * x * i
    } else {
        2 * x * i + i
    }
}

/// Vertical center of the cells in row `y`: one and a half outer radii per row.
pub open spec fn cell_center_y(y: int, r: int) -> int {
    half(3 * y * r)
}

/// Every cell center of the grid lies within the coordinate range.
pub open spec fn grid_fits(width: int, height: int, r: int) -> bool {
    &&& abs(r) <= COORD_LIMIT
    &&& (width <= 0 || height <= 0 || (2 * width * abs(r) <= COORD_LIMIT && 2 * height * abs(r)
        <= COORD_LIMIT))
}

/// The cell at storage index `k` of a grid with `height` rows, filled column
/// by column, has the center, radius and terrain color that its place gives.
pub open spec fn cell_placed(cell: Hexagon, k: int, height: int, r: int, depth: int) -> bool {
    let x = k / height;
    let y = k % height;
    &&& cell.built_from(cell_center_x(x, y, r), cell_center_y(y, r), r)
    &&& cell.wf()
    &&& cell.color == band_of(depth)
    &&& cell.image.is_none()
}

/// `k` is the first cell, in storage order, that contains `(px, py)`.
pub open spec fn is_first_hit(cells: Seq<Hexagon>, px: int, py: int, k: int) -> bool {
    &&& 0 <= k < cells.len()
    &&& cells[k].contains_spec(px, py)
    &&& forall|j: int| 0 <= j < k ==> !(#[trigger] cells[j]).contains_spec(px, py)
}

/// The selection after picking `(px, py)` with selection `sel`: the first
/// cell that contains the point is toggled; with no such cell nothing changes.
pub open spec fn selection_after(sel: Option<usize>, cells: Seq<Hexagon>, px: int, py: int) -> Option<usize> {
    if exists|k: int| is_first_hit(cells, px, py, k) {
        let k = choose|k: int| is_first_hit(cells, px, py, k);
        if sel == Some(k as usize) {
            None
        } else {
            Some(k as usize)
        }
    } else {
        sel
    }
}

/// One step of drawing the grid.
#[derive(Clone, Copy, Debug, PartialEq, Eq)]
pub enum DrawCommand {
    /// Fill the cell with this index in its terrain color.
    FillCell(usize),
    /// Stroke the outline of the cell with this index in the highlight color.
    OutlineCell(usize),
    /// Draw the image with this index at the fixed overlay place.
    Image(usize),
}

/// The fills of cells `0..n`, in storage order.
pub open spec fn fills(n: nat) -> Seq<DrawCommand>
    decreases n,
{
    if n == 0 {
        seq![]
    } else {
        fills((n - 1) as nat).push(DrawCommand::FillCell((n - 1) as usize))
    }
}

/// Every cell filled; then the selected cell outlined; then the image of
/// the first cell, if it has one.
pub open spec fn draw_plan(cells: Seq<Hexagon>, sel: Option<usize>) -> Seq<DrawCommand> {
    let outline = match sel {
        Some(s) => seq![DrawCommand::OutlineCell(s)],
        None => seq![],
    };
    let image = if cells.len() > 0 && cells[0].image.is_some() {
        seq![DrawCommand::Image(cells[0].image.unwrap())]
    } else {
        seq![]
    };
    fills(cells.len()) + outline + image
}

/// The grid: cells in storage order (column by column) and at most one
/// selected cell.
#[derive(Debug)]
pub struct Hexgrid {
    pub cells: Vec<Hexagon>,
    pub selected_index: Option<usize>,
}

impl Hexgrid {
    /// Every cell well formed, and the selection a valid index.
    pub open spec fn wf(&self) -> bool {
        &&& forall|k: int| 0 <= k < self.cells@.len() ==> (#[trigger] self.cells@[k]).wf()
        &&& match self.selected_index {
            Some(s) => s < self.cells@.len(),
            None => true,
        }
    }

    /// Builds the grid of `width` columns by `height` rows of hexagons of the
    /// given outer radius. `depths` holds one noise depth sample (in
    /// `DEPTH_SCALE` units) per cell, in storage order: column `x`, row `y`
    /// is at index `x * height + y`. Nothing starts selected.
    pub fn new(width: i32, height: i32, outer_radius: i64, depths: &Vec<i64>) -> (g: Hexgrid)
        requires
            grid_fits(width as int, height as int, outer_radius as int),
            depths@.len() == cell_count(width as int, height as int),
        ensures
            g.wf(),
            g.cells@.len() == cell_count(width as int, height as int),
            g.selected_index.is_none(),
            forall|k: int|
                0 <= k < g.cells@.len() ==> cell_placed(
                    #[trigger] g.cells@[k],
                    k,
                    height as int,
                    outer_radius as int,
                    depths@[k] as int,
                ),
    {
        let mut cells: Vec<Hexagon> = Vec::new();
        if width <= 0 || height <= 0 {
            return Hexgrid { cells, selected_index: None };
        }
        let r = outer_radius;
        let ghost ri = r as int;
        let inner = crate::hexagon::inner_radius_of(r);
        let ghost ar = abs(ri);
        proof {
            lemma_inner_radius(ar);
        }
        let mut x: i32 = 0;
        while x < width
            invariant
                0 <= x <= width,
                0 < height,
                grid_fits(width as int, height as int, ri),
                depths@.len() == cell_count(width as int, height as int),
                inner == inner_radius(ri),
                abs(inner as int) <= abs(ri),
                ri == r,
                cells@.len() == x * height,
                forall|k: int|
                    0 <= k < cells@.len() ==> cell_placed(
                        #[trigger] cells@[k],
                        k,
                        height as int,
                        ri,
                        depths@[k] as int,
                    ),
            decreases width - x,
        {
            let mut y: i32 = 0;
            while y < height
                invariant
                    0 <= x < width,
                    0 <= y <= height,
                    grid_fits(width as int, height as int, ri),
                    depths@.len() == cell_count(width as int, height as int),
                    inner == inner_radius(ri),
                    abs(inner as int) <= abs(ri),
                    ri == r,
                    cells@.len() == x * height + y,
                    forall|k: int|
                        0 <= k < cells@.len() ==> cell_placed(
                            #[trigger] cells@[k],
                            k,
                            height as int,
                            ri,
                            depths@[k] as int,
                        ),
                decreases height - y,
            {
                let ghost k = x * height + y;
                proof {
                    lemma_cell_bounds(x as int, y as int, width as int, height as int, ri, inner as int);
                    lemma_fundamental_div_mod_converse_div(k, height as int, x as int, y as int);
                    lemma_fundamental_div_mod_converse_mod(k, height as int, x as int, y as int);
                }
                let across = 2 * (x as i64) * inner;
                let cx = if y % 2 == 0 { across } else { across + inner };
                let cy = half_of(3 * (y as i64) * r);
                let idx = cells.len();
                let color = terrain_color(depths[idx]);
                let cell = Hexagon::new(cx, cy, r, color);
                cells.push(cell);
                proof {
                    assert(cells@.len() == k + 1);
                }
                assert(cells@[k].built_from(cell_center_x(x as int, y as int, ri), cell_center_y(y as int, ri), ri));
                y += 1;
            }
            assert((x + 1) * height == x * height + height) by (nonlinear_arith);
            x += 1;
        }
        Hexgrid { cells, selected_index: None }
    }

    /// Picks the point `(x, y)`, given in grid coordinates: the first cell in
    /// storage order that contains it is deselected if it was selected and
    /// selected otherwise. A point in no cell changes nothing.
    pub fn select(&mut self, x: i64, y: i64)
        requires
            old(self).wf(),
        ensures
            final(self).wf(),
            final(self).cells@ == old(self).cells@,
            final(self).selected_index == selection_after(
                old(self).selected_index,
                old(self).cells@,
                x as int,
                y as int,
            ),
    {
        let n = self.cells.len();
        let mut i: usize = 0;
        while i < n
            invariant
                n == self.cells@.len(),
                self.cells@ == old(self).cells@,
                self.selected_index == old(self).selected_index,
                self.wf(),
                i <= n,
                forall|j: int| 0 <= j < i ==> !(#[trigger] self.cells@[j]).contains_spec(x as int, y as int),
            decreases n - i,
        {
            if self.cells[i].contains(x, y) {
                proof {
                    let cs = self.cells@;
                    assert(is_first_hit(cs, x as int, y as int, i as int));
                    let c = choose|k: int| is_first_hit(cs, x as int, y as int, k);
                    lemma_first_hit_unique(cs, x as int, y as int, i as int, c);
                }
                self.selected_index = if self.selected_index == Some(i) { None } else { Some(i) };
                return;
            }
            i += 1;
        }
    }

    /// Attaches image `image` to the cell at `index`; nothing else changes.
    pub fn set_image(&mut self, index: usize, image: usize)
        requires
            old(self).wf(),
            index < old(self).cells@.len(),
        ensures
            final(self).wf(),
            final(self).selected_index == old(self).selected_index,
            final(self).cells@.len() == old(self).cells@.len(),
            final(self).cells@[index as int].image == Some(image),
            final(self).cells@[index as int].corners@ == old(self).cells@[index as int].corners@,
            final(self).cells@[index as int].color == old(self).cells@[index as int].color,
            forall|k: int|
                0 <= k < final(self).cells@.len() && k != index ==> (#[trigger] final(self).cells@[k])
                    == old(self).cells@[k],
    {
        self.cells[index].image = Some(image);
    }

    /// What to draw, in order: every cell's fill, then the outline of the
    /// selected cell, then the image attached to the first cell, if any.
    pub fn draw(&self) -> (plan: Vec<DrawCommand>)
        requires
            self.wf(),
        ensures
            plan@ == draw_plan(self.cells@, self.selected_index),
    {
        let n = self.cells.len();
        let mut plan: Vec<DrawCommand> = Vec::new();
        let mut i: usize = 0;
        while i < n
            invariant
                n == self.cells@.len(),
                i <= n,
                plan@ == fills(i as nat),
            decreases n - i,
        {
            plan.push(DrawCommand::FillCell(i));
            i += 1;
        }
        let ghost filled = plan@;
        match self.selected_index {
            Some(s) => plan.push(DrawCommand::OutlineCell(s)),
            None => {},
        }
        let ghost outlined = plan@;
        if n > 0 {
            match self.cells[0].image {
                Some(m) => plan.push(DrawCommand::Image(m)),
                None => {},
            }
        }
        proof {
            let outline = match self.selected_index {
                Some(s) => seq![DrawCommand::OutlineCell(s)],
                None => seq![],
            };
            assert(outlined =~= filled + outline);
        }
        assert(plan@ =~= draw_plan(self.cells@, self.selected_index));
        plan
    }
}

/// There is at most one first hit.
proof fn lemma_first_hit_unique(cells: Seq<Hexagon>, px: int, py: int, a: int, b: int)
    requires
        is_first_hit(cells, px, py, a),
        is_first_hit(cells, px, py, b),
    ensures
        a == b,
{
    if a < b {
        assert(!cells[a].contains_spec(px, py));
    } else if b < a {
        assert(!cells[b].contains_spec(px, py));
    }
}

/// The center of the cell in column `x`, row `y` stays within range.
proof fn lemma_cell_bounds(x: int, y: int, width: int, height: int, r: int, i: int)
    requires
        0 <= x < width,
        0 <= y < height,
        grid_fits(width, height, r),
        abs(i) <= abs(r),
    ensures
        in_range(2 * x * i),
        in_range(2 * x * i + i),
        -COORD_LIMIT * 2 <= 3 * y * r <= COORD_LIMIT * 2,
        in_range(half(3 * y * r)),
        in_range(r),
        x * height + y < width * height,
        (x + 1) * height == x * height + height,
{
    let ar = abs(r);
    assert(x * height + y < width * height && (x + 1) * height == x * height + height)
        by (nonlinear_arith)
        requires
            0 <= x < width,
            0 <= y < height,
    ;
    let b = (2 * x + 1) * ar;
    assert(-b <= 2 * x * i + i <= b && -b <= 2 * x * i <= b) by (nonlinear_arith)
        requires
            0 <= x,
            -ar <= i <= ar,
            b == (2 * x + 1) * ar,
    ;
    assert(b <= 2 * width * ar) by (nonlinear_arith)
        requires
            x + 1 <= width,
            0 <= ar,
            b == (2 * x + 1) * ar,
    ;
    let t = 3 * y * r;
    let hb = 2 * height * ar;
    assert(-2 * hb <= t <= 2 * hb) by (nonlinear_arith)
        requires
            0 <= y < height,
            ar == abs(r),
            t == 3 * y * r,
            hb == 2 * height * ar,
    ;
}

/// Picking twice inside the same cell, starting with nothing selected,
/// first selects that cell and then clears the selection.
pub proof fn lemma_select_twice(cells: Seq<Hexagon>, px: int, py: int, i: int)
    requires
        is_first_hit(cells, px, py, i),
    ensures
        selection_after(None, cells, px, py) == Some(i as usize),
        selection_after(Some(i as usize), cells, px, py) == None::<usize>,
{
    let c = choose|k: int| is_first_hit(cells, px, py, k);
    lemma_first_hit_unique(cells, px, py, i, c);
}

/// Picking a point that no cell contains leaves any selection as it was.
pub proof fn lemma_select_miss(cells: Seq<Hexagon>, px: int, py: int, sel: Option<usize>)
    requires
        forall|k: int| 0 <= k < cells.len() ==> !(#[trigger] cells[k]).contains_spec(px, py),
    ensures
        selection_after(sel, cells, px, py) == sel,
{
    if exists|k: int| is_first_hit(cells, px, py, k) {
        let k = choose|k: int| is_first_hit(cells, px, py, k);
        assert(cells[k].contains_spec(px, py));
    }
}

} // verus!
