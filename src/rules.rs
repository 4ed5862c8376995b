use crate::grid::{lemma_flat_index, lemma_split_index, Grid, GridView};
use vstd::prelude::*;

verus! {

/// Tunable settings of cave generation.
///
/// The initial fill makes each cell wall with probability
/// `fill_numerator / fill_denominator`; `growth_passes` growth passes follow,
/// then one cleanup pass when `cleanup` is set. A cell with at least
/// `min_new_wall` wall neighbours becomes wall; a wall cell with exactly
/// `min_keep_wall` wall neighbours stays wall.
#[derive(Clone, Copy, Debug, PartialEq, Eq)]
pub struct CaveParams {
    pub fill_numerator: u32,
    pub fill_denominator: u32,
    pub growth_passes: usize,
    pub cleanup: bool,
    pub min_new_wall: u8,
    pub min_keep_wall: u8,
}

/// The standard settings: fill 45 in 100, five growth passes, a cleanup
/// pass, thresholds 5 and 4.
pub open spec fn standard_params() -> CaveParams {
    CaveParams {
        fill_numerator: 45,
        fill_denominator: 100,
        growth_passes: 5,
        cleanup: true,
        min_new_wall: 5,
        min_keep_wall: 4,
    }
}

impl CaveParams {
    /// The fill ratio is a probability.
    pub open spec fn valid(self) -> bool {
        0 < self.fill_denominator && self.fill_numerator <= self.fill_denominator
    }

    pub fn standard() -> (r: CaveParams)
        ensures
            r == standard_params(),
    {
        CaveParams {
            fill_numerator: 45,
            fill_denominator: 100,
            growth_passes: 5,
            cleanup: true,
            min_new_wall: 5,
            min_keep_wall: 4,
        }
    }
}

impl GridView {
    /// 1 where a wall stands (in or out of bounds), 0 on floor.
    pub open spec fn wall_n(self, r: int, c: int) -> nat {
        if self.wall_at(r, c) {
            1
        } else {
            0
        }
    }

    /// Walls among the 8 cells around `(r, c)`.
    #[verifier::opaque]
    pub open spec fn local_count(self, r: int, c: int) -> nat {
        self.wall_n(r - 1, c - 1) + self.wall_n(r - 1, c) + self.wall_n(r - 1, c + 1)
            + self.wall_n(r, c + 1) + self.wall_n(r + 1, c + 1) + self.wall_n(r + 1, c)
            + self.wall_n(r + 1, c - 1) + self.wall_n(r, c - 1)
    }

    /// Walls among the 16 cells at Chebyshev distance exactly 2 from `(r, c)`.
    #[verifier::opaque]
    pub open spec fn ring_count(self, r: int, c: int) -> nat {
        self.wall_n(r - 2, c - 2) + self.wall_n(r - 2, c - 1) + self.wall_n(r - 2, c)
            + self.wall_n(r - 2, c + 1) + self.wall_n(r - 2, c + 2) + self.wall_n(r - 1, c + 2)
            + self.wall_n(r, c + 2) + self.wall_n(r + 1, c + 2) + self.wall_n(r + 2, c + 2)
            + self.wall_n(r + 2, c + 1) + self.wall_n(r + 2, c) + self.wall_n(r + 2, c - 1)
            + self.wall_n(r + 2, c - 2) + self.wall_n(r + 1, c - 2) + self.wall_n(r, c - 2)
            + self.wall_n(r - 1, c - 2)
    }

    /// Walls within Chebyshev distance 2 of `(r, c)`, the cell itself excluded.
    pub open spec fn far_count(self, r: int, c: int) -> nat {
        self.local_count(r, c) + self.ring_count(r, c)
    }

    /// The next value of a cell under the growth rule.
    pub open spec fn grown_cell(self, p: CaveParams, r: int, c: int) -> bool {
        let n = self.local_count(r, c);
        n >= p.min_new_wall || self.far_count(r, c) == 0 || (n == p.min_keep_wall
            && self.wall_at(r, c))
    }

    /// The next value of a cell under the cleanup rule.
    pub open spec fn cleaned_cell(self, p: CaveParams, r: int, c: int) -> bool {
        let n = self.local_count(r, c);
        n >= p.min_new_wall || (n == p.min_keep_wall && self.wall_at(r, c))
    }

    /// The next value of a cell under the cleanup rule when `cleanup`, else
    /// under the growth rule.
    pub open spec fn next_cell(self, p: CaveParams, cleanup: bool, r: int, c: int) -> bool {
        if cleanup {
            self.cleaned_cell(p, r, c)
        } else {
            self.grown_cell(p, r, c)
        }
    }

    /// One synchronous pass: every cell of the new grid is computed from this
    /// one.
    pub open spec fn stepped(self, p: CaveParams, cleanup: bool) -> GridView {
        GridView {
            height: self.height,
            width: self.width,
            cells: Seq::new(
                self.height * self.width,
                |k: int| self.next_cell(p, cleanup, k / self.width as int, k % self.width as int),
            ),
        }
    }

    pub open spec fn grown(self, p: CaveParams) -> GridView {
        self.stepped(p, false)
    }

    pub open spec fn cleaned(self, p: CaveParams) -> GridView {
        self.stepped(p, true)
    }

    /// `n` growth passes in a row.
    pub open spec fn grown_times(self, p: CaveParams, n: nat) -> GridView
        decreases n,
    {
        if n == 0 {
            self
        } else {
            self.grown_times(p, (n - 1) as nat).grown(p)
        }
    }

    /// No cell would change under the cleanup rule: every wall has exactly
    /// `min_keep_wall` or at least `min_new_wall` wall neighbours, every
    /// floor fewer than `min_new_wall`.
    pub open spec fn cleanup_stable(self, p: CaveParams) -> bool {
        forall|r: int, c: int|
            #![trigger self.wall_at(r, c)]
            self.in_bounds(r, c) ==> if self.wall_at(r, c) {
                self.local_count(r, c) == p.min_keep_wall || self.local_count(r, c)
                    >= p.min_new_wall
            } else {
                self.local_count(r, c) < p.min_new_wall
            }
    }
}

/// A pass yields a grid of the same dimensions with one value per cell.
pub proof fn lemma_stepped_valid(g: GridView, p: CaveParams, cleanup: bool)
    ensures
        g.stepped(p, cleanup).valid(),
        g.stepped(p, cleanup).height == g.height,
        g.stepped(p, cleanup).width == g.width,
{
}

/// A pass keeps the dimensions, and each in-bounds cell of its result is
/// the rule applied to the source.
pub proof fn lemma_stepped_cell(g: GridView, p: CaveParams, cleanup: bool, r: int, c: int)
    requires
        g.in_bounds(r, c),
    ensures
        g.stepped(p, cleanup).valid(),
        g.stepped(p, cleanup).wall_at(r, c) == g.next_cell(p, cleanup, r, c),
{
    lemma_flat_index(g.height as int, g.width as int, r, c);
}

/// Neighbour counts are bounded: at most 8 local walls, at most 24 within
/// distance 2, and the extended count never falls below the local one.
pub proof fn lemma_neighbour_counts_bounded(g: GridView, r: int, c: int)
    ensures
        g.local_count(r, c) <= 8,
        g.far_count(r, c) <= 24,
        g.far_count(r, c) >= g.local_count(r, c),
{
    reveal(GridView::local_count);
    reveal(GridView::ring_count);
}

/// Cleanup is idempotent wherever its first result is already stable:
/// applying it twice gives what applying it once gives. (From an arbitrary
/// grid it is not: on an all-floor 3 x 3 grid the first pass walls the
/// corners, and the second then walls the edge midpoints.)
pub proof fn lemma_cleanup_idempotent(g: GridView, p: CaveParams)
    requires
        g.cleaned(p).cleanup_stable(p),
    ensures
        g.cleaned(p).cleaned(p) == g.cleaned(p),
{
    lemma_stepped_valid(g, p, true);
    lemma_stable_is_fixed(g.cleaned(p), p);
}

/// A stable grid is a fixed point of cleanup.
pub proof fn lemma_stable_is_fixed(g: GridView, p: CaveParams)
    requires
        g.valid(),
        g.cleanup_stable(p),
    ensures
        g.cleaned(p) == g,
{
    let h = g.cleaned(p);
    assert forall|k: int| 0 <= k < g.cells.len() implies h.cells[k] == g.cells[k] by {
        lemma_split_index(g.height as int, g.width as int, k);
        let r = k / g.width as int;
        let c = k % g.width as int;
        lemma_flat_index(g.height as int, g.width as int, r, c);
        let n = g.local_count(r, c);
        let w = g.wall_at(r, c);
        assert(w == g.cells[k]);
        assert(h.cells[k] == g.cleaned_cell(p, r, c));
    }
    assert(h.cells =~= g.cells);
}

/// Only a stable grid is a fixed point of cleanup.
pub proof fn lemma_fixed_is_stable(g: GridView, p: CaveParams)
    requires
        g.valid(),
        g.cleaned(p) == g,
    ensures
        g.cleanup_stable(p),
{
    assert forall|r: int, c: int| g.in_bounds(r, c) implies if #[trigger] g.wall_at(r, c) {
        g.local_count(r, c) == p.min_keep_wall || g.local_count(r, c) >= p.min_new_wall
    } else {
        g.local_count(r, c) < p.min_new_wall
    } by {
        lemma_stepped_cell(g, p, true, r, c);
        let n = g.local_count(r, c);
        assert(g.wall_at(r, c) == (n >= p.min_new_wall || (n == p.min_keep_wall && g.wall_at(r, c))));
    }
}

/// `v + d` when it lies in `[0, bound)`, else `None`.
fn shifted(v: usize, d: i8, bound: usize) -> (r: Option<usize>)
    requires
        -2 <= d <= 2,
    ensures
        r matches Some(u) ==> u == v + d && u < bound,
        r is None ==> v + d < 0 || v + d >= bound,
{
    if d < 0 {
        let m: usize = (0 - d) as usize;
        if v < m || v - m >= bound {
            None
        } else {
            Some(v - m)
        }
    } else {
        let m: usize = d as usize;
        if v >= bound || bound - v <= m {
            None
        } else {
            Some(v + m)
        }
    }
}

impl Grid {
    /// Whether a wall stands at offset `(dy, dx)` from `(y, x)`.
    fn wall_at_offset(&self, y: usize, x: usize, dy: i8, dx: i8) -> (r: bool)
        requires
            self.wf(),
            -2 <= dy <= 2,
            -2 <= dx <= 2,
        ensures
            r == self@.wall_at(y + dy, x + dx),
    {
        match (shifted(y, dy, self.height), shifted(x, dx, self.width)) {
            (Some(r), Some(c)) => self.get(r, c),
            _ => true,
        }
    }

    /// 1 where a wall stands at offset `(dy, dx)` from `(y, x)`, else 0.
    fn wall_count_at_offset(&self, y: usize, x: usize, dy: i8, dx: i8) -> (r: u8)
        requires
            self.wf(),
            -2 <= dy <= 2,
            -2 <= dx <= 2,
        ensures
            r == self@.wall_n(y + dy, x + dx),
    {
        if self.wall_at_offset(y, x, dy, dx) {
            1
        } else {
            0
        }
    }

    /// Walls among the 8 cells around `(y, x)`.
    pub fn count_neighbours(&self, y: usize, x: usize) -> (r: u8)
        requires
            self.wf(),
        ensures
            r == self@.local_count(y as int, x as int),
            r <= 8,
    {
        reveal(GridView::local_count);
        let mut n: u8 = 0;
        n += self.wall_count_at_offset(y, x, -1, -1);
        n += self.wall_count_at_offset(y, x, -1, 0);
        n += self.wall_count_at_offset(y, x, -1, 1);
        n += self.wall_count_at_offset(y, x, 0, 1);
        n += self.wall_count_at_offset(y, x, 1, 1);
        n += self.wall_count_at_offset(y, x, 1, 0);
        n += self.wall_count_at_offset(y, x, 1, -1);
        n += self.wall_count_at_offset(y, x, 0, -1);
        n
    }

    /// Walls within Chebyshev distance 2 of `(y, x)`: the 8 neighbours and
    /// the 16 cells of the surrounding ring.
    pub fn count_far_neighbours(&self, y: usize, x: usize) -> (r: u8)
        requires
            self.wf(),
        ensures
            r == self@.far_count(y as int, x as int),
            self@.local_count(y as int, x as int) <= r <= 24,
    {
        reveal(GridView::ring_count);
        let mut total: u8 = self.count_neighbours(y, x);
        total += self.wall_count_at_offset(y, x, -2, -2);
        total += self.wall_count_at_offset(y, x, -2, -1);
        total += self.wall_count_at_offset(y, x, -2, 0);
        total += self.wall_count_at_offset(y, x, -2, 1);
        total += self.wall_count_at_offset(y, x, -2, 2);
        total += self.wall_count_at_offset(y, x, -1, 2);
        total += self.wall_count_at_offset(y, x, 0, 2);
        total += self.wall_count_at_offset(y, x, 1, 2);
        total += self.wall_count_at_offset(y, x, 2, 2);
        total += self.wall_count_at_offset(y, x, 2, 1);
        total += self.wall_count_at_offset(y, x, 2, 0);
        total += self.wall_count_at_offset(y, x, 2, -1);
        total += self.wall_count_at_offset(y, x, 2, -2);
        total += self.wall_count_at_offset(y, x, 1, -2);
        total += self.wall_count_at_offset(y, x, 0, -2);
        total += self.wall_count_at_offset(y, x, -1, -2);
        total
    }
}

impl Grid {
    /// Whether no wall stands within Chebyshev distance 2 of `(y, x)`.
    pub fn empty_space(&self, y: usize, x: usize) -> (r: bool)
        requires
            self.wf(),
        ensures
            r == (self@.far_count(y as int, x as int) == 0),
    {
        self.count_far_neighbours(y, x) == 0
    }

    /// The next value of cell `(y, x)` under the growth rule of `p`.
    pub fn grow_cell(&self, p: &CaveParams, y: usize, x: usize) -> (r: bool)
        requires
            self.wf(),
        ensures
            r == self@.grown_cell(*p, y as int, x as int),
    {
        let num_neighbours = self.count_neighbours(y, x);
        if num_neighbours >= p.min_new_wall || self.empty_space(y, x) {
            return true;
        }
        num_neighbours == p.min_keep_wall && self.get(y, x)
    }

    /// The next value of cell `(y, x)` under the standard growth rule.
    pub fn calculate_new_cell(&self, y: usize, x: usize) -> (r: bool)
        requires
            self.wf(),
        ensures
            r == self@.grown_cell(standard_params(), y as int, x as int),
    {
        self.grow_cell(&CaveParams::standard(), y, x)
    }

    /// The next value of cell `(y, x)` under the cleanup rule of `p`.
    pub fn cleanup_cell(&self, p: &CaveParams, y: usize, x: usize) -> (r: bool)
        requires
            self.wf(),
        ensures
            r == self@.cleaned_cell(*p, y as int, x as int),
    {
        let num_neighbours = self.count_neighbours(y, x);
        if num_neighbours >= p.min_new_wall {
            return true;
        }
        num_neighbours == p.min_keep_wall && self.get(y, x)
    }

    /// One full pass over a fresh grid, reading only `self`.
    fn step(&self, p: &CaveParams, cleanup: bool) -> (r: Grid)
        requires
            self.wf(),
        ensures
            r.wf(),
            r.height == self.height,
            r.width == self.width,
            r@ == self@.stepped(*p, cleanup),
    {
        let h = self.height;
        let w = self.width;
        // The cell count fits in a usize, so a grid of the same size can be made.
        let _ = self.cell_count();
        let ghost target = self@.stepped(*p, cleanup);
        let mut next = Grid::new(h, w);
        let mut i: usize = 0;
        while i < h
            invariant
                self.wf(),
                next.wf(),
                h == self.height,
                w == self.width,
                next.height == h,
                next.width == w,
                target == self@.stepped(*p, cleanup),
                i <= h,
                forall|k: int| 0 <= k < i * w ==> next@.cells[k] == #[trigger] target.cells[k],
            decreases h - i,
        {
            let mut j: usize = 0;
            while j < w
                invariant
                    self.wf(),
                    next.wf(),
                    h == self.height,
                    w == self.width,
                    next.height == h,
                    next.width == w,
                    target == self@.stepped(*p, cleanup),
                    i < h,
                    j <= w,
                    forall|k: int|
                        0 <= k < i * w + j ==> next@.cells[k] == #[trigger] target.cells[k],
                decreases w - j,
            {
                let v = if cleanup {
                    self.cleanup_cell(p, i, j)
                } else {
                    self.grow_cell(p, i, j)
                };
                proof {
                    lemma_flat_index(h as int, w as int, i as int, j as int);
                }
                next.set(i, j, v);
                j += 1;
            }
            assert(i * w + w == (i + 1) * w) by (nonlinear_arith);
            i += 1;
        }
        assert(next@.cells =~= target.cells);
        next
    }

    /// One growth pass under `p`.
    pub fn next_cellular_automata(&self, p: &CaveParams) -> (r: Grid)
        requires
            self.wf(),
        ensures
            r.wf(),
            r@ == self@.grown(*p),
    {
        self.step(p, false)
    }

    /// One cleanup pass under `p`.
    pub fn cleanup_cellular_automata(&self, p: &CaveParams) -> (r: Grid)
        requires
            self.wf(),
        ensures
            r.wf(),
            r@ == self@.cleaned(*p),
    {
        self.step(p, true)
    }
}

} // verus!
