use vstd::prelude::*;

verus! {

/// The mathematical value of a grid: its dimensions and its cells in
/// row-major order (`row * width + col`). `true` is wall, `false` is floor.
pub struct GridView {
    pub height: nat,
    pub width: nat,
    pub cells: Seq<bool>,
}

impl GridView {
    /// The cell sequence holds exactly one value per coordinate.
    pub open spec fn valid(self) -> bool {
        self.cells.len() == self.height * self.width
    }

    pub open spec fn in_bounds(self, r: int, c: int) -> bool {
        0 <= r < self.height && 0 <= c < self.width
    }

    /// Reading a cell: everything outside the rectangle is wall.
    pub open spec fn wall_at(self, r: int, c: int) -> bool {
        if self.in_bounds(r, c) {
            self.cells[r * self.width + c]
        } else {
            true
        }
    }

    /// Writing a cell: a write outside the rectangle changes nothing.
    pub open spec fn set(self, r: int, c: int, v: bool) -> GridView {
        if self.in_bounds(r, c) {
            GridView { cells: self.cells.update(r * self.width + c, v), ..self }
        } else {
            self
        }
    }
}

/// Flat index arithmetic: a cell of row `r`, column `c` sits at
/// `r * w + c`, inside the first `h * w` positions.
pub proof fn lemma_flat_index(h: int, w: int, r: int, c: int)
    requires
        0 <= r < h,
        0 <= c < w,
    ensures
        0 <= r * w + c < h * w,
        (r * w + c) / w == r,
        (r * w + c) % w == c,
{
    assert(r * w + c < h * w) by (nonlinear_arith)
        requires
            0 <= r < h,
            0 <= c < w,
    ;
    assert(0 <= r * w) by (nonlinear_arith)
        requires
            0 <= r,
            0 <= c < w,
    ;
    vstd::arithmetic::div_mod::lemma_fundamental_div_mod_converse(r * w + c, w, r, c);
}

/// Every flat position below `h * w` is the index of some in-bounds cell.
pub proof fn lemma_split_index(h: int, w: int, k: int)
    requires
        0 <= h,
        0 <= k < h * w,
    ensures
        w > 0,
        0 <= k / w < h,
        0 <= k % w < w,
        k == (k / w) * w + k % w,
{
    if w <= 0 {
        assert(h * w <= 0) by (nonlinear_arith)
            requires
                w <= 0,
                0 <= h,
        ;
    }
    vstd::arithmetic::div_mod::lemma_fundamental_div_mod(k, w);
    vstd::arithmetic::div_mod::lemma_div_pos_is_pos(k, w);
    vstd::arithmetic::div_mod::lemma_mod_pos_bound(k, w);
    vstd::arithmetic::mul::lemma_mul_is_commutative(w, k / w);
    assert(k / w < h) by (nonlinear_arith)
        requires
            k == w * (k / w) + k % w,
            0 <= k % w,
            k < h * w,
            w > 0,
    ;
}

/// Writing then reading: a write inside the grid is read back, and leaves
/// every other cell as it was; a write outside the grid changes no cell.
pub proof fn lemma_set_then_get(g: GridView, r: int, c: int, v: bool)
    requires
        g.valid(),
    ensures
        g.set(r, c, v).valid(),
        g.in_bounds(r, c) ==> g.set(r, c, v).wall_at(r, c) == v,
        forall|r2: int, c2: int|
            (r2 != r || c2 != c) ==> #[trigger] g.set(r, c, v).wall_at(r2, c2) == g.wall_at(r2, c2),
        !g.in_bounds(r, c) ==> g.set(r, c, v) == g,
{
    if g.in_bounds(r, c) {
        lemma_flat_index(g.height as int, g.width as int, r, c);
        assert forall|r2: int, c2: int| (r2 != r || c2 != c) implies #[trigger] g.set(r, c, v).wall_at(
            r2,
            c2,
        ) == g.wall_at(r2, c2) by {
            if g.in_bounds(r2, c2) {
                lemma_flat_index(g.height as int, g.width as int, r2, c2);
                if r * g.width + c == r2 * g.width + c2 {
                    lemma_flat_index_injective(g.width as int, r, c, r2, c2);
                }
            }
        }
    }
}

/// Distinct in-bounds coordinates have distinct flat indices.
pub proof fn lemma_flat_index_injective(w: int, r: int, c: int, r2: int, c2: int)
    requires
        0 <= c < w,
        0 <= c2 < w,
        0 <= r,
        0 <= r2,
        r * w + c == r2 * w + c2,
    ensures
        r == r2,
        c == c2,
{
    vstd::arithmetic::div_mod::lemma_fundamental_div_mod_converse(r * w + c, w, r, c);
    vstd::arithmetic::div_mod::lemma_fundamental_div_mod_converse(r2 * w + c2, w, r2, c2);
}

/// A rectangular grid of wall (`true`) and floor (`false`) cells, surrounded
/// by an implicit infinite wall. `map` holds the cells in row-major order;
/// `wf` ties its length to the dimensions.
pub struct Grid {
    pub map: Vec<bool>,
    pub height: usize,
    pub width: usize,
}

impl View for Grid {
    type V = GridView;

    open spec fn view(&self) -> GridView {
        GridView { height: self.height as nat, width: self.width as nat, cells: self.map@ }
    }
}

impl Grid {
    /// The public dimensions agree with the model and the storage has one
    /// cell per coordinate.
    pub open spec fn wf(&self) -> bool {
        &&& self@.height == self.height
        &&& self@.width == self.width
        &&& self@.valid()
    }

    /// An all-floor grid of the given size.
    pub fn new(height: usize, width: usize) -> (r: Grid)
        requires
            height * width <= usize::MAX,
        ensures
            r.wf(),
            r.height == height,
            r.width == width,
            r@.cells == Seq::new((height * width) as nat, |i: int| false),
            forall|y: int, x: int| r@.in_bounds(y, x) ==> !#[trigger] r@.wall_at(y, x),
    {
        let n: usize = height * width;
        let mut map: Vec<bool> = Vec::new();
        while map.len() < n
            invariant
                map.len() <= n,
                forall|i: int| 0 <= i < map.len() ==> !map@[i],
            decreases n - map.len(),
        {
            map.push(false);
        }
        let r = Grid { map, height, width };
        assert(r@.cells =~= Seq::new((height * width) as nat, |i: int| false));
        assert forall|y: int, x: int| r@.in_bounds(y, x) implies !#[trigger] r@.wall_at(y, x) by {
            lemma_flat_index(height as int, width as int, y, x);
        }
        r
    }

    /// The number of cells, `height * width`.
    pub fn cell_count(&self) -> (r: usize)
        requires
            self.wf(),
        ensures
            r == self.height * self.width,
    {
        self.map.len()
    }

    /// Whether a wall stands at row `y`, column `x`; anything outside the
    /// grid is wall.
    pub fn get(&self, y: usize, x: usize) -> (r: bool)
        requires
            self.wf(),
        ensures
            r == self@.wall_at(y as int, x as int),
            (y >= self.height || x >= self.width) ==> r,
    {
        if y >= self.height || x >= self.width {
            return true;
        }
        let len: usize = self.map.len();
        proof {
            lemma_flat_index(self.height as int, self.width as int, y as int, x as int);
        }
        self.map[y * self.width + x]
    }

    /// Writes a cell; a write outside the grid is ignored.
    pub fn set(&mut self, y: usize, x: usize, new_val: bool)
        requires
            old(self).wf(),
        ensures
            final(self).wf(),
            final(self).height == old(self).height,
            final(self).width == old(self).width,
            final(self)@ == old(self)@.set(y as int, x as int, new_val),
    {
        if y < self.height && x < self.width {
            let len: usize = self.map.len();
            proof {
                lemma_flat_index(self.height as int, self.width as int, y as int, x as int);
            }
            let k: usize = y * self.width + x;
            self.map.set(k, new_val);
        }
    }
}

} // verus!
