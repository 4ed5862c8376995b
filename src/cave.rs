use crate::grid::{Grid, GridView};
use crate::rules::{standard_params, CaveParams};
use crate::seed::{resolve_seed, seed_of};
use rand::distributions::Bernoulli;
use rand::{Rng, SeedableRng};
use rand_pcg::Pcg64;
use vstd::prelude::*;

verus! {

/// Draw number `index` (counting from 0) of a `Pcg64` seeded with `seed`,
/// each draw true with probability `numerator / denominator`.
pub uninterp spec fn pcg_ratio_draw(seed: u64, numerator: u32, denominator: u32, index: nat) -> bool;

/// The first `n` draws of that stream.
pub open spec fn seeded_draws(seed: u64, numerator: u32, denominator: u32, n: nat) -> Seq<bool> {
    Seq::new(n, |i: int| pcg_ratio_draw(seed, numerator, denominator, i as nat))
}

/// Relies on `rand_pcg::Pcg64` made by `SeedableRng::seed_from_u64` and
/// sampled through `Rng::sample_iter` with `Bernoulli::from_ratio`: one draw
/// per cell, in order. `Pcg64` is value-stable, so each draw depends on the
/// seed, the ratio and its position alone; a ratio of 0 never gives true and
/// a ratio of 1 always does.
#[verifier::external_body]
fn pcg_draws(seed: u64, numerator: u32, denominator: u32, n: usize) -> (r: Vec<bool>)
    requires
        0 < denominator,
        numerator <= denominator,
    ensures
        r@.len() == n,
        forall|i: int| 0 <= i < n ==> #[trigger] r@[i] == pcg_ratio_draw(seed, numerator, denominator, i as nat),
        numerator == 0 ==> forall|i: int| 0 <= i < n ==> !#[trigger] r@[i],
        numerator == denominator ==> forall|i: int| 0 <= i < n ==> #[trigger] r@[i],
{
    let coin = Bernoulli::from_ratio(numerator, denominator).unwrap();
    Pcg64::seed_from_u64(seed).sample_iter(coin).take(n).collect()
}

/// Relies on `rand::random`: a value from the thread-local generator, which
/// the operating system's entropy seeds. Nothing is known of it.
#[verifier::external_body]
fn entropy_seed() -> (r: u64) {
    rand::random()
}

/// A grid whose cells take the first `h * w` draws in row-major order.
pub open spec fn filled(h: nat, w: nat, draws: Seq<bool>) -> GridView {
    GridView { height: h, width: w, cells: draws.take((h * w) as int) }
}

/// The cave grown from `draws`: fill, `p.growth_passes` growth passes, and a
/// cleanup pass when `p.cleanup`.
pub open spec fn cave_of(h: nat, w: nat, draws: Seq<bool>, p: CaveParams) -> GridView {
    let grown = filled(h, w, draws).grown_times(p, p.growth_passes as nat);
    if p.cleanup {
        grown.cleaned(p)
    } else {
        grown
    }
}

/// The cave that a seed gives under `p`.
pub open spec fn seeded_cave(h: nat, w: nat, seed: u64, p: CaveParams) -> GridView {
    cave_of(h, w, seeded_draws(seed, p.fill_numerator, p.fill_denominator, h * w), p)
}

/// Seed strings that resolve to the same seed give the same cave; in
/// particular one seed string always gives one cave.
pub proof fn lemma_seed_string_deterministic(h: nat, w: nat, s1: Seq<char>, s2: Seq<char>)
    requires
        seed_of(s1) == seed_of(s2),
    ensures
        seeded_cave(h, w, seed_of(s1), standard_params()) == seeded_cave(
            h,
            w,
            seed_of(s2),
            standard_params(),
        ),
{
}

impl Grid {
    /// Fills the grid from `draws`, one per cell, row by row, left to right.
    pub fn fill_random(&mut self, draws: &Vec<bool>)
        requires
            old(self).wf(),
            draws@.len() >= old(self).height * old(self).width,
        ensures
            final(self).wf(),
            final(self).height == old(self).height,
            final(self).width == old(self).width,
            final(self)@ == filled(old(self).height as nat, old(self).width as nat, draws@),
    {
        let h = self.height;
        let w = self.width;
        let n: usize = self.cell_count();
        let mut i: usize = 0;
        while i < h
            invariant
                self.wf(),
                self.height == h,
                self.width == w,
                draws@.len() >= h * w,
                n == h * w,
                i <= h,
                forall|k: int| 0 <= k < i * w ==> #[trigger] self@.cells[k] == draws@[k],
            decreases h - i,
        {
            let mut j: usize = 0;
            while j < w
                invariant
                    self.wf(),
                    self.height == h,
                    self.width == w,
                    draws@.len() >= h * w,
                    n == h * w,
                    i < h,
                    j <= w,
                    forall|k: int| 0 <= k < i * w + j ==> #[trigger] self@.cells[k] == draws@[k],
                decreases w - j,
            {
                proof {
                    crate::grid::lemma_flat_index(h as int, w as int, i as int, j as int);
                }
                self.set(i, j, draws[i * w + j]);
                j += 1;
            }
            assert(i * w + w == (i + 1) * w) by (nonlinear_arith);
            i += 1;
        }
        assert(self@.cells =~= draws@.take((h * w) as int));
    }

    /// Generates a cave from `draws` under `p`: fill, growth passes, then the
    /// cleanup pass if `p` asks for it.
    pub fn gen_cave(y: usize, x: usize, draws: &Vec<bool>, p: &CaveParams) -> (r: Grid)
        requires
            y * x <= usize::MAX,
            draws@.len() >= y * x,
        ensures
            r.wf(),
            r.height == y,
            r.width == x,
            r@ == cave_of(y as nat, x as nat, draws@, *p),
    {
        let mut map = Grid::new(y, x);
        map.fill_random(draws);
        let ghost start = map@;
        let mut k: usize = 0;
        while k < p.growth_passes
            invariant
                map.wf(),
                map.height == y,
                map.width == x,
                k <= p.growth_passes,
                start == filled(y as nat, x as nat, draws@),
                map@ == start.grown_times(*p, k as nat),
            decreases p.growth_passes - k,
        {
            map = map.next_cellular_automata(p);
            k += 1;
        }
        if p.cleanup {
            map = map.cleanup_cellular_automata(p);
        }
        map
    }

    /// Generates a cave under `p` from the draws of a `Pcg64` seeded with
    /// `seed`.
    pub fn gen_cave_from_seed(y: usize, x: usize, seed: u64, p: &CaveParams) -> (r: Grid)
        requires
            y * x <= usize::MAX,
            p.valid(),
        ensures
            r.wf(),
            r.height == y,
            r.width == x,
            r@ == seeded_cave(y as nat, x as nat, seed, *p),
    {
        let draws = pcg_draws(seed, p.fill_numerator, p.fill_denominator, y * x);
        assert(draws@ =~= seeded_draws(seed, p.fill_numerator, p.fill_denominator, (y * x) as nat));
        Grid::gen_cave(y, x, &draws, p)
    }

    /// Generates a cave with the standard settings from a seed string: the
    /// number it writes, or else its hash.
    pub fn gen_cave_seed(y: usize, x: usize, seed: String) -> (r: Grid)
        requires
            y * x <= usize::MAX,
        ensures
            r.wf(),
            r.height == y,
            r.width == x,
            r@ == seeded_cave(y as nat, x as nat, seed_of(seed@), standard_params()),
    {
        let s = resolve_seed(seed.as_str());
        Grid::gen_cave_from_seed(y, x, s, &CaveParams::standard())
    }

    /// Generates a cave with the standard settings from a seed drawn from
    /// the system's entropy.
    pub fn gen_cave_no_seed(y: usize, x: usize) -> (r: Grid)
        requires
            y * x <= usize::MAX,
        ensures
            r.wf(),
            r.height == y,
            r.width == x,
            exists|s: u64| r@ == #[trigger] seeded_cave(y as nat, x as nat, s, standard_params()),
    {
        let s = entropy_seed();
        Grid::gen_cave_from_seed(y, x, s, &CaveParams::standard())
    }
}

} // verus!
