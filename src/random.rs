//! Grids filled from a Bernoulli distribution driven by an explicit generator.

use crate::grid::{border_len, framed, Grid};
use rand::distr::{Bernoulli, Distribution};
use rand::rngs::StdRng;
use vstd::prelude::*;

verus! {

/// rand's Bernoulli distribution over `bool`, carried as an opaque value.
#[verifier::external_type_specification]
#[verifier::external_body]
pub struct ExBernoulli(Bernoulli);

/// rand's standard seedable generator, carried as an opaque value.
#[verifier::external_type_specification]
#[verifier::external_body]
pub struct ExStdRng(StdRng);

/// Relies on `<Bernoulli as Distribution<bool>>::sample`: one draw, which
/// advances `rng`. Nothing is known of the value drawn.
#[verifier::external_body]
fn draw(d: &Bernoulli, rng: &mut StdRng) -> bool {
    d.sample(rng)
}

/// `n` successive draws from `d`.
pub fn draws(d: &Bernoulli, rng: &mut StdRng, n: usize) -> (r: Vec<bool>)
    ensures
        r@.len() == n,
{
    let mut out: Vec<bool> = Vec::new();
    let mut i: usize = 0;
    while i < n
        invariant
            i <= n,
            out@.len() == i,
        decreases n - i,
    {
        out.push(draw(d, rng));
        i = i + 1;
    }
    out
}

impl Grid<bool> {
    /// A `width` by `height` grid whose cells are drawn from `d` in row-major order.
    pub fn new(width: u16, height: u16, d: &Bernoulli, rng: &mut StdRng) -> (r: Grid<bool>)
        ensures
            r.wf(),
            r@.width == width,
            r@.height == height,
    {
        let mut cells: Vec<bool> = Vec::new();
        let mut y: u16 = 0;
        while y < height
            invariant
                y <= height,
                cells@.len() == y * width,
            decreases height - y,
        {
            let mut x: u16 = 0;
            while x < width
                invariant
                    y < height,
                    x <= width,
                    cells@.len() == y * width + x,
                decreases width - x,
            {
                cells.push(draw(d, rng));
                x = x + 1;
            }
            assert(y * width + width == (y + 1) * width) by (nonlinear_arith);
            y = y + 1;
        }
        assert(height * width == width * height) by (nonlinear_arith);
        Grid::from_cells(width, height, cells).unwrap()
    }

    /// `interior` surrounded by a one-cell-wide ring of fresh draws from `d`,
    /// taken in row-major order. Whatever the draws, the inner cells are those
    /// of `interior`.
    pub fn from_interior(interior: &Grid<bool>, d: &Bernoulli, rng: &mut StdRng) -> (r: Grid<bool>)
        requires
            interior.wf(),
            interior@.width + 2 <= u16::MAX,
            interior@.height + 2 <= u16::MAX,
        ensures
            r.wf(),
            exists|border: Seq<bool>|
                border.len() == border_len(interior@.width, interior@.height) && r@ == framed(interior@, border),
    {
        let n: usize = 2 * (interior.width() as usize + 2) + 2 * interior.height() as usize;
        let border = draws(d, rng, n);
        let r = Grid::from_border(interior, &border);
        assert(border@.len() == border_len(interior@.width, interior@.height) && r@ == framed(interior@, border@));
        r
    }
}

} // verus!
