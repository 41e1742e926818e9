//! The Game of Life rule applied to the interior of a grid.

use crate::grid::{
    border_len, framed, is_inner, lemma_framed_cells, lemma_row_major, lemma_tabulate_at, tabulate, Grid,
    GridView,
};
use rand::distr::Bernoulli;
use rand::rngs::StdRng;
use vstd::prelude::*;

verus! {

/// The eight neighbours of `(x, y)`: the row below from left to right, the row
/// above from left to right, then the left and right cells of the same row.
pub open spec fn neighbors(x: int, y: int) -> Seq<(int, int)> {
    seq![
        (x - 1, y + 1),
        (x, y + 1),
        (x + 1, y + 1),
        (x - 1, y - 1),
        (x, y - 1),
        (x + 1, y - 1),
        (x - 1, y),
        (x + 1, y),
    ]
}

/// How many of the positions in `ps` hold a live cell of `g`.
pub open spec fn alive_among(g: GridView<bool>, ps: Seq<(int, int)>) -> nat
    decreases ps.len(),
{
    if ps.len() == 0 {
        0
    } else {
        alive_among(g, ps.drop_last()) + if g.at(ps.last().0, ps.last().1) {
            1nat
        } else {
            0nat
        }
    }
}

pub open spec fn live_neighbors(g: GridView<bool>, x: int, y: int) -> nat {
    alive_among(g, neighbors(x, y))
}

/// The Game of Life rule: a cell lives on with three live neighbours, or with
/// two if it is alive now; otherwise it is dead.
pub open spec fn next_alive(g: GridView<bool>, x: int, y: int) -> bool {
    let n = live_neighbors(g, x, y);
    n == 3 || (n == 2 && g.at(x, y))
}

/// The next generation of every cell of `g` off its outer ring, as a grid two
/// cells narrower and two cells lower than `g`.
pub open spec fn interior_step(g: GridView<bool>) -> GridView<bool> {
    tabulate(
        (g.width - 2) as nat,
        (g.height - 2) as nat,
        |x: int, y: int| next_alive(g, x + 1, y + 1),
    )
}

/// One whole generation of `g`: its interior stepped by the rule, framed by a
/// ring holding the values of `border`.
pub open spec fn generation(g: GridView<bool>, border: Seq<bool>) -> GridView<bool> {
    framed(interior_step(g), border)
}

/// Interior law: stepping the interior of a grid at least two cells wide and
/// two cells high gives a well-formed grid two cells narrower and two cells
/// lower, each of whose cells follows the rule at the matching inner position.
pub proof fn lemma_interior_step(g: GridView<bool>)
    requires
        g.wf(),
        g.width >= 2,
        g.height >= 2,
    ensures
        interior_step(g).wf(),
        interior_step(g).width == g.width - 2,
        interior_step(g).height == g.height - 2,
        forall|x: int, y: int|
            interior_step(g).in_bounds(x, y) ==> (#[trigger] interior_step(g).at(x, y) <==> (live_neighbors(
                g,
                x + 1,
                y + 1,
            ) == 3 || (live_neighbors(g, x + 1, y + 1) == 2 && g.at(x + 1, y + 1)))),
{
    let (w, h) = ((g.width - 2) as nat, (g.height - 2) as nat);
    let f = |x: int, y: int| next_alive(g, x + 1, y + 1);
    assert(interior_step(g).wf()) by (nonlinear_arith)
        requires
            interior_step(g).cells.len() == w * h,
            interior_step(g).width == w,
            interior_step(g).height == h,
    ;
    assert forall|x: int, y: int| interior_step(g).in_bounds(x, y) implies (#[trigger] interior_step(g).at(x, y) <==> (
    live_neighbors(g, x + 1, y + 1) == 3 || (live_neighbors(g, x + 1, y + 1) == 2 && g.at(x + 1, y + 1)))) by {
        lemma_tabulate_at(w, h, f, x, y);
    }
}

/// Size law: a generation of a grid at least two cells wide and two cells
/// high is well formed and has exactly the grid's width and height.
pub proof fn lemma_generation_size(g: GridView<bool>, border: Seq<bool>)
    requires
        g.wf(),
        g.width >= 2,
        g.height >= 2,
        border.len() == border_len((g.width - 2) as nat, (g.height - 2) as nat),
    ensures
        generation(g, border).wf(),
        generation(g, border).width == g.width,
        generation(g, border).height == g.height,
{
    lemma_interior_step(g);
    lemma_framed_cells(interior_step(g), interior_step(g), border);
}

/// Determinism law: a generation depends on nothing but the grid and the
/// ring's values, so equal grids framed with equal draws give equal grids,
/// and the inner cells never depend on the draws.
pub proof fn lemma_generation_deterministic(
    g1: GridView<bool>,
    g2: GridView<bool>,
    b1: Seq<bool>,
    b2: Seq<bool>,
)
    requires
        g1.wf(),
        g1.width >= 2,
        g1.height >= 2,
        g2 == g1,
        b1.len() == border_len((g1.width - 2) as nat, (g1.height - 2) as nat),
        b2.len() == b1.len(),
    ensures
        b1 == b2 ==> generation(g1, b1) == generation(g2, b2),
        forall|x: int, y: int|
            is_inner(g1.width as int, g1.height as int, x, y) ==> #[trigger] generation(g1, b1).at(x, y) == generation(
                g2,
                b2,
            ).at(x, y),
{
    lemma_interior_step(g1);
    lemma_framed_cells(interior_step(g1), interior_step(g1), b1);
    lemma_framed_cells(interior_step(g1), interior_step(g1), b2);
}

/// The positions around `(x, y)`, in the order of `neighbors`.
pub fn surroundings(x: u16, y: u16) -> (r: Vec<(u16, u16)>)
    requires
        1 <= x < u16::MAX,
        1 <= y < u16::MAX,
    ensures
        r@.len() == 8,
        forall|i: int|
            0 <= i < 8 ==> (r@[i].0 as int, r@[i].1 as int) == #[trigger] neighbors(x as int, y as int)[i],
{
    let r = vec![
        (x - 1, y + 1),
        (x, y + 1),
        (x + 1, y + 1),
        (x - 1, y - 1),
        (x, y - 1),
        (x + 1, y - 1),
        (x - 1, y),
        (x + 1, y),
    ];
    assert forall|i: int| 0 <= i < 8 implies (r@[i].0 as int, r@[i].1 as int) == neighbors(x as int, y as int)[i] by {
        assert(0 <= i < 8);
    }
    r
}

/// The number of live neighbours of the inner position `(x, y)` of `grid`.
fn count_live_neighbors(grid: &Grid<bool>, x: u16, y: u16) -> (r: usize)
    requires
        grid.wf(),
        1 <= x < grid@.width - 1,
        1 <= y < grid@.height - 1,
    ensures
        r == live_neighbors(grid@, x as int, y as int),
{
    let ghost ns = neighbors(x as int, y as int);
    let around = surroundings(x, y);
    let mut count: usize = 0;
    let mut i: usize = 0;
    while i < around.len()
        invariant
            grid.wf(),
            1 <= x < grid@.width - 1,
            1 <= y < grid@.height - 1,
            ns == neighbors(x as int, y as int),
            around@.len() == 8,
            forall|j: int| 0 <= j < 8 ==> (around@[j].0 as int, around@[j].1 as int) == #[trigger] ns[j],
            i <= 8,
            count <= i,
            count == alive_among(grid@, ns.subrange(0, i as int)),
        decreases 8 - i,
    {
        let (px, py) = around[i];
        assert(ns[i as int] == (px as int, py as int));
        assert(ns.subrange(0, i + 1).drop_last() =~= ns.subrange(0, i as int));
        if *grid.get(px, py).unwrap() {
            count = count + 1;
        }
        i = i + 1;
    }
    assert(ns.subrange(0, 8) =~= ns);
    count
}

/// The next generation of every cell of `grid` off its outer ring; the result
/// is two cells narrower and two cells lower.
pub fn interior_changed(grid: &Grid<bool>) -> (r: Grid<bool>)
    requires
        grid.wf(),
        grid@.width >= 2,
        grid@.height >= 2,
    ensures
        r.wf(),
        r@ == interior_step(grid@),
{
    let width: u16 = grid.width() - 2;
    let height: u16 = grid.height() - 2;
    let ghost (w, h) = (width as int, height as int);
    let ghost g = grid@;
    let mut cells: Vec<bool> = Vec::new();
    let mut y: u16 = 1;
    while y <= height
        invariant
            grid.wf(),
            g == grid@,
            w == width,
            h == height,
            width == g.width - 2,
            height == g.height - 2,
            1 <= y <= height + 1,
            cells@.len() == (y - 1) * w,
            forall|i: int|
                0 <= i < cells@.len() ==> cells@[i] == next_alive(g, i % w + 1, i / w + 1),
        decreases h + 1 - y,
    {
        let mut x: u16 = 1;
        while x <= width
            invariant
                grid.wf(),
                g == grid@,
                w == width,
                h == height,
                width == g.width - 2,
                height == g.height - 2,
                1 <= y <= height,
                1 <= x <= width + 1,
                cells@.len() == (y - 1) * w + (x - 1),
                forall|i: int|
                    0 <= i < cells@.len() ==> cells@[i] == next_alive(g, i % w + 1, i / w + 1),
            decreases w + 1 - x,
        {
            let count = count_live_neighbors(grid, x, y);
            let alive = count == 3 || (count == 2 && *grid.get(x, y).unwrap());
            proof {
                lemma_row_major(w, x - 1, y - 1);
            }
            cells.push(alive);
            x = x + 1;
        }
        assert((y - 1) * w + w == y * w) by (nonlinear_arith);
        y = y + 1;
    }
    assert(h * w == w * h) by (nonlinear_arith);
    assert(cells@ =~= interior_step(g).cells);
    Grid::from_cells(width, height, cells).unwrap()
}

/// One generation: the Game of Life rule on every cell off the outer ring,
/// and a fresh ring of draws from `d` around it.
pub fn update(grid: Grid<bool>, d: &Bernoulli, rng: &mut StdRng) -> (r: Grid<bool>)
    requires
        grid.wf(),
        grid@.width >= 2,
        grid@.height >= 2,
    ensures
        r.wf(),
        r@.width == grid@.width,
        r@.height == grid@.height,
        exists|border: Seq<bool>|
            border.len() == border_len((grid@.width - 2) as nat, (grid@.height - 2) as nat) && r@ == generation(
                grid@,
                border,
            ),
{
    Grid::from_interior(&interior_changed(&grid), d, rng)
}

} // verus!
