//! The grid type, its row-major model and bounds-checked access.

use vstd::arithmetic::div_mod::lemma_fundamental_div_mod_converse;
use vstd::prelude::*;

verus! {

/// What a grid holds: its dimensions and its cells in row-major order.
pub ghost struct GridView<T> {
    pub width: nat,
    pub height: nat,
    pub cells: Seq<T>,
}

impl<T> GridView<T> {
    /// One cell for every position of the rectangle.
    pub open spec fn wf(self) -> bool {
        self.cells.len() == self.width * self.height
    }

    pub open spec fn in_bounds(self, x: int, y: int) -> bool {
        0 <= x < self.width && 0 <= y < self.height
    }

    /// The cell at column `x` of row `y`.
    pub open spec fn at(self, x: int, y: int) -> T {
        self.cells[y * self.width + x]
    }

    /// The cells of row `y`, left to right.
    pub open spec fn row(self, y: int) -> Seq<T> {
        Seq::new(self.width, |x: int| self.at(x, y))
    }
}

/// The grid of the given size whose cell at `(x, y)` is `f(x, y)`.
pub open spec fn tabulate<T>(width: nat, height: nat, f: spec_fn(int, int) -> T) -> GridView<T> {
    GridView {
        width,
        height,
        cells: Seq::new(width * height, |k: int| f(k % (width as int), k / (width as int))),
    }
}

/// Row-major addressing: the flat index of `(x, y)` gives back `x` and `y`.
pub proof fn lemma_row_major(width: int, x: int, y: int)
    requires
        0 <= x < width,
        0 <= y,
    ensures
        (y * width + x) % width == x,
        (y * width + x) / width == y,
{
    lemma_fundamental_div_mod_converse(y * width + x, width, y, x);
}

/// Every position inside the rectangle has its flat index inside the cells.
pub proof fn lemma_index_in_range(width: int, height: int, x: int, y: int)
    requires
        0 <= x < width,
        0 <= y < height,
    ensures
        0 <= y * width + x < width * height,
{
    assert(y * width <= (height - 1) * width) by (nonlinear_arith)
        requires
            0 <= y < height,
            0 < width,
    ;
    assert((height - 1) * width + width == width * height) by (nonlinear_arith);
    assert(0 <= y * width) by (nonlinear_arith)
        requires
            0 <= y,
            0 < width,
    ;
}

/// A tabulated grid is well formed and holds `f(x, y)` at each position.
pub proof fn lemma_tabulate_at<T>(width: nat, height: nat, f: spec_fn(int, int) -> T, x: int, y: int)
    requires
        0 <= x < width,
        0 <= y < height,
    ensures
        tabulate(width, height, f).wf(),
        tabulate(width, height, f).at(x, y) == f(x, y),
{
    lemma_index_in_range(width as int, height as int, x, y);
    lemma_row_major(width as int, x, y);
}

/// Whether `(x, y)` lies strictly inside a `width` by `height` rectangle,
/// off its one-cell-wide outer ring.
pub open spec fn is_inner(width: int, height: int, x: int, y: int) -> bool {
    1 <= x < width - 1 && 1 <= y < height - 1
}

/// How many cells of the outer ring of a `width` by `height` rectangle
/// (`height >= 2`) come before `(x, y)` in row-major order, for `0 <= x <= width`.
pub open spec fn border_rank(width: int, height: int, x: int, y: int) -> int {
    if y == 0 {
        x
    } else if y < height - 1 {
        width + 2 * (y - 1) + (if x > 0 { 1int } else { 0 }) + (if x >= width { 1int } else { 0 })
    } else {
        width + 2 * (height - 2) + x
    }
}

/// The number of cells on the outer ring of a grid that frames an interior
/// of the given size.
pub open spec fn border_len(inner_width: nat, inner_height: nat) -> nat {
    2 * (inner_width + 2) + 2 * inner_height
}

/// The cell at `(x, y)` of `interior` framed by `border`: inner positions copy
/// the interior, ring positions take the ring's values in row-major order.
pub open spec fn framed_cell<T>(interior: GridView<T>, border: Seq<T>, x: int, y: int) -> T {
    let (w, h) = (interior.width + 2int, interior.height + 2int);
    if is_inner(w, h, x, y) {
        interior.at(x - 1, y - 1)
    } else {
        border[border_rank(w, h, x, y)]
    }
}

/// `interior` surrounded by a one-cell-wide ring filled from `border`.
pub open spec fn framed<T>(interior: GridView<T>, border: Seq<T>) -> GridView<T> {
    tabulate(
        interior.width + 2,
        interior.height + 2,
        |x: int, y: int| framed_cell(interior, border, x, y),
    )
}

/// The width of a grid that frames an interior of width `w`, as an integer.
pub open spec fn outer(w: nat) -> int {
    w as int + 2
}

/// Framing law: the framed grid is two cells wider and two cells higher than
/// the interior; each inner cell is the interior's cell one step up and to
/// the left, whatever the ring's values; each ring cell is the ring value of
/// its rank in row-major order, whatever the interior holds.
pub proof fn lemma_framed_cells<T>(interior: GridView<T>, other: GridView<T>, border: Seq<T>)
    requires
        interior.wf(),
        other.wf(),
        other.width == interior.width,
        other.height == interior.height,
        border.len() == border_len(interior.width, interior.height),
    ensures
        framed(interior, border).wf(),
        framed(interior, border).width == interior.width + 2,
        framed(interior, border).height == interior.height + 2,
        forall|x: int, y: int|
            is_inner(outer(interior.width), outer(interior.height), x, y) ==> #[trigger] framed(
                interior,
                border,
            ).at(x, y) == interior.at(x - 1, y - 1),
        forall|x: int, y: int|
            framed(interior, border).in_bounds(x, y) && !is_inner(outer(interior.width), outer(interior.height), x, y)
                ==> ({
                let k = border_rank(outer(interior.width), outer(interior.height), x, y);
                &&& 0 <= k < border.len()
                &&& #[trigger] framed(interior, border).at(x, y) == border[k]
                &&& framed(other, border).at(x, y) == border[k]
            }),
{
    let (w, h) = (interior.width + 2, interior.height + 2);
    let f = |x: int, y: int| framed_cell(interior, border, x, y);
    let fo = |x: int, y: int| framed_cell(other, border, x, y);
    lemma_tabulate_at(w, h, f, 0, 0);
    assert forall|x: int, y: int| is_inner(outer(interior.width), outer(interior.height), x, y) implies #[trigger] framed(
        interior,
        border,
    ).at(x, y) == interior.at(x - 1, y - 1) by {
        lemma_tabulate_at(w, h, f, x, y);
    }
    assert forall|x: int, y: int|
        framed(interior, border).in_bounds(x, y) && !is_inner(outer(interior.width), outer(interior.height), x, y) implies ({
        let k = border_rank(outer(interior.width), outer(interior.height), x, y);
        &&& 0 <= k < border.len()
        &&& #[trigger] framed(interior, border).at(x, y) == border[k]
        &&& framed(other, border).at(x, y) == border[k]
    }) by {
        lemma_tabulate_at(w, h, f, x, y);
        lemma_tabulate_at(w, h, fo, x, y);
    }
}

/// A transient line of cells, as read out of one row of a grid.
pub struct Row<T> {
    width: u16,
    cells: Vec<T>,
}

impl<T> View for Row<T> {
    type V = Seq<T>;

    closed spec fn view(&self) -> Seq<T> {
        self.cells@
    }
}

impl<T> Row<T> {
    /// The recorded width is the number of cells.
    pub closed spec fn wf(&self) -> bool {
        self.width == self.cells@.len()
    }

    /// A row holding `cells`, left to right.
    pub fn from_vec(cells: Vec<T>) -> (r: Row<T>)
        requires
            cells@.len() <= u16::MAX,
        ensures
            r.wf(),
            r@ == cells@,
    {
        Row { width: cells.len() as u16, cells }
    }

    pub fn width(&self) -> (r: u16)
        requires
            self.wf(),
        ensures
            r == self@.len(),
    {
        self.width
    }

    /// The cell at position `x`, or `None` past the end.
    pub fn get(&self, x: u16) -> (r: Option<&T>)
        requires
            self.wf(),
        ensures
            r is Some <==> x < self@.len(),
            r matches Some(c) ==> *c == self@[x as int],
    {
        if x < self.width {
            Some(&self.cells[x as usize])
        } else {
            None
        }
    }
}

/// A rectangle of cells, addressed by column `x` and row `y`.
pub struct Grid<T> {
    width: u16,
    height: u16,
    cells: Vec<T>,
}

impl<T> View for Grid<T> {
    type V = GridView<T>;

    closed spec fn view(&self) -> GridView<T> {
        GridView { width: self.width as nat, height: self.height as nat, cells: self.cells@ }
    }
}

impl<T> Grid<T> {
    /// The grid holds exactly one cell per position, and its sides fit in 16 bits.
    pub open spec fn wf(&self) -> bool {
        self@.wf() && self@.width <= u16::MAX && self@.height <= u16::MAX
    }

    /// Builds a grid from its cells in row-major order; `None` when their
    /// number is not `width * height`.
    pub fn from_cells(width: u16, height: u16, cells: Vec<T>) -> (r: Option<Grid<T>>)
        ensures
            r is Some <==> cells@.len() == width * height,
            r matches Some(g) ==> g.wf() && g@ == (GridView { width: width as nat, height: height as nat, cells: cells@ }),
    {
        assert(width as u64 * height as u64 <= u64::MAX) by (nonlinear_arith)
            requires
                width <= u16::MAX,
                height <= u16::MAX,
        ;
        if cells.len() as u64 == width as u64 * height as u64 {
            Some(Grid { width, height, cells })
        } else {
            None
        }
    }

    pub fn width(&self) -> (r: u16)
        ensures
            r == self@.width,
    {
        self.width
    }

    pub fn height(&self) -> (r: u16)
        ensures
            r == self@.height,
    {
        self.height
    }

    /// The cell at `(x, y)`, or `None` when the position lies outside the grid.
    pub fn get(&self, x: u16, y: u16) -> (r: Option<&T>)
        requires
            self.wf(),
        ensures
            r is Some <==> self@.in_bounds(x as int, y as int),
            r matches Some(c) ==> *c == self@.at(x as int, y as int),
    {
        if x < self.width && y < self.height {
            let (x, y, w) = (x as usize, y as usize, self.width as usize);
            let n = self.cells.len();
            proof {
                lemma_index_in_range(w as int, self.height as int, x as int, y as int);
            }
            Some(&self.cells[y * w + x])
        } else {
            None
        }
    }
}

impl<T: Copy> Grid<T> {
    /// Row `y` read out left to right, or `None` when `y` is past the last row.
    pub fn get_row(&self, y: u16) -> (r: Option<Row<T>>)
        requires
            self.wf(),
        ensures
            r is Some <==> y < self@.height,
            r matches Some(row) ==> row.wf() && row@ == self@.row(y as int),
    {
        if y < self.height {
            let mut cells: Vec<T> = Vec::new();
            let mut x: u16 = 0;
            while x < self.width
                invariant
                    self.wf(),
                    y < self@.height,
                    x <= self@.width,
                    cells@.len() == x,
                    forall|i: int| 0 <= i < x ==> cells@[i] == self@.at(i, y as int),
                decreases self@.width - x,
            {
                let c: T = *self.get(x, y).unwrap();
                cells.push(c);
                x = x + 1;
            }
            assert(cells@ =~= self@.row(y as int));
            Some(Row::from_vec(cells))
        } else {
            None
        }
    }

    /// `interior` surrounded by a one-cell-wide ring whose cells are taken from
    /// `border` in row-major order.
    pub fn from_border(interior: &Grid<T>, border: &Vec<T>) -> (r: Grid<T>)
        requires
            interior.wf(),
            interior@.width + 2 <= u16::MAX,
            interior@.height + 2 <= u16::MAX,
            border@.len() == border_len(interior@.width, interior@.height),
        ensures
            r.wf(),
            r@ == framed(interior@, border@),
    {
        let width: u16 = interior.width + 2;
        let height: u16 = interior.height + 2;
        let ghost (w, h) = (width as int, height as int);
        let mut cells: Vec<T> = Vec::new();
        let mut k: usize = 0;
        let mut y: u16 = 0;
        while y < height
            invariant
                interior.wf(),
                width == interior@.width + 2,
                height == interior@.height + 2,
                w == width,
                h == height,
                border@.len() == border_len(interior@.width, interior@.height),
                y <= height,
                y < height ==> k == border_rank(w, h, 0, y as int),
                cells@.len() == y * w,
                forall|i: int|
                    0 <= i < cells@.len() ==> cells@[i] == framed_cell(interior@, border@, i % w, i / w),
            decreases h - y,
        {
            let mut x: u16 = 0;
            while x < width
                invariant
                    interior.wf(),
                    width == interior@.width + 2,
                    height == interior@.height + 2,
                    w == width,
                    h == height,
                    border@.len() == border_len(interior@.width, interior@.height),
                    y < height,
                    x <= width,
                    k == border_rank(w, h, x as int, y as int),
                    cells@.len() == y * w + x,
                    forall|i: int|
                        0 <= i < cells@.len() ==> cells@[i] == framed_cell(interior@, border@, i % w, i / w),
                decreases w - x,
            {
                let c: T = if 0 < x && x < width - 1 && 0 < y && y < height - 1 {
                    *interior.get(x - 1, y - 1).unwrap()
                } else {
                    let b = border[k];
                    k = k + 1;
                    b
                };
                proof {
                    lemma_row_major(w, x as int, y as int);
                }
                cells.push(c);
                x = x + 1;
            }
            assert(y * w + w == (y + 1) * w) by (nonlinear_arith);
            y = y + 1;
        }
        assert(h * w == w * h) by (nonlinear_arith);
        assert(cells@ =~= framed(interior@, border@).cells);
        Grid { width, height, cells }
    }
}

} // verus!
