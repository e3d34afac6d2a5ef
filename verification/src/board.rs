//! The board of the falling-block puzzle: a grid of fixed size whose cells
//! are empty or hold the kind of the piece that settled there.

use vstd::prelude::*;
use crate::piece::PieceKind;

verus! {

/// What a board is: its width and its rows from top to bottom.
pub struct Grid {
    pub width: nat,
    pub rows: Seq<Seq<Option<PieceKind>>>,
}

/// A row is full when none of its cells is empty.
pub open spec fn full(row: Seq<Option<PieceKind>>) -> bool {
    forall|c: int| 0 <= c < row.len() ==> (#[trigger] row[c]).is_some()
}

/// A row of `width` empty cells.
pub open spec fn empty_row(width: nat) -> Seq<Option<PieceKind>> {
    Seq::new(width, |c: int| None)
}

impl Grid {
    /// Every row has the grid's width.
    pub open spec fn wf(self) -> bool {
        forall|r: int| 0 <= r < self.rows.len() ==> (#[trigger] self.rows[r]).len() == self.width
    }

    /// Number of rows.
    pub open spec fn height(self) -> nat {
        self.rows.len()
    }

    /// The cell lies on the grid.
    pub open spec fn in_bounds(self, r: int, c: int) -> bool {
        0 <= r < self.height() && 0 <= c < self.width
    }

    /// The cell lies on the grid and is empty.
    pub open spec fn is_free(self, r: int, c: int) -> bool {
        self.in_bounds(r, c) && self.rows[r][c].is_none()
    }

    /// The grid of the given size with every cell empty.
    pub open spec fn empty(height: nat, width: nat) -> Grid {
        Grid { width, rows: Seq::new(height, |r: int| empty_row(width)) }
    }

    /// The grid in which every cell that `hit` selects holds `kind` and
    /// every other cell is as before.
    pub open spec fn locked(self, hit: spec_fn(int, int) -> bool, kind: PieceKind) -> Grid {
        Grid {
            width: self.width,
            rows: Seq::new(
                self.height(),
                |r: int|
                    Seq::new(
                        self.width,
                        |c: int|
                            if hit(r, c) {
                                Some(kind)
                            } else {
                                self.rows[r][c]
                            },
                    ),
            ),
        }
    }

    /// The rows that are not full, in their order from top to bottom.
    pub open spec fn kept(self) -> Seq<Seq<Option<PieceKind>>> {
        self.rows.filter(|row: Seq<Option<PieceKind>>| !full(row))
    }

    /// Number of full rows.
    pub open spec fn full_count(self) -> nat {
        (self.rows.len() - self.kept().len()) as nat
    }

    /// The grid after its full rows are taken out: as many empty rows on
    /// top, then the rows that were kept, in their order.
    pub open spec fn cleared(self) -> Grid {
        Grid {
            width: self.width,
            rows: Seq::new(self.full_count(), |r: int| empty_row(self.width)) + self.kept(),
        }
    }
}

/// Whether `(r, c)` is one of the listed cells.
pub open spec fn listed(cells: Seq<(usize, usize)>, r: int, c: int) -> bool {
    exists|i: int| 0 <= i < cells.len() && (#[trigger] cells[i]).0 == r && cells[i].1 == c
}

/// A list with one more cell at its end lists that cell and whatever it
/// listed before.
pub proof fn lemma_listed_push(cells: Seq<(usize, usize)>, cell: (usize, usize), r: int, c: int)
    ensures
        listed(cells.push(cell), r, c) <==> listed(cells, r, c) || (cell.0 == r && cell.1 == c),
{
    let more = cells.push(cell);
    if listed(cells, r, c) {
        let i = choose|i: int| 0 <= i < cells.len() && (#[trigger] cells[i]).0 == r && cells[i].1 == c;
        assert(more[i] == cells[i]);
    }
    if cell.0 == r && cell.1 == c {
        assert(more[cells.len() as int] == cell);
    }
}

/// Filtering by a predicate that every element meets changes nothing.
pub proof fn lemma_filter_keeps_all<A>(s: Seq<A>, pred: spec_fn(A) -> bool)
    requires
        forall|i: int| 0 <= i < s.len() ==> pred(#[trigger] s[i]),
    ensures
        s.filter(pred) == s,
    decreases s.len(),
{
    reveal(Seq::filter);
    if s.len() > 0 {
        lemma_filter_keeps_all(s.drop_last(), pred);
    }
}

/// Clearing keeps the size of a grid: as many rows go in on top as come out.
pub proof fn lemma_cleared_size(g: Grid)
    requires
        g.wf(),
    ensures
        g.kept().len() <= g.height(),
        g.cleared().height() == g.height(),
        g.cleared().width == g.width,
        g.cleared().wf(),
{
    let pred = |row: Seq<Option<PieceKind>>| !full(row);
    g.rows.lemma_filter_len(pred);
    let out = g.cleared();
    assert forall|r: int| 0 <= r < out.rows.len() implies (#[trigger] out.rows[r]).len()
        == out.width by {
        if r >= g.full_count() {
            let k = r - g.full_count();
            g.rows.lemma_filter_contains_rev(pred, g.kept()[k]);
        }
    }
}

/// A grid without a full row has nothing to clear: the count is zero and
/// clearing leaves the grid as it is.
pub proof fn lemma_clear_nothing(g: Grid)
    requires
        g.wf(),
        forall|r: int| 0 <= r < g.height() ==> !full(#[trigger] g.rows[r]),
    ensures
        g.full_count() == 0,
        g.cleared() == g,
{
    let pred = |row: Seq<Option<PieceKind>>| !full(row);
    lemma_filter_keeps_all(g.rows, pred);
}

/// A grid whose bottom row is its only full row: one row is cleared, the
/// top row afterwards is empty, and every row that was above the bottom one
/// stands one place lower with its cells as they were.
pub proof fn lemma_clear_bottom_row(g: Grid)
    requires
        g.wf(),
        g.height() >= 1,
        full(g.rows[g.height() - 1]),
        forall|r: int| 0 <= r < g.height() - 1 ==> !full(#[trigger] g.rows[r]),
    ensures
        g.full_count() == 1,
        g.cleared().height() == g.height(),
        g.cleared().rows[0] == empty_row(g.width),
        forall|r: int| 1 <= r < g.height() ==> #[trigger] g.cleared().rows[r] == g.rows[r - 1],
{
    let pred = |row: Seq<Option<PieceKind>>| !full(row);
    let above = g.rows.drop_last();
    lemma_filter_keeps_all(above, pred);
    assert(g.rows.filter(pred) == above) by {
        reveal(Seq::filter);
    }
}

/// The board: a grid of fixed size whose cells are empty or settled.
pub struct Board {
    rows: usize,
    cols: usize,
    cells: Vec<Vec<Option<PieceKind>>>,
}

impl View for Board {
    type V = Grid;

    closed spec fn view(&self) -> Grid {
        Grid {
            width: self.cols as nat,
            rows: Seq::new(self.cells.len() as nat, |r: int| self.cells[r]@),
        }
    }
}

/// A row of the given length with every cell empty.
fn new_row(cols: usize) -> (row: Vec<Option<PieceKind>>)
    ensures
        row@ == empty_row(cols as nat),
{
    let mut row: Vec<Option<PieceKind>> = Vec::new();
    while row.len() < cols
        invariant
            row.len() <= cols,
            forall|c: int| 0 <= c < row.len() ==> (#[trigger] row[c]).is_none(),
        decreases cols - row.len(),
    {
        row.push(None);
    }
    row
}

/// A copy of a row.
fn copy_row(src: &Vec<Option<PieceKind>>) -> (row: Vec<Option<PieceKind>>)
    ensures
        row@ == src@,
{
    let mut row: Vec<Option<PieceKind>> = Vec::new();
    let mut c: usize = 0;
    while c < src.len()
        invariant
            c <= src.len(),
            row.len() == c,
            forall|k: int| 0 <= k < c ==> #[trigger] row[k] == src[k],
        decreases src.len() - c,
    {
        row.push(src[c]);
        c += 1;
    }
    row
}

/// Whether no cell of the row is empty.
fn row_is_full(row: &Vec<Option<PieceKind>>) -> (b: bool)
    ensures
        b == full(row@),
{
    let mut c: usize = 0;
    while c < row.len()
        invariant
            c <= row.len(),
            forall|k: int| 0 <= k < c ==> (#[trigger] row[k]).is_some(),
        decreases row.len() - c,
    {
        if row[c].is_none() {
            return false;
        }
        c += 1;
    }
    true
}

impl Board {
    /// The stored rows agree with the stored size.
    pub closed spec fn wf(&self) -> bool {
        &&& self.cells.len() == self.rows
        &&& self.rows <= u16::MAX
        &&& self.cols <= u16::MAX
        &&& forall|r: int| 0 <= r < self.cells.len() ==> (#[trigger] self.cells[r]).len() == self.cols
    }

    /// A well-formed board stands for a well-formed grid whose sides fit in
    /// sixteen bits.
    pub proof fn lemma_wf(&self)
        requires
            self.wf(),
        ensures
            self@.wf(),
            self@.height() <= u16::MAX,
            self@.width <= u16::MAX,
    {
    }

    /// An empty board of the given size.
    pub fn new(rows: u16, cols: u16) -> (board: Board)
        ensures
            board.wf(),
            board@ == Grid::empty(rows as nat, cols as nat),
    {
        let mut cells: Vec<Vec<Option<PieceKind>>> = Vec::new();
        while cells.len() < rows as usize
            invariant
                cells.len() <= rows,
                forall|r: int| 0 <= r < cells.len() ==> (#[trigger] cells[r])@ == empty_row(cols as nat),
            decreases rows - cells.len(),
        {
            cells.push(new_row(cols as usize));
        }
        let board = Board { rows: rows as usize, cols: cols as usize, cells };
        assert(board@.rows =~= Grid::empty(rows as nat, cols as nat).rows);
        board
    }

    /// Number of rows.
    pub fn rows(&self) -> (n: usize)
        requires
            self.wf(),
        ensures
            n == self@.height(),
    {
        self.rows
    }

    /// Number of columns.
    pub fn cols(&self) -> (n: usize)
        ensures
            n == self@.width,
    {
        self.cols
    }

    /// What the cell at `(row, col)` holds; `None` for an empty cell and for
    /// a place outside the board.
    pub fn cell(&self, row: usize, col: usize) -> (cell: Option<PieceKind>)
        requires
            self.wf(),
        ensures
            cell == if self@.in_bounds(row as int, col as int) {
                self@.rows[row as int][col as int]
            } else {
                None
            },
    {
        if row < self.rows && col < self.cols {
            self.cells[row][col]
        } else {
            None
        }
    }

    /// Whether the cell lies on the board and is empty. A place outside the
    /// board, on any side, counts as blocked.
    pub fn is_cell_free(&self, row: i32, col: i32) -> (free: bool)
        requires
            self.wf(),
        ensures
            free == self@.is_free(row as int, col as int),
    {
        if row < 0 || col < 0 {
            return false;
        }
        let r: usize = row as usize;
        let c: usize = col as usize;
        r < self.rows && c < self.cols && self.cells[r][c].is_none()
    }

    /// Marks each listed cell as settled with `kind`; every other cell stays
    /// as it is.
    pub fn lock(&mut self, cells: &Vec<(usize, usize)>, kind: PieceKind)
        requires
            old(self).wf(),
            forall|i: int|
                0 <= i < cells.len() ==> old(self)@.in_bounds(
                    (#[trigger] cells[i]).0 as int,
                    cells[i].1 as int,
                ),
        ensures
            final(self).wf(),
            final(self)@ == old(self)@.locked(|r: int, c: int| listed(cells@, r, c), kind),
    {
        let ghost before = self@;
        let mut i: usize = 0;
        while i < cells.len()
            invariant
                self.wf(),
                i <= cells.len(),
                self@.width == before.width,
                self@.height() == before.height(),
                forall|k: int|
                    0 <= k < cells.len() ==> before.in_bounds(
                        (#[trigger] cells[k]).0 as int,
                        cells[k].1 as int,
                    ),
                forall|r: int, c: int|
                    before.in_bounds(r, c) ==> #[trigger] self@.rows[r][c] == (if listed(
                        cells@.take(i as int),
                        r,
                        c,
                    ) {
                        Some(kind)
                    } else {
                        before.rows[r][c]
                    }),
            decreases cells.len() - i,
        {
            let (r, c) = cells[i];
            let ghost prev = self@;
            self.cells[r][c] = Some(kind);
            proof {
                let next = cells@.take(i + 1);
                assert forall|rr: int, cc: int| before.in_bounds(rr, cc) implies #[trigger] self@.rows[rr][cc]
                    == (if listed(next, rr, cc) {
                    Some(kind)
                } else {
                    before.rows[rr][cc]
                }) by {
                    if rr == r && cc == c {
                        assert(next[i as int].0 == rr && next[i as int].1 == cc);
                    } else {
                        assert(self@.rows[rr][cc] == prev.rows[rr][cc]);
                    }
                }
            }
            i += 1;
        }
        proof {
            assert(cells@.take(cells.len() as int) =~= cells@);
            let goal = before.locked(|r: int, c: int| listed(cells@, r, c), kind);
            assert forall|r: int| 0 <= r < self@.rows.len() implies #[trigger] self@.rows[r]
                =~= goal.rows[r] by {}
            assert(self@.rows =~= goal.rows);
        }
    }

    /// Takes out every full row, puts as many empty rows in on top, and
    /// returns how many rows were cleared. The rows that stay keep their
    /// order.
    pub fn clear_full_rows(&mut self) -> (cleared: usize)
        requires
            old(self).wf(),
        ensures
            final(self).wf(),
            final(self)@ == old(self)@.cleared(),
            cleared == old(self)@.full_count(),
            final(self)@.height() == old(self)@.height(),
            final(self)@.width == old(self)@.width,
    {
        let ghost before = self@;
        let ghost pred = |row: Seq<Option<PieceKind>>| !full(row);
        proof {
            lemma_cleared_size(before);
        }
        let mut kept: Vec<Vec<Option<PieceKind>>> = Vec::new();
        let mut r: usize = 0;
        while r < self.rows
            invariant
                self.wf(),
                self@ == before,
                r <= self.rows,
                pred == |row: Seq<Option<PieceKind>>| !full(row),
                Seq::new(kept.len() as nat, |i: int| kept[i]@) == before.rows.take(r as int).filter(
                    pred,
                ),
                forall|i: int| 0 <= i < kept.len() ==> (#[trigger] kept[i]).len() == self.cols,
            decreases self.rows - r,
        {
            let ghost kept_before = Seq::new(kept.len() as nat, |i: int| kept[i]@);
            proof {
                assert(before.rows.take(r + 1) =~= before.rows.take(r as int).push(
                    before.rows[r as int],
                ));
                before.rows.take(r as int).lemma_filter_push(before.rows[r as int], pred);
            }
            if !row_is_full(&self.cells[r]) {
                kept.push(copy_row(&self.cells[r]));
                assert(Seq::new(kept.len() as nat, |i: int| kept[i]@) =~= kept_before.push(
                    before.rows[r as int],
                ));
            }
            r += 1;
        }
        proof {
            assert(before.rows.take(self.rows as int) =~= before.rows);
            before.rows.lemma_filter_len(pred);
        }
        let cleared: usize = self.rows - kept.len();
        let mut fresh: Vec<Vec<Option<PieceKind>>> = Vec::new();
        while fresh.len() < cleared
            invariant
                fresh.len() <= cleared,
                forall|i: int| 0 <= i < fresh.len() ==> (#[trigger] fresh[i])@ == empty_row(
                    self.cols as nat,
                ),
            decreases cleared - fresh.len(),
        {
            fresh.push(new_row(self.cols));
        }
        let ghost kept_rows = Seq::new(kept.len() as nat, |i: int| kept[i]@);
        fresh.append(&mut kept);
        self.cells = fresh;
        proof {
            assert(self@.rows =~= before.cleared().rows);
        }
        cleared
    }

    /// Empties every cell.
    pub fn reset(&mut self)
        requires
            old(self).wf(),
        ensures
            final(self).wf(),
            final(self)@ == Grid::empty(old(self)@.height(), old(self)@.width),
    {
        let mut cells: Vec<Vec<Option<PieceKind>>> = Vec::new();
        while cells.len() < self.rows
            invariant
                cells.len() <= self.rows,
                forall|r: int| 0 <= r < cells.len() ==> (#[trigger] cells[r])@ == empty_row(
                    self.cols as nat,
                ),
            decreases self.rows - cells.len(),
        {
            cells.push(new_row(self.cols));
        }
        self.cells = cells;
        assert(self@.rows =~= Grid::empty(old(self)@.height(), old(self)@.width).rows);
    }
}

} // verus!
