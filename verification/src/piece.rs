//! Pieces of the falling-block puzzle: the catalog of seven forms and the
//! quarter-turn rotation of a shape matrix.

use vstd::prelude::*;

verus! {

/// The seven catalog forms. The kind is also the tag under which a settled
/// cell remembers which piece it came from, and so the colour it is drawn in.
#[derive(Clone, Copy, PartialEq, Eq, Structural, Debug)]
pub enum PieceKind {
    I,
    O,
    T,
    S,
    Z,
    J,
    L,
}

/// Number of forms in the catalog.
pub const CATALOG_LEN: usize = 7;

/// Largest side of a catalog form's bounding box.
pub const MAX_SIDE: usize = 4;

/// Number of columns of a shape matrix: the length of its first row.
pub open spec fn width(s: Seq<Seq<bool>>) -> nat {
    if s.len() == 0 {
        0
    } else {
        s[0].len()
    }
}

/// Every row of the matrix has the same length.
pub open spec fn rectangular(s: Seq<Seq<bool>>) -> bool {
    forall|r: int| 0 <= r < s.len() ==> (#[trigger] s[r]).len() == width(s)
}

/// Row `r` holds at least one occupied cell.
pub open spec fn row_occupied(s: Seq<Seq<bool>>, r: int) -> bool {
    exists|c: int| 0 <= c < s[r].len() && #[trigger] s[r][c]
}

/// Column `c` holds at least one occupied cell.
pub open spec fn col_occupied(s: Seq<Seq<bool>>, c: int) -> bool {
    exists|r: int| 0 <= r < s.len() && (#[trigger] s[r])[c]
}

/// The bounding box is tight: no row and no column of it is entirely empty.
pub open spec fn tight(s: Seq<Seq<bool>>) -> bool {
    &&& forall|r: int| 0 <= r < s.len() ==> row_occupied(s, r)
    &&& forall|c: int| 0 <= c < width(s) ==> col_occupied(s, c)
}

/// A shape that a piece may carry: a rectangular matrix of one to four rows
/// and columns whose bounding box is tight.
pub open spec fn shape_wf(s: Seq<Seq<bool>>) -> bool {
    &&& 1 <= s.len() <= MAX_SIDE
    &&& 1 <= width(s) <= MAX_SIDE
    &&& rectangular(s)
    &&& tight(s)
}

/// The matrix turned a quarter clockwise: a shape of `R` rows and `C`
/// columns becomes one of `C` rows and `R` columns, and the cell at
/// `(r, c)` moves to `(c, R - 1 - r)`.
pub open spec fn rotated(s: Seq<Seq<bool>>) -> Seq<Seq<bool>> {
    Seq::new(width(s), |i: int| Seq::new(s.len(), |j: int| s[s.len() - 1 - j][i]))
}

/// The matrix that a vector of rows stands for.
pub open spec fn matrix(v: &Vec<Vec<bool>>) -> Seq<Seq<bool>> {
    Seq::new(v.len() as nat, |i: int| v[i]@)
}

/// Turns a shape matrix a quarter clockwise. The input is left as it is, and
/// nothing is checked against a board.
pub fn rotate(shape: &Vec<Vec<bool>>) -> (out: Vec<Vec<bool>>)
    requires
        shape.len() > 0,
        rectangular(matrix(shape)),
    ensures
        matrix(&out) == rotated(matrix(shape)),
{
    let rows: usize = shape.len();
    let cols: usize = shape[0].len();
    let mut out: Vec<Vec<bool>> = Vec::new();
    let mut c: usize = 0;
    while c < cols
        invariant
            rows == shape.len(),
            rows > 0,
            cols == width(matrix(shape)),
            rectangular(matrix(shape)),
            c <= cols,
            out.len() == c,
            forall|i: int| 0 <= i < c ==> (#[trigger] out[i])@ == rotated(matrix(shape))[i],
        decreases cols - c,
    {
        let mut line: Vec<bool> = Vec::new();
        let mut j: usize = 0;
        while j < rows
            invariant
                rows == shape.len(),
                cols == width(matrix(shape)),
                rectangular(matrix(shape)),
                c < cols,
                j <= rows,
                line.len() == j,
                forall|k: int| 0 <= k < j ==> #[trigger] line[k] == shape[rows - 1 - k][c as int],
            decreases rows - j,
        {
            assert(matrix(shape)[rows - 1 - j].len() == cols);
            line.push(shape[rows - 1 - j][c]);
            j += 1;
        }
        out.push(line);
        c += 1;
    }
    out
}

/// Four quarter turns bring every non-empty rectangular shape back to
/// itself.
pub proof fn lemma_rotate_four_times(s: Seq<Seq<bool>>)
    requires
        s.len() >= 1,
        width(s) >= 1,
        rectangular(s),
    ensures
        rotated(rotated(rotated(rotated(s)))) == s,
{
    let a = rotated(s);
    let b = rotated(a);
    let c = rotated(b);
    let d = rotated(c);
    lemma_rotated_dims(s);
    lemma_rotated_dims(a);
    lemma_rotated_dims(b);
    lemma_rotated_dims(c);
    assert forall|r: int| 0 <= r < s.len() implies #[trigger] d[r] =~= s[r] by {}
}

/// A quarter turn swaps the two dimensions and keeps the matrix rectangular.
pub proof fn lemma_rotated_dims(s: Seq<Seq<bool>>)
    requires
        s.len() >= 1,
        rectangular(s),
    ensures
        rotated(s).len() == width(s),
        width(s) >= 1 ==> width(rotated(s)) == s.len(),
        rectangular(rotated(s)),
{
}

/// A quarter turn of a well-formed shape is a well-formed shape.
pub proof fn lemma_rotated_wf(s: Seq<Seq<bool>>)
    requires
        shape_wf(s),
    ensures
        shape_wf(rotated(s)),
{
    let t = rotated(s);
    lemma_rotated_dims(s);
    assert forall|i: int| 0 <= i < t.len() implies row_occupied(t, i) by {
        assert(col_occupied(s, i));
        let r = choose|r: int| 0 <= r < s.len() && (#[trigger] s[r])[i];
        let j = s.len() - 1 - r;
        assert(t[i][j] == s[r][i]);
    }
    assert forall|j: int| 0 <= j < width(t) implies col_occupied(t, j) by {
        let r = s.len() - 1 - j;
        assert(row_occupied(s, r));
        let c = choose|c: int| 0 <= c < s[r].len() && #[trigger] s[r][c];
        assert(t[c][j] == s[r][c]);
    }
}

impl PieceKind {
    /// The kind at a position of the catalog, which lists the forms in the
    /// order I, O, T, S, Z, J, L; `None` past its end.
    pub open spec fn spec_from_index(i: int) -> Option<PieceKind> {
        if i == 0 {
            Some(PieceKind::I)
        } else if i == 1 {
            Some(PieceKind::O)
        } else if i == 2 {
            Some(PieceKind::T)
        } else if i == 3 {
            Some(PieceKind::S)
        } else if i == 4 {
            Some(PieceKind::Z)
        } else if i == 5 {
            Some(PieceKind::J)
        } else if i == 6 {
            Some(PieceKind::L)
        } else {
            None
        }
    }

    /// The position of this kind in the catalog.
    pub open spec fn spec_index(self) -> int {
        match self {
            PieceKind::I => 0,
            PieceKind::O => 1,
            PieceKind::T => 2,
            PieceKind::S => 3,
            PieceKind::Z => 4,
            PieceKind::J => 5,
            PieceKind::L => 6,
        }
    }

    /// Looks a kind up by its position in the catalog.
    pub fn from_index(i: usize) -> (kind: Option<PieceKind>)
        ensures
            kind == Self::spec_from_index(i as int),
            kind.is_some() <==> i < CATALOG_LEN,
    {
        match i {
            0 => Some(PieceKind::I),
            1 => Some(PieceKind::O),
            2 => Some(PieceKind::T),
            3 => Some(PieceKind::S),
            4 => Some(PieceKind::Z),
            5 => Some(PieceKind::J),
            6 => Some(PieceKind::L),
            _ => None,
        }
    }

    /// The position of this kind in the catalog.
    pub fn index(self) -> (i: usize)
        ensures
            i == self.spec_index(),
            i < CATALOG_LEN,
            Self::spec_from_index(i as int) == Some(self),
    {
        match self {
            PieceKind::I => 0,
            PieceKind::O => 1,
            PieceKind::T => 2,
            PieceKind::S => 3,
            PieceKind::Z => 4,
            PieceKind::J => 5,
            PieceKind::L => 6,
        }
    }
}

/// The canonical shape of each catalog form, as it spawns.
pub open spec fn catalog_shape(kind: PieceKind) -> Seq<Seq<bool>> {
    match kind {
        PieceKind::I => seq![seq![true, true, true, true]],
        PieceKind::O => seq![seq![true, true], seq![true, true]],
        PieceKind::T => seq![seq![false, true, false], seq![true, true, true]],
        PieceKind::S => seq![seq![false, true, true], seq![true, true, false]],
        PieceKind::Z => seq![seq![true, true, false], seq![false, true, true]],
        PieceKind::J => seq![seq![true, false, false], seq![true, true, true]],
        PieceKind::L => seq![seq![false, false, true], seq![true, true, true]],
    }
}

/// Every catalog shape is well formed.
pub proof fn lemma_catalog_wf(kind: PieceKind)
    ensures
        shape_wf(catalog_shape(kind)),
{
}

/// Four quarter turns bring each catalog shape back to itself.
pub proof fn lemma_catalog_rotate_four_times(kind: PieceKind)
    ensures
        rotated(rotated(rotated(rotated(catalog_shape(kind))))) == catalog_shape(kind),
{
    lemma_catalog_wf(kind);
    lemma_rotate_four_times(catalog_shape(kind));
}

/// What a piece is: its shape matrix and its kind.
pub struct Piece {
    pub shape: Seq<Seq<bool>>,
    pub kind: PieceKind,
}

/// A piece of the puzzle: a shape matrix, possibly turned, and the kind that
/// it was drawn from the catalog as.
pub struct Tetromino {
    shape: Vec<Vec<bool>>,
    kind: PieceKind,
}

impl View for Tetromino {
    type V = Piece;

    closed spec fn view(&self) -> Piece {
        Piece { shape: matrix(&self.shape), kind: self.kind }
    }
}

/// Copies a matrix row by row.
fn copy_matrix(src: &Vec<Vec<bool>>) -> (out: Vec<Vec<bool>>)
    ensures
        matrix(&out) == matrix(src),
{
    let mut out: Vec<Vec<bool>> = Vec::new();
    let mut r: usize = 0;
    while r < src.len()
        invariant
            r <= src.len(),
            out.len() == r,
            forall|i: int| 0 <= i < r ==> (#[trigger] out[i])@ == src[i]@,
        decreases src.len() - r,
    {
        let mut line: Vec<bool> = Vec::new();
        let mut c: usize = 0;
        while c < src[r].len()
            invariant
                r < src.len(),
                c <= src[r as int].len(),
                line.len() == c,
                forall|k: int| 0 <= k < c ==> #[trigger] line[k] == src[r as int][k],
            decreases src[r as int].len() - c,
        {
            line.push(src[r][c]);
            c += 1;
        }
        out.push(line);
        r += 1;
    }
    out
}

impl Tetromino {
    /// The shape is one that a piece may carry.
    pub open spec fn wf(&self) -> bool {
        shape_wf(self@.shape)
    }

    /// A fresh piece of the given kind in its canonical orientation.
    pub fn catalog(kind: PieceKind) -> (piece: Tetromino)
        ensures
            piece@ == (Piece { shape: catalog_shape(kind), kind }),
            piece.wf(),
    {
        let shape: Vec<Vec<bool>> = match kind {
            PieceKind::I => vec![vec![true, true, true, true]],
            PieceKind::O => vec![vec![true, true], vec![true, true]],
            PieceKind::T => vec![vec![false, true, false], vec![true, true, true]],
            PieceKind::S => vec![vec![false, true, true], vec![true, true, false]],
            PieceKind::Z => vec![vec![true, true, false], vec![false, true, true]],
            PieceKind::J => vec![vec![true, false, false], vec![true, true, true]],
            PieceKind::L => vec![vec![false, false, true], vec![true, true, true]],
        };
        proof {
            let m = matrix(&shape);
            let s = catalog_shape(kind);
            assert forall|r: int| 0 <= r < m.len() implies #[trigger] m[r] =~= s[r] by {}
            assert(m =~= s);
            lemma_catalog_wf(kind);
        }
        Tetromino { shape, kind }
    }

    /// The same piece turned a quarter clockwise.
    pub fn rotated(&self) -> (piece: Tetromino)
        requires
            self.wf(),
        ensures
            piece@ == (Piece { shape: rotated(self@.shape), kind: self@.kind }),
            piece.wf(),
    {
        proof {
            lemma_rotated_wf(self@.shape);
        }
        Tetromino { shape: rotate(&self.shape), kind: self.kind }
    }

    /// The shape matrix, row by row.
    pub fn shape(&self) -> (shape: &Vec<Vec<bool>>)
        ensures
            matrix(shape) == self@.shape,
    {
        &self.shape
    }

    /// The kind that the piece was drawn as.
    pub fn kind(&self) -> (kind: PieceKind)
        ensures
            kind == self@.kind,
    {
        self.kind
    }

    /// Number of rows of the shape matrix.
    pub fn height(&self) -> (h: usize)
        ensures
            h == self@.shape.len(),
    {
        self.shape.len()
    }

    /// Number of columns of the shape matrix.
    pub fn width(&self) -> (w: usize)
        ensures
            w == width(self@.shape),
    {
        if self.shape.len() == 0 {
            0
        } else {
            self.shape[0].len()
        }
    }

    /// Whether the shape occupies the cell at `(r, c)` of its matrix; cells
    /// outside the matrix are not occupied.
    pub fn occupies(&self, r: usize, c: usize) -> (b: bool)
        ensures
            b == (r < self@.shape.len() && c < self@.shape[r as int].len()
                && self@.shape[r as int][c as int]),
    {
        r < self.shape.len() && c < self.shape[r].len() && self.shape[r][c]
    }
}

impl Clone for Tetromino {
    fn clone(&self) -> (piece: Tetromino)
        ensures
            piece@ == self@,
    {
        Tetromino { shape: copy_matrix(&self.shape), kind: self.kind }
    }
}

} // verus!
