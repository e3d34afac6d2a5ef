//! The falling-block puzzle: one session of it, and the rules by which a
//! piece moves, turns, settles and scores.
//!
//! A turn that does not fit where the piece stands is dropped; no other
//! place is tried for it.

use vstd::prelude::*;
use crate::board::{lemma_cleared_size, lemma_listed_push, listed, Board, Grid};
use crate::input::{Frame, Keys};
use crate::piece::{catalog_shape, matrix, rotated, row_occupied, shape_wf, width};
use crate::piece::{lemma_catalog_wf, lemma_rotated_wf};
use crate::piece::{Piece, PieceKind, Tetromino, CATALOG_LEN};
use crate::random::random_below;
use crate::shell::Game;

verus! {

/// Rows of the board that a new game starts on.
pub const ROWS: u16 = 20;

/// Columns of the board that a new game starts on.
pub const COLS: u16 = 10;

/// Milliseconds between two automatic drops.
pub const DROP_INTERVAL: u64 = 500;

/// Whether a session is running or has ended. Settling a piece takes place
/// within one tick and is no phase of its own between ticks.
#[derive(Clone, Copy, PartialEq, Eq, Structural, Debug)]
pub enum Phase {
    Falling,
    GameOver,
}

/// A piece cell may stand at `(r, c)`: the column is on the board, the row
/// is not below the floor, and a cell on the board is free. A row above the
/// top edge is not looked up.
pub open spec fn cell_ok(grid: Grid, r: int, c: int) -> bool {
    &&& 0 <= c < grid.width
    &&& r < grid.height()
    &&& r >= 0 ==> grid.is_free(r, c)
}

/// The shape may stand with its matrix origin at `(row, col)`: each of its
/// occupied cells may stand where that puts it.
pub open spec fn fits(grid: Grid, shape: Seq<Seq<bool>>, row: int, col: int) -> bool {
    forall|i: int, j: int|
        0 <= i < shape.len() && 0 <= j < shape[i].len() && #[trigger] shape[i][j] ==> cell_ok(
            grid,
            row + i,
            col + j,
        )
}

/// The shape, standing at `(row, col)`, occupies the board cell `(r, c)`.
pub open spec fn covers(shape: Seq<Seq<bool>>, row: int, col: int, r: int, c: int) -> bool {
    &&& 0 <= r - row < shape.len()
    &&& 0 <= c - col < shape[r - row].len()
    &&& shape[r - row][c - col]
}

/// The column at which a piece spawns on a board of the given width.
pub open spec fn spawn_col(width: nat) -> int {
    width as int / 2 - 2
}

/// Points for clearing `n` rows with one piece: the square of `n`, times a
/// hundred.
pub open spec fn bonus(n: nat) -> nat {
    n * n * 100
}

/// The score after `points` are added; it stops at the largest value that
/// the counter holds.
pub open spec fn add_points(score: nat, points: nat) -> nat {
    if score + points > u64::MAX {
        u64::MAX as nat
    } else {
        score + points
    }
}

/// What a session is.
pub struct Session {
    /// The settled cells.
    pub grid: Grid,
    /// The piece in play.
    pub piece: Piece,
    /// Board row of the origin of the piece's matrix.
    pub row: int,
    /// Board column of the origin of the piece's matrix.
    pub col: int,
    pub score: nat,
    /// Clock reading at the last automatic drop.
    pub last_drop: nat,
    pub phase: Phase,
    /// Kinds that are to spawn next, in order; once it is empty the kinds are
    /// drawn at random.
    pub queue: Seq<PieceKind>,
}

impl Session {
    /// The grid and the shape are well formed, the score is one that the
    /// counter holds, and while the piece is falling it stands at or below
    /// the top edge, clear of every settled cell and within the walls and the
    /// floor.
    pub open spec fn wf(self) -> bool {
        &&& self.grid.wf()
        &&& self.grid.height() <= u16::MAX
        &&& self.grid.width <= u16::MAX
        &&& shape_wf(self.piece.shape)
        &&& self.score <= u64::MAX
        &&& self.phase is Falling ==> self.row >= 0 && self.valid_at(0, 0)
    }

    /// `kind` may be the next to spawn: it heads the queue, or the queue is
    /// empty.
    pub open spec fn may_draw(self, kind: PieceKind) -> bool {
        self.queue.len() > 0 ==> kind == self.queue[0]
    }

    /// A kind that may be the next to spawn, whatever the queue holds.
    pub open spec fn next_hint(self) -> PieceKind {
        if self.queue.len() > 0 {
            self.queue[0]
        } else {
            PieceKind::I
        }
    }

    /// The queue once the next kind is taken.
    pub open spec fn queue_after_draw(self) -> Seq<PieceKind> {
        if self.queue.len() > 0 {
            self.queue.skip(1)
        } else {
            self.queue
        }
    }

    /// The piece may stand at its place shifted by `(dr, dc)`.
    pub open spec fn valid_at(self, dr: int, dc: int) -> bool {
        fits(self.grid, self.piece.shape, self.row + dr, self.col + dc)
    }

    /// The piece shifted by `(dr, dc)` where it may stand there; the session
    /// as it is where not.
    pub open spec fn moved(self, dr: int, dc: int) -> Session {
        if self.valid_at(dr, dc) {
            Session { row: self.row + dr, col: self.col + dc, ..self }
        } else {
            self
        }
    }

    /// The piece turned a quarter clockwise about its matrix origin where
    /// the turned shape may stand there; the session as it is where not.
    pub open spec fn turned(self) -> Session {
        let shape = rotated(self.piece.shape);
        if fits(self.grid, shape, self.row, self.col) {
            Session { piece: Piece { shape, kind: self.piece.kind }, ..self }
        } else {
            self
        }
    }

    /// The session after the keys of one frame: left, right, down and turn,
    /// each tried in this order on what the one before left. A session that
    /// is over takes none of them.
    pub open spec fn after_input(self, keys: Keys) -> Session {
        if self.phase is GameOver {
            self
        } else {
            let a = if keys.left {
                self.moved(0, -1)
            } else {
                self
            };
            let b = if keys.right {
                a.moved(0, 1)
            } else {
                a
            };
            let c = if keys.down {
                b.moved(1, 0)
            } else {
                b
            };
            if keys.up {
                c.turned()
            } else {
                c
            }
        }
    }

    /// The piece's cells written into the grid.
    pub open spec fn settled(self) -> Session {
        Session {
            grid: self.grid.locked(
                |r: int, c: int| covers(self.piece.shape, self.row, self.col, r, c),
                self.piece.kind,
            ),
            ..self
        }
    }

    /// Full rows cleared and paid for.
    pub open spec fn swept(self) -> Session {
        Session {
            grid: self.grid.cleared(),
            score: add_points(self.score, bonus(self.grid.full_count())),
            ..self
        }
    }

    /// A fresh piece of `kind` at the spawn place, taken from the queue's
    /// head where there is one. The session is over if the piece does not fit
    /// there, and falling if it does.
    pub open spec fn spawned(self, kind: PieceKind) -> Session {
        let placed = Session {
            piece: Piece { shape: catalog_shape(kind), kind },
            row: 0,
            col: spawn_col(self.grid.width),
            queue: self.queue_after_draw(),
            ..self
        };
        Session {
            phase: if placed.valid_at(0, 0) {
                Phase::Falling
            } else {
                Phase::GameOver
            },
            ..placed
        }
    }

    /// The piece settles, full rows go, and `kind` spawns.
    pub open spec fn locked_next(self, kind: PieceKind) -> Session {
        self.settled().swept().spawned(kind)
    }

    /// An automatic drop is due at `now`.
    pub open spec fn drop_due(self, now: nat) -> bool {
        now - self.last_drop >= DROP_INTERVAL
    }

    /// The session after the clock is read as `now`. Nothing happens before
    /// a drop is due or once the session is over. When a drop is due the
    /// timer restarts, and the piece goes down one row if it can and
    /// otherwise settles, with `kind` spawning after it.
    pub open spec fn updated(self, now: nat, kind: PieceKind) -> Session {
        if self.phase is GameOver || !self.drop_due(now) {
            self
        } else {
            let timed = Session { last_drop: now, ..self };
            if timed.valid_at(1, 0) {
                timed.moved(1, 0)
            } else {
                timed.locked_next(kind)
            }
        }
    }

    /// The session after one frame. Escape leaves it untouched; otherwise
    /// the keys are applied and then the clock.
    pub open spec fn ticked(self, frame: Frame, kind: PieceKind) -> Session {
        if frame.keys.escape {
            self
        } else {
            self.after_input(frame.keys).updated(frame.now as nat, kind)
        }
    }

    /// Whether the frame ends with a request to leave: escape was pressed,
    /// or the session is over after the frame and space was pressed.
    pub open spec fn exits(self, frame: Frame, kind: PieceKind) -> bool {
        frame.keys.escape || (self.ticked(frame, kind).phase is GameOver && frame.keys.space)
    }

    /// A session that starts on `grid` with a piece of `kind` spawning and
    /// `queue` to follow.
    pub open spec fn opening(grid: Grid, kind: PieceKind, queue: Seq<PieceKind>) -> Session {
        Session {
            grid,
            piece: Piece { shape: catalog_shape(kind), kind },
            row: 0,
            col: spawn_col(grid.width),
            score: 0,
            last_drop: 0,
            phase: if fits(grid, catalog_shape(kind), 0, spawn_col(grid.width)) {
                Phase::Falling
            } else {
                Phase::GameOver
            },
            queue,
        }
    }

    /// The session started over on an empty board of the same size, with
    /// `kind` spawning.
    pub open spec fn restarted(self, kind: PieceKind) -> Session {
        Session::opening(
            Grid::empty(self.grid.height(), self.grid.width),
            kind,
            self.queue_after_draw(),
        )
    }
}

/// A move that the position test accepts puts no occupied cell of the piece
/// on a settled cell of the board, nor outside the columns of the board.
pub proof fn lemma_accepted_move_is_clear(s: Session, dr: int, dc: int)
    requires
        s.valid_at(dr, dc),
    ensures
        s.moved(dr, dc).row == s.row + dr,
        s.moved(dr, dc).col == s.col + dc,
        forall|r: int, c: int| #[trigger]
            covers(s.piece.shape, s.moved(dr, dc).row, s.moved(dr, dc).col, r, c) ==> {
                &&& 0 <= c < s.grid.width
                &&& r < s.grid.height()
                &&& r >= 0 ==> s.grid.rows[r][c].is_none()
            },
{
}

/// The points for zero to four rows are 0, 100, 400, 900 and 1600.
pub proof fn lemma_bonus_table()
    ensures
        bonus(0) == 0,
        bonus(1) == 100,
        bonus(2) == 400,
        bonus(3) == 900,
        bonus(4) == 1600,
{
}

/// Settling a piece adds the points for the rows that it fills, and nothing
/// else, to the score: for `n` rows cleared at once, `n * n * 100`.
pub proof fn lemma_lock_adds_bonus(s: Session, kind: PieceKind)
    ensures
        s.locked_next(kind).score == add_points(s.score, bonus(s.settled().grid.full_count())),
        s.score + bonus(s.settled().grid.full_count()) <= u64::MAX ==> s.locked_next(kind).score
            == s.score + s.settled().grid.full_count() * s.settled().grid.full_count() * 100,
{
}

/// When a drop is due, the falling piece cannot go down, and the piece that
/// is to spawn does not fit at the spawn place of the board as the settled
/// piece leaves it, the frame ends with the session over; it then asks to
/// leave exactly when space is pressed.
pub proof fn lemma_spawn_collision_ends_game(s: Session, frame: Frame, kind: PieceKind)
    requires
        !frame.keys.escape,
        s.after_input(frame.keys).phase is Falling,
        s.after_input(frame.keys).drop_due(frame.now as nat),
        !s.after_input(frame.keys).valid_at(1, 0),
        !fits(
            s.after_input(frame.keys).settled().swept().grid,
            catalog_shape(kind),
            0,
            spawn_col(s.grid.width),
        ),
    ensures
        s.ticked(frame, kind).phase is GameOver,
        s.exits(frame, kind) == frame.keys.space,
{
}

/// A session that is over stays as it is whatever the frame holds, and asks
/// to leave exactly when escape or space is pressed.
pub proof fn lemma_game_over_is_terminal(s: Session, frame: Frame, kind: PieceKind)
    requires
        s.phase is GameOver,
    ensures
        s.ticked(frame, kind) == s,
        s.exits(frame, kind) == (frame.keys.escape || frame.keys.space),
{
}

/// Every frame takes a well-formed session to a well-formed session: while
/// a piece is falling it overlaps no settled cell and stays within the walls
/// and above the floor.
pub proof fn lemma_ticked_wf(s: Session, frame: Frame, kind: PieceKind)
    requires
        s.wf(),
    ensures
        s.ticked(frame, kind).wf(),
{
    if !frame.keys.escape {
        lemma_after_input_wf(s, frame.keys);
        lemma_updated_wf(s.after_input(frame.keys), frame.now as nat, kind);
    }
}

/// A frame takes no points away, does not turn the drop timer back, and
/// leaves the size of the board as it is.
pub proof fn lemma_ticked_monotone(s: Session, frame: Frame, kind: PieceKind)
    requires
        s.wf(),
    ensures
        s.ticked(frame, kind).score >= s.score,
        s.ticked(frame, kind).last_drop >= s.last_drop,
        s.ticked(frame, kind).grid.height() == s.grid.height(),
        s.ticked(frame, kind).grid.width == s.grid.width,
{
    let played = s.after_input(frame.keys);
    lemma_after_input_wf(s, frame.keys);
    lemma_cleared_size((Session { last_drop: frame.now as nat, ..played }).settled().grid);
}

/// Moving by one step down or sideways keeps a falling session well formed.
pub proof fn lemma_moved_wf(s: Session, dr: int, dc: int)
    requires
        s.wf(),
        dr >= 0,
    ensures
        s.moved(dr, dc).wf(),
{
}

/// Turning keeps a session well formed.
pub proof fn lemma_turned_wf(s: Session)
    requires
        s.wf(),
    ensures
        s.turned().wf(),
{
    lemma_rotated_wf(s.piece.shape);
}

/// The keys of a frame keep a session well formed.
pub proof fn lemma_after_input_wf(s: Session, keys: Keys)
    requires
        s.wf(),
    ensures
        s.after_input(keys).wf(),
        s.after_input(keys).phase == s.phase,
{
    if s.phase is Falling {
        let a = if keys.left {
            s.moved(0, -1)
        } else {
            s
        };
        lemma_moved_wf(s, 0, -1);
        let b = if keys.right {
            a.moved(0, 1)
        } else {
            a
        };
        lemma_moved_wf(a, 0, 1);
        let c = if keys.down {
            b.moved(1, 0)
        } else {
            b
        };
        lemma_moved_wf(b, 1, 0);
        lemma_turned_wf(c);
    }
}

/// Reading the clock keeps a session well formed.
pub proof fn lemma_updated_wf(s: Session, now: nat, kind: PieceKind)
    requires
        s.wf(),
    ensures
        s.updated(now, kind).wf(),
{
    if s.phase is Falling && s.drop_due(now) {
        let timed = Session { last_drop: now, ..s };
        if timed.valid_at(1, 0) {
            lemma_moved_wf(timed, 1, 0);
        } else {
            lemma_cleared_size(timed.settled().grid);
            lemma_catalog_wf(kind);
        }
    }
}

/// A shape that fits on a grid of sixteen-bit sides stands within four cells
/// of the left wall and above the floor.
pub proof fn lemma_fits_bounds(grid: Grid, shape: Seq<Seq<bool>>, row: int, col: int)
    requires
        shape_wf(shape),
        fits(grid, shape, row, col),
        grid.height() <= u16::MAX,
        grid.width <= u16::MAX,
    ensures
        -4 < col < u16::MAX,
        row < u16::MAX,
{
    assert(row_occupied(shape, 0));
}

/// A kind drawn at random, each form of the catalog being one that may come.
pub fn random_kind() -> (kind: PieceKind) {
    let i: usize = random_below(CATALOG_LEN);
    PieceKind::from_index(i).unwrap()
}

/// Where the kinds of the coming pieces are taken from: a script while it
/// lasts, chance after that.
pub struct PieceSource {
    script: Vec<PieceKind>,
    cursor: usize,
}

impl View for PieceSource {
    type V = Seq<PieceKind>;

    /// What is left of the script.
    closed spec fn view(&self) -> Seq<PieceKind> {
        self.script@.skip(self.cursor as int)
    }
}

impl PieceSource {
    /// The cursor stands within the script.
    pub closed spec fn wf(&self) -> bool {
        self.cursor <= self.script.len()
    }

    /// A source without a script: every kind is drawn at random.
    pub fn random() -> (source: PieceSource)
        ensures
            source.wf(),
            source@ == Seq::<PieceKind>::empty(),
    {
        PieceSource { script: Vec::new(), cursor: 0 }
    }

    /// A source that hands out the kinds of `script` in order before it
    /// turns to chance.
    pub fn scripted(script: Vec<PieceKind>) -> (source: PieceSource)
        ensures
            source.wf(),
            source@ == script@,
    {
        PieceSource { script, cursor: 0 }
    }

    /// Takes the next kind: the head of what is left of the script, or a
    /// random kind once nothing is left.
    pub fn draw(&mut self) -> (kind: PieceKind)
        requires
            old(self).wf(),
        ensures
            final(self).wf(),
            old(self)@.len() > 0 ==> kind == old(self)@[0] && final(self)@ == old(self)@.skip(1),
            old(self)@.len() == 0 ==> final(self)@ == old(self)@,
    {
        if self.cursor < self.script.len() {
            let kind = self.script[self.cursor];
            self.cursor += 1;
            kind
        } else {
            random_kind()
        }
    }
}

/// One session of the puzzle: the board, the piece in play and where it
/// stands, the score and the drop timer.
pub struct TetrisGame {
    board: Board,
    current_piece: Tetromino,
    piece_pos: (i32, i32),
    score: u64,
    last_drop: u64,
    phase: Phase,
    source: PieceSource,
}

impl View for TetrisGame {
    type V = Session;

    closed spec fn view(&self) -> Session {
        Session {
            grid: self.board@,
            piece: self.current_piece@,
            row: self.piece_pos.0 as int,
            col: self.piece_pos.1 as int,
            score: self.score as nat,
            last_drop: self.last_drop as nat,
            phase: self.phase,
            queue: self.source@,
        }
    }
}

/// Whether the piece may stand on the board with its matrix origin at
/// `(row, col)`.
fn piece_fits(board: &Board, piece: &Tetromino, row: i64, col: i64) -> (ok: bool)
    requires
        board.wf(),
        piece.wf(),
        -0x1_0000_0000 <= row <= 0x1_0000_0000,
        -0x1_0000_0000 <= col <= 0x1_0000_0000,
    ensures
        ok == fits(board@, piece@.shape, row as int, col as int),
{
    proof {
        board.lemma_wf();
    }
    let shape = piece.shape();
    let rows: i64 = board.rows() as i64;
    let cols: i64 = board.cols() as i64;
    let mut y: usize = 0;
    while y < shape.len()
        invariant
            board.wf(),
            piece.wf(),
            matrix(shape) == piece@.shape,
            rows == board@.height(),
            cols == board@.width,
            rows <= u16::MAX,
            cols <= u16::MAX,
            -0x1_0000_0000 <= row <= 0x1_0000_0000,
            -0x1_0000_0000 <= col <= 0x1_0000_0000,
            y <= shape.len(),
            forall|i: int, j: int|
                0 <= i < y && 0 <= j < piece@.shape[i].len() && #[trigger] piece@.shape[i][j]
                    ==> cell_ok(board@, row + i, col + j),
        decreases shape.len() - y,
    {
        let mut x: usize = 0;
        assert(piece@.shape[y as int].len() == width(piece@.shape));
        while x < shape[y].len()
            invariant
                board.wf(),
                piece.wf(),
                matrix(shape) == piece@.shape,
                rows == board@.height(),
                cols == board@.width,
                rows <= u16::MAX,
                cols <= u16::MAX,
                -0x1_0000_0000 <= row <= 0x1_0000_0000,
                -0x1_0000_0000 <= col <= 0x1_0000_0000,
                y < shape.len(),
                shape.len() <= 4,
                shape[y as int].len() <= 4,
                piece@.shape[y as int] == shape[y as int]@,
                x <= shape[y as int].len(),
                forall|j: int|
                    0 <= j < x && #[trigger] piece@.shape[y as int][j] ==> cell_ok(
                        board@,
                        row + y,
                        col + j,
                    ),
            decreases shape[y as int].len() - x,
        {
            if shape[y][x] {
                let nx: i64 = col + x as i64;
                let ny: i64 = row + y as i64;
                if nx < 0 || nx >= cols || ny >= rows {
                    return false;
                }
                if ny >= 0 && !board.is_cell_free(ny as i32, nx as i32) {
                    return false;
                }
            }
            x += 1;
        }
        y += 1;
    }
    true
}

impl TetrisGame {
    /// The parts are well formed each by itself.
    spec fn parts_wf(&self) -> bool {
        &&& self.board.wf()
        &&& self.current_piece.wf()
        &&& self.source.wf()
    }

    /// The parts are well formed and make up a well-formed session.
    pub closed spec fn wf(&self) -> bool {
        self.parts_wf() && self@.wf()
    }

    /// A well-formed game stands for a well-formed session.
    pub proof fn lemma_wf(&self)
        requires
            self.wf(),
        ensures
            self@.wf(),
    {
    }

    /// A piece drawn at random from the catalog, in its canonical
    /// orientation.
    pub fn random_tetromino() -> (piece: Tetromino)
        ensures
            piece.wf(),
            piece@.shape == catalog_shape(piece@.kind),
    {
        Tetromino::catalog(random_kind())
    }

    /// A new game on an empty board of twenty rows and ten columns, with a
    /// random first piece and random pieces to follow.
    pub fn new() -> (game: TetrisGame)
        ensures
            game.wf(),
            game@ == Session::opening(
                Grid::empty(ROWS as nat, COLS as nat),
                game@.piece.kind,
                Seq::empty(),
            ),
    {
        let mut game = TetrisGame {
            board: Board::new(ROWS, COLS),
            current_piece: Self::random_tetromino(),
            piece_pos: (0, COLS as i32 / 2 - 2),
            score: 0,
            last_drop: 0,
            phase: Phase::Falling,
            source: PieceSource::random(),
        };
        game.spawn_piece();
        game
    }

    /// A game on the given board in which a piece of kind `first` spawns and
    /// the kinds of `script` follow it in order, before chance takes over.
    pub fn scripted(board: Board, first: PieceKind, script: Vec<PieceKind>) -> (game: TetrisGame)
        requires
            board.wf(),
        ensures
            game.wf(),
            game@ == Session::opening(board@, first, script@),
    {
        let mut game = TetrisGame {
            board,
            current_piece: Tetromino::catalog(first),
            piece_pos: (0, 0),
            score: 0,
            last_drop: 0,
            phase: Phase::Falling,
            source: PieceSource::scripted(script),
        };
        game.place_piece(first);
        game
    }

    /// Puts a fresh piece of `kind` at the spawn place and sets the phase by
    /// whether it fits there.
    fn place_piece(&mut self, kind: PieceKind)
        requires
            old(self).parts_wf(),
        ensures
            final(self).wf(),
            final(self)@ == (Session { queue: old(self)@.queue, ..old(self)@.spawned(kind) }),
    {
        proof {
            self.board.lemma_wf();
        }
        self.current_piece = Tetromino::catalog(kind);
        let col: i32 = self.board.cols() as i32 / 2 - 2;
        self.piece_pos = (0, col);
        if piece_fits(&self.board, &self.current_piece, 0, col as i64) {
            self.phase = Phase::Falling;
        } else {
            self.phase = Phase::GameOver;
        }
    }

    /// Draws the next kind and puts a fresh piece of it at the spawn place.
    fn spawn_piece(&mut self)
        requires
            old(self).parts_wf(),
        ensures
            final(self).wf(),
            old(self)@.may_draw(final(self)@.piece.kind),
            final(self)@ == old(self)@.spawned(final(self)@.piece.kind),
    {
        let kind = self.source.draw();
        self.place_piece(kind);
    }

    /// Whether the piece may stand at its place shifted by `offset_y` rows
    /// and `offset_x` columns.
    pub fn is_valid_position(&self, offset_y: i32, offset_x: i32) -> (ok: bool)
        requires
            self.wf(),
        ensures
            ok == self@.valid_at(offset_y as int, offset_x as int),
    {
        piece_fits(
            &self.board,
            &self.current_piece,
            self.piece_pos.0 as i64 + offset_y as i64,
            self.piece_pos.1 as i64 + offset_x as i64,
        )
    }

    /// Shifts the falling piece by one step if it may stand there.
    fn try_move(&mut self, dy: i32, dx: i32)
        requires
            old(self).wf(),
            old(self)@.phase is Falling,
            0 <= dy <= 1,
            -1 <= dx <= 1,
        ensures
            final(self).wf(),
            final(self)@ == old(self)@.moved(dy as int, dx as int),
    {
        if self.is_valid_position(dy, dx) {
            proof {
                self.board.lemma_wf();
                lemma_fits_bounds(self@.grid, self@.piece.shape, self@.row + dy, self@.col + dx);
            }
            self.piece_pos = (self.piece_pos.0 + dy, self.piece_pos.1 + dx);
        }
    }

    /// Turns the piece a quarter clockwise if the turned shape may stand
    /// where the piece is; otherwise the piece stays as it is.
    pub fn rotate_piece(&mut self)
        requires
            old(self).wf(),
        ensures
            final(self).wf(),
            final(self)@ == old(self)@.turned(),
    {
        let turned = self.current_piece.rotated();
        if piece_fits(&self.board, &turned, self.piece_pos.0 as i64, self.piece_pos.1 as i64) {
            self.current_piece = turned;
        }
    }

    /// Applies the keys of one frame: left, right, down, turn.
    pub fn handle_input(&mut self, keys: &Keys)
        requires
            old(self).wf(),
        ensures
            final(self).wf(),
            final(self)@ == old(self)@.after_input(*keys),
    {
        if self.phase == Phase::GameOver {
            return ;
        }
        if keys.left {
            self.try_move(0, -1);
        }
        if keys.right {
            self.try_move(0, 1);
        }
        if keys.down {
            self.try_move(1, 0);
        }
        if keys.up {
            self.rotate_piece();
        }
    }

    /// Writes the cells of the falling piece into the board.
    fn lock_cells(&mut self)
        requires
            old(self).wf(),
            old(self)@.phase is Falling,
        ensures
            final(self).parts_wf(),
            final(self)@ == old(self)@.settled(),
    {
        proof {
            self.board.lemma_wf();
        }
        let ghost s = self@;
        let mut cells: Vec<(usize, usize)> = Vec::new();
        let shape = self.current_piece.shape();
        let row: i32 = self.piece_pos.0;
        let col: i32 = self.piece_pos.1;
        let mut y: usize = 0;
        while y < shape.len()
            invariant
                matrix(shape) == s.piece.shape,
                shape_wf(s.piece.shape),
                s.grid.wf(),
                s.row == row,
                s.col == col,
                row >= 0,
                fits(s.grid, s.piece.shape, row as int, col as int),
                s.grid.height() <= u16::MAX,
                s.grid.width <= u16::MAX,
                y <= shape.len(),
                forall|k: int|
                    0 <= k < cells.len() ==> s.grid.in_bounds(
                        (#[trigger] cells[k]).0 as int,
                        cells[k].1 as int,
                    ),
                forall|r: int, c: int|
                    listed(cells@, r, c) <==> covers(s.piece.shape, row as int, col as int, r, c)
                        && r - row < y,
            decreases shape.len() - y,
        {
            let mut x: usize = 0;
            while x < shape[y].len()
                invariant
                    matrix(shape) == s.piece.shape,
                    shape_wf(s.piece.shape),
                    s.grid.wf(),
                    s.row == row,
                    s.col == col,
                    row >= 0,
                    fits(s.grid, s.piece.shape, row as int, col as int),
                    s.grid.height() <= u16::MAX,
                    s.grid.width <= u16::MAX,
                    y < shape.len(),
                    s.piece.shape[y as int] == shape[y as int]@,
                    x <= shape[y as int].len(),
                    forall|k: int|
                        0 <= k < cells.len() ==> s.grid.in_bounds(
                            (#[trigger] cells[k]).0 as int,
                            cells[k].1 as int,
                        ),
                    forall|r: int, c: int|
                        listed(cells@, r, c) <==> covers(
                            s.piece.shape,
                            row as int,
                            col as int,
                            r,
                            c,
                        ) && (r - row < y || (r - row == y && c - col < x)),
                decreases shape[y as int].len() - x,
            {
                if shape[y][x] {
                    let grid_y: usize = (row as i64 + y as i64) as usize;
                    let grid_x: usize = (col as i64 + x as i64) as usize;
                    proof {
                        let ghost before = cells@;
                        assert forall|r: int, c: int|
                            listed(before.push((grid_y, grid_x)), r, c) <==> covers(
                                s.piece.shape,
                                row as int,
                                col as int,
                                r,
                                c,
                            ) && (r - row < y || (r - row == y && c - col < x + 1)) by {
                            lemma_listed_push(before, (grid_y, grid_x), r, c);
                        }
                    }
                    cells.push((grid_y, grid_x));
                }
                x += 1;
            }
            y += 1;
        }
        let kind = self.current_piece.kind();
        self.board.lock(&cells, kind);
        proof {
            let hit = |r: int, c: int| covers(s.piece.shape, s.row, s.col, r, c);
            let goal = s.grid.locked(hit, s.piece.kind);
            assert forall|r: int| 0 <= r < goal.rows.len() implies #[trigger] self@.grid.rows[r]
                =~= goal.rows[r] by {}
            assert(self@.grid.rows =~= goal.rows);
        }
    }

    /// Clears the full rows of the board and adds the points for them.
    fn clear_lines(&mut self)
        requires
            old(self).parts_wf(),
        ensures
            final(self).parts_wf(),
            final(self)@ == old(self)@.swept(),
    {
        proof {
            self.board.lemma_wf();
            lemma_cleared_size(self.board@);
        }
        let lines_cleared: usize = self.board.clear_full_rows();
        let n: u64 = lines_cleared as u64;
        assert(n * n <= 0xffff * 0xffff) by (nonlinear_arith)
            requires
                n <= 0xffff,
        ;
        self.score = self.score.saturating_add(n * n * 100);
    }

    /// Settles the falling piece: its cells are written into the board,
    /// full rows are cleared and paid for, and the next piece spawns.
    pub fn lock_piece(&mut self)
        requires
            old(self).wf(),
            old(self)@.phase is Falling,
        ensures
            final(self).wf(),
            old(self)@.may_draw(final(self)@.piece.kind),
            final(self)@ == old(self)@.locked_next(final(self)@.piece.kind),
    {
        self.lock_cells();
        self.clear_lines();
        self.spawn_piece();
    }

    /// Reads the clock: when a drop is due the piece goes down one row, or
    /// settles if it cannot. Returns whether the session is over.
    pub fn update(&mut self, now: u64) -> (over: bool)
        requires
            old(self).wf(),
        ensures
            final(self).wf(),
            exists|kind: PieceKind| #[trigger]
                old(self)@.may_draw(kind) && final(self)@ == old(self)@.updated(now as nat, kind),
            over == (final(self)@.phase is GameOver),
    {
        // where nothing spawns, any kind that may be drawn bears the claim out
        assert(old(self)@.may_draw(old(self)@.next_hint()));
        if self.phase == Phase::GameOver {
            return true;
        }
        if now >= self.last_drop && now - self.last_drop >= DROP_INTERVAL {
            self.last_drop = now;
            if self.is_valid_position(1, 0) {
                self.try_move(1, 0);
                false
            } else {
                self.lock_piece();
                assert(old(self)@.may_draw(self@.piece.kind));
                self.phase == Phase::GameOver
            }
        } else {
            false
        }
    }

    /// The board with its settled cells.
    pub fn board(&self) -> (board: &Board)
        ensures
            board@ == self@.grid,
            self.wf() ==> board.wf(),
    {
        &self.board
    }

    /// The piece in play.
    pub fn current_piece(&self) -> (piece: &Tetromino)
        ensures
            piece@ == self@.piece,
            self.wf() ==> piece.wf(),
    {
        &self.current_piece
    }

    /// Board row and column of the origin of the piece's matrix.
    pub fn piece_pos(&self) -> (pos: (i32, i32))
        ensures
            pos.0 == self@.row,
            pos.1 == self@.col,
    {
        self.piece_pos
    }

    /// The score.
    pub fn score(&self) -> (score: u64)
        ensures
            score == self@.score,
    {
        self.score
    }

    /// Whether the session is running or over.
    pub fn phase(&self) -> (phase: Phase)
        ensures
            phase == self@.phase,
    {
        self.phase
    }
}

impl Game for TetrisGame {
    open spec fn valid(&self) -> bool {
        self.wf()
    }

    open spec fn ticks_to(&self, frame: Frame, after: Self, exit: bool) -> bool {
        exists|kind: PieceKind| #[trigger]
            self@.may_draw(kind) && after@ == self@.ticked(frame, kind) && exit == self@.exits(
                frame,
                kind,
            )
    }

    open spec fn resets_to(&self, after: Self) -> bool {
        self@.may_draw(after@.piece.kind) && after@ == self@.restarted(after@.piece.kind)
    }

    /// One frame of the game: escape asks to leave at once; otherwise the
    /// keys are applied and the clock is read, and a session that is over
    /// asks to leave when space is pressed.
    fn tick(&mut self, frame: &Frame) -> (exit: bool) {
        if frame.keys.escape {
            assert(old(self)@.may_draw(old(self)@.next_hint()));
            return true;
        }
        self.handle_input(&frame.keys);
        let over = self.update(frame.now);
        over && frame.keys.space
    }

    /// Starts over on an empty board of the same size, with the score and
    /// the timer at zero and a fresh piece.
    fn reset(&mut self) {
        self.board.reset();
        self.score = 0;
        self.spawn_piece();
        self.last_drop = 0;
    }
}

} // verus!
