use vstd::prelude::*;
use crate::color::Color;
use crate::constants::{BOARD_HEIGHT, BOARD_WIDTH, GRID_HEIGHT, GRID_WIDTH};
use crate::tetromino::{matrix_of, rect, Tetromino};

verus! {

/// Whether the shape matrix has an occupied cell at row `r`, column `c`.
pub open spec fn occupied(shape: Seq<Seq<bool>>, r: int, c: int) -> bool {
    0 <= r < shape.len() && 0 <= c < shape[r].len() && shape[r][c]
}

/// Whether a piece cell at column `x`, row `y` is illegal on the board:
/// outside the side walls, at or below the floor, or on a filled cell. Rows
/// above the board are only held to the side walls.
pub open spec fn cell_blocked(b: Seq<Seq<Color>>, x: int, y: int) -> bool {
    x < 0 || x >= BOARD_WIDTH || y >= BOARD_HEIGHT || (y >= 0 && b[y][x].is_filled())
}

/// Whether a piece with this shape at this position collides with the board.
pub open spec fn collides(b: Seq<Seq<Color>>, shape: Seq<Seq<bool>>, x: int, y: int) -> bool {
    exists|r: int, c: int| occupied(shape, r, c) && #[trigger] cell_blocked(b, x + c, y + r)
}

/// Whether the shape matrix has an occupied cell at all.
pub open spec fn has_cell(shape: Seq<Seq<bool>>) -> bool {
    exists|r: int, c: int| occupied(shape, r, c)
}

/// The board after writing the colour into every occupied cell of a piece
/// whose bounding box starts at column `x0`, row `y0`, where that cell lies on
/// the board.
pub open spec fn locked(
    b: Seq<Seq<Color>>,
    shape: Seq<Seq<bool>>,
    x0: int,
    y0: int,
    color: Color,
) -> Seq<Seq<Color>> {
    Seq::new(
        b.len(),
        |y: int|
            Seq::new(
                b[y].len(),
                |x: int| if occupied(shape, y - y0, x - x0) { color } else { b[y][x] },
            ),
    )
}

/// The board after writing the piece's colour into its occupied cells that
/// come before row `r`, column `c` of its matrix in reading order.
pub open spec fn locked_before(
    b: Seq<Seq<Color>>,
    shape: Seq<Seq<bool>>,
    x0: int,
    y0: int,
    color: Color,
    r: int,
    c: int,
) -> Seq<Seq<Color>> {
    Seq::new(
        b.len(),
        |y: int|
            Seq::new(
                b[y].len(),
                |x: int|
                    if occupied(shape, y - y0, x - x0) && (y - y0 < r || (y - y0 == r
                        && x - x0 < c)) {
                        color
                    } else {
                        b[y][x]
                    },
            ),
    )
}

/// Every cell of the row is filled.
pub open spec fn row_full(row: Seq<Color>) -> bool {
    forall|x: int| 0 <= x < row.len() ==> (#[trigger] row[x]).is_filled()
}

/// The rows that are not full, in their order.
pub open spec fn kept_rows(b: Seq<Seq<Color>>) -> Seq<Seq<Color>>
    decreases b.len(),
{
    if b.len() == 0 {
        Seq::empty()
    } else if row_full(b.last()) {
        kept_rows(b.drop_last())
    } else {
        kept_rows(b.drop_last()).push(b.last())
    }
}

/// A row of empty cells.
pub open spec fn empty_row() -> Seq<Color> {
    Seq::new(BOARD_WIDTH as nat, |x: int| Color::spec_black())
}

/// `n` rows of empty cells.
pub open spec fn empty_rows(n: nat) -> Seq<Seq<Color>> {
    Seq::new(n, |i: int| empty_row())
}

/// The number of full rows.
pub open spec fn full_count(b: Seq<Seq<Color>>) -> int {
    b.len() - kept_rows(b).len()
}

/// The board after removing every full row, with the rows above each one
/// moved down and empty rows filled in at the top.
pub open spec fn cleared(b: Seq<Seq<Color>>) -> Seq<Seq<Color>> {
    empty_rows(full_count(b) as nat) + kept_rows(b)
}

/// Keeping the non-full rows of two stacked boards keeps them of each part.
pub proof fn lemma_kept_rows_append(a: Seq<Seq<Color>>, b: Seq<Seq<Color>>)
    ensures
        kept_rows(a + b) == kept_rows(a) + kept_rows(b),
    decreases b.len(),
{
    if b.len() == 0 {
        assert(a + b =~= a);
        assert(kept_rows(a) + kept_rows(b) =~= kept_rows(a));
    } else {
        assert((a + b).drop_last() =~= a + b.drop_last());
        assert((a + b).last() == b.last());
        lemma_kept_rows_append(a, b.drop_last());
        if row_full(b.last()) {
        } else {
            assert(kept_rows(a) + kept_rows(b.drop_last()).push(b.last()) =~= (kept_rows(a) + kept_rows(
                b.drop_last(),
            )).push(b.last()));
        }
    }
}

/// At most every row is kept.
pub proof fn lemma_kept_rows_len(b: Seq<Seq<Color>>)
    ensures
        kept_rows(b).len() <= b.len(),
    decreases b.len(),
{
    if b.len() > 0 {
        lemma_kept_rows_len(b.drop_last());
    }
}

/// A board without full rows keeps every row.
pub proof fn lemma_kept_rows_none_full(b: Seq<Seq<Color>>)
    requires
        forall|i: int| 0 <= i < b.len() ==> !row_full(#[trigger] b[i]),
    ensures
        kept_rows(b) == b,
    decreases b.len(),
{
    if b.len() > 0 {
        lemma_kept_rows_none_full(b.drop_last());
        assert(!row_full(b[b.len() - 1]));
        assert(b.drop_last().push(b.last()) =~= b);
    }
}

/// The kept rows of a single row.
pub proof fn lemma_kept_rows_single(row: Seq<Color>)
    ensures
        kept_rows(seq![row]) == (if row_full(row) { Seq::<Seq<Color>>::empty() } else { seq![row] }),
{
    assert(seq![row].drop_last() =~= Seq::<Seq<Color>>::empty());
    assert(kept_rows(Seq::<Seq<Color>>::empty()) == Seq::<Seq<Color>>::empty());
    assert(Seq::<Seq<Color>>::empty().push(row) =~= seq![row]);
}

/// Removing a full row at index `t` and adding an empty row on top leaves
/// the cleared board as it was, with one full row fewer.
proof fn lemma_remove_full_row(b: Seq<Seq<Color>>, t: int)
    requires
        0 <= t < b.len(),
        row_full(b[t]),
    ensures
        cleared(seq![empty_row()] + b.subrange(0, t) + b.subrange(t + 1, b.len() as int)) == cleared(b),
        full_count(seq![empty_row()] + b.subrange(0, t) + b.subrange(t + 1, b.len() as int)) == full_count(b) - 1,
{
    let e = empty_row();
    let lo = b.subrange(0, t);
    let hi = b.subrange(t + 1, b.len() as int);
    let nb = seq![e] + lo + hi;
    assert(b =~= lo + seq![b[t]] + hi);
    lemma_kept_rows_append(lo + seq![b[t]], hi);
    lemma_kept_rows_append(lo, seq![b[t]]);
    lemma_kept_rows_single(b[t]);
    assert(kept_rows(lo) + Seq::<Seq<Color>>::empty() =~= kept_rows(lo));
    assert(!row_full(e)) by {
        assert(!e[0].is_filled());
    }
    lemma_kept_rows_append(seq![e] + lo, hi);
    lemma_kept_rows_append(seq![e], lo);
    lemma_kept_rows_single(e);
    let k = kept_rows(b);
    assert(k == kept_rows(lo) + kept_rows(hi));
    assert(kept_rows(nb) == seq![e] + kept_rows(lo) + kept_rows(hi));
    lemma_kept_rows_len(lo);
    lemma_kept_rows_len(hi);
    let n = full_count(b);
    assert(empty_rows((n - 1) as nat) + (seq![e] + k) =~= empty_rows(n as nat) + k);
    assert(kept_rows(nb) =~= seq![e] + k);
}

/// A piece with an occupied cell left of the board, right of it, or at or
/// below its floor collides, whatever the board holds.
pub proof fn lemma_out_of_bounds_collides(b: Seq<Seq<Color>>, shape: Seq<Seq<bool>>, x: int, y: int, r: int, c: int)
    requires
        occupied(shape, r, c),
        x + c < 0 || x + c >= BOARD_WIDTH || y + r >= BOARD_HEIGHT,
    ensures
        collides(b, shape, x, y),
{
    assert(cell_blocked(b, x + c, y + r));
}

/// On an empty board, a piece whose occupied cells all lie between the side
/// walls and above the floor does not collide.
pub proof fn lemma_inside_empty_board(shape: Seq<Seq<bool>>, x: int, y: int)
    requires
        forall|r: int, c: int|
            #[trigger] occupied(shape, r, c) ==> 0 <= x + c < BOARD_WIDTH && y + r < BOARD_HEIGHT,
    ensures
        !collides(empty_rows(BOARD_HEIGHT as nat), shape, x, y),
{
    let b = empty_rows(BOARD_HEIGHT as nat);
    assert forall|r: int, c: int| occupied(shape, r, c) implies !#[trigger] cell_blocked(b, x + c, y + r) by {
        if y + r >= 0 {
            assert(b[y + r][x + c] == Color::spec_black());
        }
    }
}

/// Clearing a board whose only full row is `t` removes that row alone: the
/// rows above it move down one, the rows below stay, and an empty row comes
/// in at the top. When every other row is empty the board ends up empty.
pub proof fn lemma_clear_single_full_row(b: Seq<Seq<Color>>, t: int)
    requires
        0 <= t < b.len(),
        row_full(b[t]),
        forall|i: int| 0 <= i < b.len() && i != t ==> !row_full(#[trigger] b[i]),
    ensures
        full_count(b) == 1,
        cleared(b) == seq![empty_row()] + b.subrange(0, t) + b.subrange(t + 1, b.len() as int),
        forall|i: int| 1 <= i <= t ==> #[trigger] cleared(b)[i] == b[i - 1],
        forall|i: int| t < i < b.len() ==> #[trigger] cleared(b)[i] == b[i],
        (forall|i: int| 0 <= i < b.len() && i != t ==> #[trigger] b[i] == empty_row()) ==> cleared(b)
            == empty_rows(b.len()),
{
    let lo = b.subrange(0, t);
    let hi = b.subrange(t + 1, b.len() as int);
    assert(b =~= lo + seq![b[t]] + hi);
    lemma_kept_rows_append(lo + seq![b[t]], hi);
    lemma_kept_rows_append(lo, seq![b[t]]);
    lemma_kept_rows_single(b[t]);
    assert forall|i: int| 0 <= i < lo.len() implies !row_full(#[trigger] lo[i]) by {
        assert(lo[i] == b[i]);
    }
    assert forall|i: int| 0 <= i < hi.len() implies !row_full(#[trigger] hi[i]) by {
        assert(hi[i] == b[t + 1 + i]);
    }
    lemma_kept_rows_none_full(lo);
    lemma_kept_rows_none_full(hi);
    assert(kept_rows(b) =~= lo + hi);
    assert(empty_rows(1) =~= seq![empty_row()]);
    assert(cleared(b) =~= seq![empty_row()] + lo + hi);
    if forall|i: int| 0 <= i < b.len() && i != t ==> #[trigger] b[i] == empty_row() {
        assert(cleared(b) =~= empty_rows(b.len()));
    }
}

/// The playfield: `BOARD_HEIGHT` rows of `BOARD_WIDTH` cells, row 0 at the
/// top, and the running total of rows cleared on it.
#[derive(Clone, Debug)]
pub struct GameBoard {
    cells: Vec<Vec<Color>>,
    lines_cleared: u32,
}

impl GameBoard {
    /// The cells as a sequence of rows.
    pub closed spec fn rows(&self) -> Seq<Seq<Color>> {
        matrix_of(self.cells@)
    }

    /// The running total of rows cleared.
    pub closed spec fn total_cleared(&self) -> u32 {
        self.lines_cleared
    }

    /// The grid has its fixed dimensions.
    pub open spec fn wf(&self) -> bool {
        &&& self.rows().len() == BOARD_HEIGHT
        &&& forall|y: int| 0 <= y < BOARD_HEIGHT ==> (#[trigger] self.rows()[y]).len() == BOARD_WIDTH
    }

    /// An empty board.
    pub fn new() -> (b: GameBoard)
        ensures
            b.wf(),
            b.rows() == empty_rows(BOARD_HEIGHT as nat),
            b.total_cleared() == 0,
    {
        GameBoard { cells: empty_grid(), lines_cleared: 0 }
    }

    /// Empties the board and its running total.
    pub fn reset(&mut self)
        ensures
            final(self).wf(),
            final(self).rows() == empty_rows(BOARD_HEIGHT as nat),
            final(self).total_cleared() == 0,
    {
        self.cells = empty_grid();
        self.lines_cleared = 0;
    }

    /// The colour of the cell at column `x`, row `y`, if it is on the board.
    pub fn get_cell(&self, x: i32, y: i32) -> (r: Option<Color>)
        requires
            self.wf(),
        ensures
            r == (if 0 <= x < GRID_WIDTH && 0 <= y < GRID_HEIGHT {
                Some(self.rows()[y as int][x as int])
            } else {
                None
            }),
    {
        if 0 <= x && x < GRID_WIDTH && 0 <= y && y < GRID_HEIGHT {
            assert(self.cells@[y as int]@ == self.rows()[y as int]);
            Some(self.cells[y as usize][x as usize])
        } else {
            None
        }
    }

    /// Writes a colour into the cell at column `x`, row `y`; returns whether
    /// the cell is on the board (the board is unchanged when it is not).
    pub fn set_cell(&mut self, x: i32, y: i32, color: Color) -> (r: bool)
        requires
            old(self).wf(),
        ensures
            final(self).wf(),
            final(self).total_cleared() == old(self).total_cleared(),
            r == (0 <= x < GRID_WIDTH && 0 <= y < GRID_HEIGHT),
            r ==> final(self).rows() == old(self).rows().update(
                y as int,
                old(self).rows()[y as int].update(x as int, color),
            ),
            !r ==> final(self).rows() == old(self).rows(),
    {
        if 0 <= x && x < GRID_WIDTH && 0 <= y && y < GRID_HEIGHT {
            self.write(x as usize, y as usize, color);
            true
        } else {
            false
        }
    }

    fn write(&mut self, x: usize, y: usize, color: Color)
        requires
            old(self).wf(),
            x < BOARD_WIDTH,
            y < BOARD_HEIGHT,
        ensures
            final(self).wf(),
            final(self).total_cleared() == old(self).total_cleared(),
            final(self).rows() == old(self).rows().update(
                y as int,
                old(self).rows()[y as int].update(x as int, color),
            ),
    {
        let ghost before = self.rows();
        assert(self.cells@[y as int]@ == before[y as int]);
        let mut row = self.cells.remove(y);
        row.set(x, color);
        self.cells.insert(y, row);
        assert(self.rows() =~~= before.update(y as int, before[y as int].update(x as int, color)));
    }

    /// Whether the piece, where it stands, collides with the walls, the floor
    /// or a filled cell.
    pub fn check_collision(&self, piece: &Tetromino) -> (r: bool)
        requires
            self.wf(),
            piece.wf(),
        ensures
            r == collides(self.rows(), piece.cells(), piece.position.x as int, piece.position.y as int),
    {
        let ghost b = self.rows();
        let ghost shape = piece.cells();
        let ghost pos = piece.position;
        let px = piece.position.x as i128;
        let py = piece.position.y as i128;
        let mut r: usize = 0;
        while r < piece.shape.len()
            invariant
                self.wf(),
                b == self.rows(),
                shape == piece.cells(),
                pos == piece.position,
                px == pos.x,
                py == pos.y,
                r <= shape.len(),
                forall|rr: int, cc: int|
                    0 <= rr < r && #[trigger] occupied(shape, rr, cc) ==> !cell_blocked(b, pos.x + cc, pos.y + rr),
            decreases shape.len() - r,
        {
            let row = &piece.shape[r];
            assert(row@ == shape[r as int]);
            let by = py + r as i128;
            let mut c: usize = 0;
            while c < row.len()
                invariant
                    self.wf(),
                    b == self.rows(),
                    shape == piece.cells(),
                    pos == piece.position,
                    px == pos.x,
                    py == pos.y,
                    r < shape.len(),
                    row@ == shape[r as int],
                    by == pos.y + r,
                    c <= row@.len(),
                    forall|rr: int, cc: int|
                        0 <= rr < r && #[trigger] occupied(shape, rr, cc) ==> !cell_blocked(b, pos.x + cc, pos.y + rr),
                    forall|cc: int|
                        0 <= cc < c && #[trigger] occupied(shape, r as int, cc) ==> !cell_blocked(b, pos.x + cc, pos.y + r),
                decreases row@.len() - c,
            {
                if row[c] {
                    let bx = px + c as i128;
                    assert(occupied(shape, r as int, c as int));
                    if bx < 0 || bx >= BOARD_WIDTH as i128 || by >= BOARD_HEIGHT as i128 {
                        assert(cell_blocked(b, pos.x + c, pos.y + r));
                        return true;
                    }
                    if by >= 0 {
                        assert(self.cells@[by as int]@ == b[by as int]);
                        if self.cells[by as usize][bx as usize] != Color::black() {
                            assert(cell_blocked(b, pos.x + c, pos.y + r));
                            return true;
                        }
                    }
                }
                c = c + 1;
            }
            r = r + 1;
        }
        false
    }

    /// How many rows the piece can fall before it collides: the largest `d`
    /// such that the piece moved down by `0..=d` rows collides nowhere, or -1
    /// when it already collides where it stands.
    pub fn calculate_drop_position(&self, piece: &Tetromino) -> (d: i32)
        requires
            self.wf(),
            piece.wf(),
            has_cell(piece.cells()),
            piece.position.y > i32::MIN + GRID_HEIGHT,
        ensures
            d >= -1,
            forall|k: int|
                0 <= k <= d ==> !#[trigger] collides(
                    self.rows(),
                    piece.cells(),
                    piece.position.x as int,
                    piece.position.y + k,
                ),
            collides(self.rows(), piece.cells(), piece.position.x as int, piece.position.y + d + 1),
    {
        let ghost b = self.rows();
        let ghost shape = piece.cells();
        let ghost px = piece.position.x as int;
        let ghost py = piece.position.y as int;
        let ghost (r0, c0) = choose|r: int, c: int| occupied(shape, r, c);
        let mut test = piece.copied();
        while !self.check_collision(&test)
            invariant
                self.wf(),
                b == self.rows(),
                test.cells() == shape,
                rect(shape),
                occupied(shape, r0, c0),
                test.position.x == px,
                py <= test.position.y,
                test.position.y == py || test.position.y <= BOARD_HEIGHT,
                forall|k: int| 0 <= k < test.position.y - py ==> !#[trigger] collides(b, shape, px, py + k),
            decreases BOARD_HEIGHT - test.position.y,
        {
            assert(test.position.y < BOARD_HEIGHT) by {
                if test.position.y + r0 >= BOARD_HEIGHT {
                    assert(cell_blocked(b, px + c0, test.position.y + r0));
                }
            }
            let ghost k0 = test.position.y - py;
            assert(!collides(b, shape, px, py + k0));
            test.position.y = test.position.y + 1;
        }
        let d = (test.position.y as i64 - 1 - piece.position.y as i64) as i32;
        assert(py + d + 1 == test.position.y);
        d
    }

    /// Writes the piece's colour into each of its occupied cells that lies on
    /// the board; cells above the top row are dropped.
    pub fn lock_piece(&mut self, piece: &Tetromino)
        requires
            old(self).wf(),
            piece.wf(),
        ensures
            final(self).wf(),
            final(self).total_cleared() == old(self).total_cleared(),
            final(self).rows() == locked(old(self).rows(), piece.cells(), piece.position.x as int, piece.position.y as int, piece.color),
    {
        let ghost b = self.rows();
        let ghost shape = piece.cells();
        let ghost pos = piece.position;
        let ghost color = piece.color;
        let px = piece.position.x as i128;
        let py = piece.position.y as i128;
        let mut r: usize = 0;
        assert(self.rows() =~~= locked_before(b, shape, pos.x as int, pos.y as int, color, 0, 0));
        while r < piece.shape.len()
            invariant
                self.wf(),
                b.len() == BOARD_HEIGHT,
                forall|y: int| 0 <= y < BOARD_HEIGHT ==> (#[trigger] b[y]).len() == BOARD_WIDTH,
                self.total_cleared() == old(self).total_cleared(),
                shape == piece.cells(),
                rect(shape),
                pos == piece.position,
                color == piece.color,
                px == pos.x,
                py == pos.y,
                r <= shape.len(),
                self.rows() == locked_before(b, shape, pos.x as int, pos.y as int, color, r as int, 0),
            decreases shape.len() - r,
        {
            let row = &piece.shape[r];
            assert(row@ == shape[r as int]);
            let by = py + r as i128;
            let mut c: usize = 0;
            while c < row.len()
                invariant
                    self.wf(),
                    b.len() == BOARD_HEIGHT,
                    forall|y: int| 0 <= y < BOARD_HEIGHT ==> (#[trigger] b[y]).len() == BOARD_WIDTH,
                    self.total_cleared() == old(self).total_cleared(),
                    shape == piece.cells(),
                    rect(shape),
                    pos == piece.position,
                    color == piece.color,
                    px == pos.x,
                    py == pos.y,
                    r < shape.len(),
                    row@ == shape[r as int],
                    by == pos.y + r,
                    c <= row@.len(),
                    self.rows() == locked_before(b, shape, pos.x as int, pos.y as int, color, r as int, c as int),
                decreases row@.len() - c,
            {
                let ghost before = self.rows();
                let bx = px + c as i128;
                if row[c] && 0 <= bx && bx < BOARD_WIDTH as i128 && 0 <= by && by < BOARD_HEIGHT as i128 {
                    self.write(bx as usize, by as usize, piece.color);
                }
                assert(self.rows() =~~= locked_before(b, shape, pos.x as int, pos.y as int, color, r as int, c + 1));
                c = c + 1;
            }
            assert(locked_before(b, shape, pos.x as int, pos.y as int, color, r as int, row@.len() as int)
                =~~= locked_before(b, shape, pos.x as int, pos.y as int, color, r + 1, 0));
            r = r + 1;
        }
        assert(locked_before(b, shape, pos.x as int, pos.y as int, color, shape.len() as int, 0) =~~= locked(b, shape, pos.x as int, pos.y as int, color));
    }

    /// Removes every full row, moving the rows above it down and filling in
    /// empty rows at the top; returns how many rows were removed and adds
    /// that number to the running total.
    pub fn clear_lines(&mut self) -> (n: u32)
        requires
            old(self).wf(),
            old(self).total_cleared() + BOARD_HEIGHT <= u32::MAX,
        ensures
            final(self).wf(),
            final(self).rows() == cleared(old(self).rows()),
            n == full_count(old(self).rows()),
            final(self).total_cleared() == old(self).total_cleared() + n,
    {
        let ghost b0 = self.rows();
        let mut n: u32 = 0;
        let mut y: usize = BOARD_HEIGHT;
        proof {
            lemma_kept_rows_len(b0);
        }
        while y > 0
            invariant
                self.wf(),
                self.total_cleared() == old(self).total_cleared(),
                y <= BOARD_HEIGHT,
                cleared(self.rows()) == cleared(b0),
                full_count(self.rows()) + n == full_count(b0),
                0 <= full_count(self.rows()),
                full_count(b0) <= BOARD_HEIGHT,
                forall|i: int| y <= i < BOARD_HEIGHT ==> !row_full(#[trigger] self.rows()[i]),
            decreases y + full_count(self.rows()),
        {
            if self.is_line_complete(y - 1) {
                let ghost before = self.rows();
                proof {
                    lemma_remove_full_row(before, y - 1);
                    lemma_kept_rows_len(seq![empty_row()] + before.subrange(0, y - 1) + before.subrange(
                        y as int,
                        BOARD_HEIGHT as int,
                    ));
                }
                self.remove_line(y - 1);
                n = n + 1;
            } else {
                y = y - 1;
            }
        }
        proof {
            lemma_kept_rows_none_full(self.rows());
            assert(empty_rows(0) + self.rows() =~= self.rows());
        }
        self.lines_cleared = self.lines_cleared + n;
        n
    }

    /// Whether every cell of row `y` is filled.
    fn is_line_complete(&self, y: usize) -> (r: bool)
        requires
            self.wf(),
            y < BOARD_HEIGHT,
        ensures
            r == row_full(self.rows()[y as int]),
    {
        let row = &self.cells[y];
        assert(row@ == self.rows()[y as int]);
        let mut x: usize = 0;
        while x < row.len()
            invariant
                self.wf(),
                y < BOARD_HEIGHT,
                row@ == self.rows()[y as int],
                x <= row@.len(),
                forall|k: int| 0 <= k < x ==> (#[trigger] row@[k]).is_filled(),
            decreases row@.len() - x,
        {
            if row[x] == Color::black() {
                assert(!row@[x as int].is_filled());
                return false;
            }
            x = x + 1;
        }
        true
    }

    /// Removes row `y`; the rows above it move down one and an empty row
    /// comes in at the top.
    fn remove_line(&mut self, y: usize)
        requires
            old(self).wf(),
            y < BOARD_HEIGHT,
        ensures
            final(self).wf(),
            final(self).total_cleared() == old(self).total_cleared(),
            final(self).rows() == seq![empty_row()] + old(self).rows().subrange(0, y as int)
                + old(self).rows().subrange(y + 1, BOARD_HEIGHT as int),
    {
        let ghost before = self.rows();
        let _ = self.cells.remove(y);
        self.cells.insert(0, empty_row_vec());
        assert(self.rows() =~~= seq![empty_row()] + before.subrange(0, y as int) + before.subrange(
            y + 1,
            BOARD_HEIGHT as int,
        ));
    }

    /// The total of rows cleared on this board since it was made or reset.
    pub fn lines_cleared(&self) -> (r: u32)
        ensures
            r == self.total_cleared(),
    {
        self.lines_cleared
    }

    /// The grid, row by row, for the renderer.
    pub fn cells(&self) -> (r: &Vec<Vec<Color>>)
        ensures
            matrix_of(r@) == self.rows(),
    {
        &self.cells
    }
}

/// A grid of empty rows.
fn empty_grid() -> (g: Vec<Vec<Color>>)
    ensures
        matrix_of(g@) == empty_rows(BOARD_HEIGHT as nat),
{
    let mut g: Vec<Vec<Color>> = Vec::new();
    let mut i: usize = 0;
    while i < BOARD_HEIGHT
        invariant
            i <= BOARD_HEIGHT,
            g@.len() == i,
            forall|k: int| 0 <= k < i ==> (#[trigger] g@[k])@ == empty_row(),
        decreases BOARD_HEIGHT - i,
    {
        g.push(empty_row_vec());
        i = i + 1;
    }
    assert(matrix_of(g@) =~~= empty_rows(BOARD_HEIGHT as nat));
    g
}

/// A row of empty cells.
fn empty_row_vec() -> (r: Vec<Color>)
    ensures
        r@ == empty_row(),
{
    let mut r: Vec<Color> = Vec::new();
    let mut i: usize = 0;
    while i < BOARD_WIDTH
        invariant
            i <= BOARD_WIDTH,
            r@ == Seq::new(i as nat, |x: int| Color::spec_black()),
        decreases BOARD_WIDTH - i,
    {
        r.push(Color::black());
        i = i + 1;
        assert(r@ =~= Seq::new(i as nat, |x: int| Color::spec_black()));
    }
    r
}

} // verus!
