use vstd::prelude::*;
use crate::color::Color;

verus! {

/// The seven piece kinds.
#[derive(Clone, Copy, Debug, PartialEq, Eq, Structural)]
pub enum TetrominoType {
    I,
    O,
    T,
    S,
    Z,
    J,
    L,
}

/// A grid position: column `x`, row `y`, with row 0 at the top.
#[derive(Clone, Copy, Debug, PartialEq, Eq, Structural)]
pub struct Position {
    pub x: i32,
    pub y: i32,
}

impl Position {
    pub fn new(x: i32, y: i32) -> (p: Position)
        ensures
            p.x == x,
            p.y == y,
    {
        Position { x, y }
    }
}

/// Column at which a fresh piece's bounding box starts.
pub const SPAWN_X: i32 = 3;

/// Row at which a fresh piece's bounding box starts.
pub const SPAWN_Y: i32 = 0;

/// An occupancy matrix is rectangular and non-empty.
pub open spec fn rect(s: Seq<Seq<bool>>) -> bool {
    &&& s.len() > 0
    &&& s[0].len() > 0
    &&& forall|i: int| 0 <= i < s.len() ==> (#[trigger] s[i]).len() == s[0].len()
}

/// The 90-degree clockwise turn of an `R x C` matrix: the `C x R` matrix
/// whose cell `[x][R - 1 - y]` is the cell `[y][x]` of the input.
pub open spec fn rotated(s: Seq<Seq<bool>>) -> Seq<Seq<bool>> {
    Seq::new(s[0].len(), |x: int| Seq::new(s.len(), |c: int| s[s.len() - 1 - c][x]))
}

/// The canonical occupancy matrix of each kind.
pub open spec fn kind_shape(k: TetrominoType) -> Seq<Seq<bool>> {
    match k {
        TetrominoType::I => seq![seq![true, true, true, true]],
        TetrominoType::O => seq![seq![true, true], seq![true, true]],
        TetrominoType::T => seq![seq![false, true, false], seq![true, true, true]],
        TetrominoType::S => seq![seq![false, true, true], seq![true, true, false]],
        TetrominoType::Z => seq![seq![true, true, false], seq![false, true, true]],
        TetrominoType::J => seq![seq![true, false, false], seq![true, true, true]],
        TetrominoType::L => seq![seq![false, false, true], seq![true, true, true]],
    }
}

/// The display colour of each kind.
pub open spec fn kind_color(k: TetrominoType) -> Color {
    match k {
        TetrominoType::I => Color::spec_cyan(),
        TetrominoType::O => Color::spec_yellow(),
        TetrominoType::T => Color::spec_magenta(),
        TetrominoType::S => Color::spec_green(),
        TetrominoType::Z => Color::spec_red(),
        TetrominoType::J => Color::spec_blue(),
        TetrominoType::L => Color::spec_orange(),
    }
}

/// The view of a nested vector of cells as a matrix.
pub open spec fn matrix_of<T>(v: Seq<Vec<T>>) -> Seq<Seq<T>> {
    v.map_values(|r: Vec<T>| r@)
}

/// A piece: its current occupancy matrix, its colour and the position of the
/// top-left corner of its bounding box (the row may be negative).
#[derive(Clone, Debug)]
pub struct Tetromino {
    pub shape: Vec<Vec<bool>>,
    pub color: Color,
    pub position: Position,
}

impl Tetromino {
    /// The occupancy matrix as a sequence of rows.
    pub open spec fn cells(&self) -> Seq<Seq<bool>> {
        matrix_of(self.shape@)
    }

    /// The shape matrix is rectangular and non-empty.
    pub open spec fn wf(&self) -> bool {
        rect(self.cells())
    }

    /// The piece is a fresh piece of kind `k` at the spawn position.
    pub open spec fn is_spawn_of(&self, k: TetrominoType) -> bool {
        &&& self.cells() == kind_shape(k)
        &&& self.color == kind_color(k)
        &&& self.position == Position { x: SPAWN_X, y: SPAWN_Y }
    }

    /// Whether the cell at row `r`, column `c` of the bounding box is occupied.
    pub open spec fn occupies(&self, r: int, c: int) -> bool {
        0 <= r < self.cells().len() && 0 <= c < self.cells()[r].len() && self.cells()[r][c]
    }

    /// A fresh piece of the given kind at the spawn position.
    pub fn new(tetromino_type: TetrominoType) -> (p: Tetromino)
        ensures
            p.is_spawn_of(tetromino_type),
            p.wf(),
    {
        let (shape, color) = match tetromino_type {
            TetrominoType::I => (vec![vec![true, true, true, true]], Color::cyan()),
            TetrominoType::O => (vec![vec![true, true], vec![true, true]], Color::yellow()),
            TetrominoType::T => (vec![vec![false, true, false], vec![true, true, true]], Color::magenta()),
            TetrominoType::S => (vec![vec![false, true, true], vec![true, true, false]], Color::green()),
            TetrominoType::Z => (vec![vec![true, true, false], vec![false, true, true]], Color::red()),
            TetrominoType::J => (vec![vec![true, false, false], vec![true, true, true]], Color::blue()),
            TetrominoType::L => (vec![vec![false, false, true], vec![true, true, true]], Color::orange()),
        };
        let p = Tetromino { shape, color, position: Position { x: SPAWN_X, y: SPAWN_Y } };
        assert(p.cells() =~~= kind_shape(tetromino_type));
        p
    }
    /// A copy of the piece, for trying a move without touching the piece itself.
    pub fn copied(&self) -> (p: Tetromino)
        ensures
            p.cells() == self.cells(),
            p.color == self.color,
            p.position == self.position,
    {
        let mut shape: Vec<Vec<bool>> = Vec::new();
        let mut i: usize = 0;
        while i < self.shape.len()
            invariant
                i <= self.shape@.len(),
                shape@.len() == i,
                forall|k: int| 0 <= k < i ==> (#[trigger] shape@[k])@ == self.shape@[k]@,
            decreases self.shape@.len() - i,
        {
            let src = &self.shape[i];
            let mut row: Vec<bool> = Vec::new();
            let mut j: usize = 0;
            while j < src.len()
                invariant
                    j <= src@.len(),
                    row@ == src@.subrange(0, j as int),
                decreases src@.len() - j,
            {
                row.push(src[j]);
                j = j + 1;
                assert(row@ =~= src@.subrange(0, j as int));
            }
            assert(row@ =~= src@);
            shape.push(row);
            i = i + 1;
        }
        let p = Tetromino { shape, color: self.color, position: self.position };
        assert(p.cells() =~~= self.cells());
        p
    }

    /// Turns the shape matrix 90 degrees clockwise; position and colour stay.
    pub fn rotate(&mut self)
        requires
            old(self).wf(),
        ensures
            final(self).cells() == rotated(old(self).cells()),
            final(self).color == old(self).color,
            final(self).position == old(self).position,
            final(self).wf(),
    {
        let ghost s = self.cells();
        let rows = self.shape.len();
        let cols = self.shape[0].len();
        let mut new_shape: Vec<Vec<bool>> = Vec::new();
        let mut x: usize = 0;
        while x < cols
            invariant
                s == self.cells(),
                rect(s),
                rows == s.len(),
                cols == s[0].len(),
                x <= cols,
                new_shape@.len() == x,
                forall|i: int| 0 <= i < x ==> new_shape@[i]@ == #[trigger] rotated(s)[i],
            decreases cols - x,
        {
            let mut row: Vec<bool> = Vec::new();
            let mut c: usize = 0;
            while c < rows
                invariant
                    s == self.cells(),
                    rect(s),
                    rows == s.len(),
                    cols == s[0].len(),
                    x < cols,
                    c <= rows,
                    row@.len() == c,
                    forall|j: int| 0 <= j < c ==> row@[j] == #[trigger] s[rows - 1 - j][x as int],
                decreases rows - c,
            {
                assert(s[rows - 1 - c].len() == cols);
                row.push(self.shape[rows - 1 - c][x]);
                c = c + 1;
            }
            assert(row@ =~= rotated(s)[x as int]);
            new_shape.push(row);
            x = x + 1;
        }
        self.shape = new_shape;
        assert(self.cells() =~~= rotated(s));
        proof {
            lemma_rotated_rect(s);
        }
    }

    /// Moves the piece one column to the left.
    pub fn move_left(&mut self)
        requires
            old(self).position.x > i32::MIN,
        ensures
            final(self).position.x == old(self).position.x - 1,
            final(self).position.y == old(self).position.y,
            final(self).shape == old(self).shape,
            final(self).color == old(self).color,
    {
        self.position.x = self.position.x - 1;
    }

    /// Moves the piece one column to the right.
    pub fn move_right(&mut self)
        requires
            old(self).position.x < i32::MAX,
        ensures
            final(self).position.x == old(self).position.x + 1,
            final(self).position.y == old(self).position.y,
            final(self).shape == old(self).shape,
            final(self).color == old(self).color,
    {
        self.position.x = self.position.x + 1;
    }

    /// Moves the piece one row down.
    pub fn move_down(&mut self)
        requires
            old(self).position.y < i32::MAX,
        ensures
            final(self).position.x == old(self).position.x,
            final(self).position.y == old(self).position.y + 1,
            final(self).shape == old(self).shape,
            final(self).color == old(self).color,
    {
        self.position.y = self.position.y + 1;
    }

    /// A fresh piece of a kind drawn uniformly at random.
    pub fn random() -> (p: Tetromino)
        ensures
            exists|k: TetrominoType| p.is_spawn_of(k),
            p.wf(),
    {
        let k = TetrominoType::from_index(random_index(7));
        Tetromino::new(k)
    }
}

impl TetrominoType {
    /// The kind with the given index in the order I, O, T, S, Z, J, L.
    pub fn from_index(i: usize) -> (k: TetrominoType)
        requires
            i < 7,
        ensures
            k == kind_at(i as int),
    {
        match i {
            0 => TetrominoType::I,
            1 => TetrominoType::O,
            2 => TetrominoType::T,
            3 => TetrominoType::S,
            4 => TetrominoType::Z,
            5 => TetrominoType::J,
            _ => TetrominoType::L,
        }
    }
}

/// The kinds in the order I, O, T, S, Z, J, L.
pub open spec fn kind_at(i: int) -> TetrominoType {
    if i == 0 {
        TetrominoType::I
    } else if i == 1 {
        TetrominoType::O
    } else if i == 2 {
        TetrominoType::T
    } else if i == 3 {
        TetrominoType::S
    } else if i == 4 {
        TetrominoType::Z
    } else if i == 5 {
        TetrominoType::J
    } else {
        TetrominoType::L
    }
}

/// Relies on rand::thread_rng and rand::Rng::gen_range: a value drawn from
/// `0..bound`, which panics only on an empty range.
#[verifier::external_body]
fn random_index(bound: usize) -> (r: usize)
    requires
        bound > 0,
    ensures
        r < bound,
{
    rand::Rng::gen_range(&mut rand::thread_rng(), 0..bound)
}

/// Turning a rectangular matrix gives a rectangular matrix.
pub proof fn lemma_rotated_rect(s: Seq<Seq<bool>>)
    requires
        rect(s),
    ensures
        rect(rotated(s)),
        rotated(s).len() == s[0].len(),
        rotated(s)[0].len() == s.len(),
{
    assert(rotated(s)[0].len() == s.len());
}

/// Four clockwise turns of a rectangular matrix give the matrix back.
pub proof fn lemma_rotate_four_times(s: Seq<Seq<bool>>)
    requires
        rect(s),
    ensures
        rotated(rotated(rotated(rotated(s)))) == s,
{
    let r = s.len();
    let c = s[0].len();
    let r1 = rotated(s);
    lemma_rotated_rect(s);
    let r2 = rotated(r1);
    lemma_rotated_rect(r1);
    let r3 = rotated(r2);
    lemma_rotated_rect(r2);
    let r4 = rotated(r3);
    lemma_rotated_rect(r3);
    assert forall|i: int, j: int| 0 <= i < r && 0 <= j < c implies #[trigger] r2[i][j] == s[r - 1 - i][c - 1 - j] by {
        assert(r2[i][j] == r1[c - 1 - j][i]);
    }
    assert forall|i: int, j: int| 0 <= i < c && 0 <= j < r implies #[trigger] r3[i][j] == s[j][c - 1 - i] by {
        assert(r3[i][j] == r2[r - 1 - j][i]);
    }
    assert forall|i: int, j: int| 0 <= i < r && 0 <= j < c implies #[trigger] r4[i][j] == s[i][j] by {
        assert(r4[i][j] == r3[c - 1 - j][i]);
    }
    assert(r4 =~~= s);
}

/// For every kind, four turns of its canonical shape give the shape back,
/// and one turn of the square kind already does.
pub proof fn lemma_kind_rotation_cycle(k: TetrominoType)
    ensures
        rotated(rotated(rotated(rotated(kind_shape(k))))) == kind_shape(k),
        rotated(kind_shape(TetrominoType::O)) == kind_shape(TetrominoType::O),
{
    lemma_rotate_four_times(kind_shape(k));
    assert(rotated(kind_shape(TetrominoType::O)) =~~= kind_shape(TetrominoType::O));
}

} // verus!
