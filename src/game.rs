use vstd::prelude::*;
use vstd::string::*;
use crate::board::{cleared, collides, empty_rows, full_count, has_cell, locked, occupied, GameBoard};
use crate::color::Color;
use crate::constants::{
    BASE_DROP_MICROS, BLINK_MICROS, BOARD_HEIGHT, CURSOR_BLINK_MICROS, GRID_HEIGHT, MAX_NAME_LEN, SCORE_DROP,
};
use crate::score::{qualifies, HighScores};
use crate::text::{pop_char, push_char};
use crate::tetromino::{kind_shape, lemma_rotated_rect, rect, rotated, Tetromino, TetrominoType};

verus! {

/// The screens of the game.
#[derive(Clone, Copy, Debug, PartialEq, Eq, Structural)]
pub enum GameScreen {
    Title,
    Playing,
    GameOver,
    EnterName,
    HighScores,
}

/// Points for clearing `n` rows in one lock at level 1.
pub open spec fn base_points(n: int) -> int {
    if n == 1 {
        40
    } else if n == 2 {
        100
    } else if n == 3 {
        300
    } else if n == 4 {
        1200
    } else {
        0
    }
}

/// The level reached after clearing `lines` rows in all.
pub open spec fn level_for(lines: int) -> int {
    lines / 10 + 1
}

/// Points for clearing `lines` rows in one lock at level 1.
pub fn line_points(lines: u32) -> (p: u32)
    ensures
        p == base_points(lines as int),
{
    match lines {
        1 => 40,
        2 => 100,
        3 => 300,
        4 => 1200,
        _ => 0,
    }
}

/// The level reached after clearing `lines` rows in all.
pub fn level_for_lines(lines: u32) -> (l: u32)
    ensures
        l == level_for(lines as int),
{
    lines / 10 + 1
}

/// The audio cues the session emits.
#[derive(Clone, Copy, Debug, PartialEq, Eq, Structural)]
pub enum SoundCue {
    Move,
    Rotate,
    Drop,
    Lock,
    Clear,
    Tetris,
    GameOver,
}

/// What the session asks of its surroundings after a step.
#[derive(Clone, Copy, Debug, PartialEq, Eq, Structural)]
pub enum GameEvent {
    /// Play a cue.
    Sound(SoundCue),
    /// Start the background music if it is silent, stop it if it plays.
    ToggleMusic,
    /// The high-score table changed and should be stored.
    HighScoresChanged,
}

/// The two pieces have the same shape, colour and position.
pub open spec fn same_piece(p: Tetromino, q: Tetromino) -> bool {
    p.cells() == q.cells() && p.color == q.color && p.position == q.position
}

/// The cue for clearing `n` rows in one lock, if any.
pub open spec fn clear_cues(n: int) -> Seq<GameEvent> {
    if n == 4 {
        seq![GameEvent::Sound(SoundCue::Tetris)]
    } else if n > 0 {
        seq![GameEvent::Sound(SoundCue::Clear)]
    } else {
        Seq::empty()
    }
}

/// The screen after a spawn that collides: name entry when the score earns
/// a place in the table, game over otherwise.
pub open spec fn game_over_screen(h: Seq<crate::score::HighScoreEntry>, score: u32) -> GameScreen {
    if qualifies(h, score) {
        GameScreen::EnterName
    } else {
        GameScreen::GameOver
    }
}

/// The row count `d` that a piece falls: no collision `0..=d` rows down, a
/// collision `d + 1` rows down.
pub open spec fn is_drop(b: Seq<Seq<Color>>, p: Tetromino, d: int) -> bool {
    &&& d >= -1
    &&& forall|k: int|
        0 <= k <= d ==> !#[trigger] collides(b, p.cells(), p.position.x as int, p.position.y + k)
    &&& collides(b, p.cells(), p.position.x as int, p.position.y + d + 1)
}

/// The result of locking a piece with this shape, position and colour into
/// a session `a` whose score has grown by `bonus`, giving session `z` and the
/// events `ev`: the piece is written into the board, full rows are
/// cleared and scored, the next piece becomes the falling piece and a fresh
/// one is drawn; when the new falling piece collides the game ends.
pub open spec fn lock_outcome(
    a: GameState,
    shape: Seq<Seq<bool>>,
    x: int,
    y: int,
    color: Color,
    bonus: int,
    z: GameState,
    ev: Seq<GameEvent>,
) -> bool {
    let b1 = locked(a.board.rows(), shape, x, y, color);
    let n = full_count(b1);
    let b2 = cleared(b1);
    let over = collides(
        b2,
        a.next_piece.cells(),
        a.next_piece.position.x as int,
        a.next_piece.position.y as int,
    );
    &&& z.board.rows() == b2
    &&& z.board.total_cleared() == a.board.total_cleared() + n
    &&& z.score == a.score + bonus + base_points(n) * a.level
    &&& z.lines_cleared == a.lines_cleared + n
    &&& z.level == (if n > 0 { level_for(z.lines_cleared as int) } else { a.level as int })
    &&& z.current_piece matches Some(q) && same_piece(q, a.next_piece)
    &&& exists|k: TetrominoType| z.next_piece.is_spawn_of(k)
    &&& z.screen == (if over { game_over_screen(a.high_scores.list(), z.score) } else { a.screen })
    &&& ev == seq![GameEvent::Sound(SoundCue::Lock)] + clear_cues(n) + (if over {
        seq![GameEvent::Sound(SoundCue::GameOver)]
    } else {
        Seq::empty()
    })
    &&& z.high_scores == a.high_scores
    &&& z.current_name == a.current_name
    &&& z.paused == a.paused
    &&& timers_same(z, a)
}

/// A one-step move of the falling piece.
#[derive(Clone, Copy, Debug, PartialEq, Eq, Structural)]
pub enum Movement {
    Left,
    Right,
    Down,
}

/// The column after a movement from column `x`.
pub open spec fn moved_x(x: int, m: Movement) -> int {
    match m {
        Movement::Left => x - 1,
        Movement::Right => x + 1,
        Movement::Down => x,
    }
}

/// The row after a movement from row `y`.
pub open spec fn moved_y(y: int, m: Movement) -> int {
    match m {
        Movement::Down => y + 1,
        _ => y,
    }
}

/// The value fits a grid coordinate.
pub open spec fn in_i32(v: int) -> bool {
    i32::MIN <= v <= i32::MAX
}

/// The piece can make the movement: the moved position exists and the piece
/// does not collide there.
pub open spec fn move_ok(b: Seq<Seq<Color>>, p: Tetromino, m: Movement) -> bool {
    let x = moved_x(p.position.x as int, m);
    let y = moved_y(p.position.y as int, m);
    in_i32(x) && in_i32(y) && !collides(b, p.cells(), x, y)
}

/// The column offsets tried, in order, after a rotation: 0, -1, +1, -2, +2.
pub open spec fn kick(k: int) -> int {
    if k == 0 {
        0
    } else if k == 1 {
        -1
    } else if k == 2 {
        1
    } else if k == 3 {
        -2
    } else {
        2
    }
}

/// The turned shape fits with the `k`-th offset from column `x`, row `y`.
pub open spec fn kick_fits(b: Seq<Seq<Color>>, shape: Seq<Seq<bool>>, x: int, y: int, k: int) -> bool {
    in_i32(x + kick(k)) && !collides(b, shape, x + kick(k), y)
}

/// Some offset lets the turned shape fit.
pub open spec fn rotation_ok(b: Seq<Seq<Color>>, p: Tetromino) -> bool {
    exists|k: int|
        0 <= k < 5 && #[trigger] kick_fits(b, rotated(p.cells()), p.position.x as int, p.position.y as int, k)
}

/// Two sessions agree on their timers and blink states.
pub open spec fn timers_same(a: GameState, b: GameState) -> bool {
    &&& a.drop_timer == b.drop_timer
    &&& a.blink_timer == b.blink_timer
    &&& a.show_text == b.show_text
    &&& a.cursor_blink_timer == b.cursor_blink_timer
    &&& a.show_cursor == b.show_cursor
}

/// Two sessions agree on everything but the falling piece.
pub open spec fn same_but_piece(a: GameState, b: GameState) -> bool {
    &&& a.screen == b.screen
    &&& a.board == b.board
    &&& a.next_piece == b.next_piece
    &&& a.score == b.score
    &&& a.level == b.level
    &&& a.lines_cleared == b.lines_cleared
    &&& a.high_scores == b.high_scores
    &&& a.current_name == b.current_name
    &&& a.paused == b.paused
    &&& timers_same(a, b)
}

/// The outcome of trying a movement of the falling piece: it moves when it
/// fits where it goes, and nothing else changes.
pub open spec fn move_result(a: GameState, m: Movement, z: GameState, r: bool) -> bool {
    &&& same_but_piece(z, a)
    &&& match a.current_piece {
        None => !r && z.current_piece == a.current_piece,
        Some(p) => {
            &&& r == move_ok(a.board.rows(), p, m)
            &&& r ==> (z.current_piece matches Some(q) && q.cells() == p.cells() && q.color == p.color
                && q.position.x == moved_x(p.position.x as int, m) && q.position.y == moved_y(
                p.position.y as int,
                m,
            ))
            &&& !r ==> z.current_piece == a.current_piece
        },
    }
}

/// The outcome of trying to turn the falling piece: it turns, with the first
/// column offset that fits, when some offset fits, and nothing else changes.
pub open spec fn rotate_result(a: GameState, z: GameState, r: bool) -> bool {
    &&& same_but_piece(z, a)
    &&& match a.current_piece {
        None => !r && z.current_piece == a.current_piece,
        Some(p) => {
            let b = a.board.rows();
            let rs = rotated(p.cells());
            let x = p.position.x as int;
            let y = p.position.y as int;
            &&& r == rotation_ok(b, p)
            &&& r ==> exists|k: int|
                0 <= k < 5 && #[trigger] kick_fits(b, rs, x, y, k) && (forall|j: int|
                    0 <= j < k ==> !kick_fits(b, rs, x, y, j)) && (z.current_piece matches Some(q)
                    && q.cells() == rs && q.color == p.color && q.position.x == x + kick(k)
                    && q.position.y == y)
            &&& !r ==> z.current_piece == a.current_piece
        },
    }
}

/// The outcome of locking the falling piece where it stands.
pub open spec fn lock_result(a: GameState, z: GameState, ev: Seq<GameEvent>) -> bool {
    match a.current_piece {
        None => ev == Seq::<GameEvent>::empty() && z == a,
        Some(p) => lock_outcome(
            a,
            p.cells(),
            p.position.x as int,
            p.position.y as int,
            p.color,
            0,
            z,
            ev,
        ),
    }
}

/// The outcome of a hard drop: the piece falls as far as it can, the rows it
/// fell are scored, and it is locked there.
pub open spec fn hard_drop_result(a: GameState, z: GameState, ev: Seq<GameEvent>) -> bool {
    match a.current_piece {
        None => ev == Seq::<GameEvent>::empty() && z == a,
        Some(p) => exists|d: int|
            #[trigger] is_drop(a.board.rows(), p, d) && ev.len() >= 1 && ev[0] == GameEvent::Sound(
                SoundCue::Drop,
            ) && lock_outcome(
                a,
                p.cells(),
                p.position.x as int,
                p.position.y + (if d > 0 { d } else { 0 }),
                p.color,
                (if d > 0 { d } else { 0 }) * SCORE_DROP * a.level,
                z,
                ev.drop_first(),
            ),
    }
}

/// An intent from the player, as the input device reports it.
#[derive(Clone, Copy, Debug, PartialEq, Eq, Structural)]
pub enum Input {
    Left,
    Right,
    Down,
    Rotate,
    HardDrop,
    Pause,
    ToggleMusic,
    ShowHighScores,
    Submit,
    Backspace,
    /// A character typed for the player's name.
    Char(char),
    /// Any other key.
    Other,
}

/// The session after starting a new round from `a`.
pub open spec fn reset_result(a: GameState, z: GameState) -> bool {
    &&& z.screen == GameScreen::Playing
    &&& z.board.rows() == empty_rows(BOARD_HEIGHT as nat)
    &&& z.board.total_cleared() == 0
    &&& z.current_piece matches Some(p) && exists|k: TetrominoType| p.is_spawn_of(k)
    &&& exists|k: TetrominoType| z.next_piece.is_spawn_of(k)
    &&& z.score == 0
    &&& z.level == 1
    &&& z.lines_cleared == 0
    &&& z.drop_timer == 0
    &&& z.high_scores == a.high_scores
    &&& z.current_name == a.current_name
    &&& z.paused == a.paused
}

/// The session after a key on the name-entry screen.
pub open spec fn name_key_result(a: GameState, input: Input, z: GameState, ev: Seq<GameEvent>) -> bool {
    let name = a.current_name@;
    match input {
        Input::Submit => if name.len() > 0 {
            let e = crate::score::HighScoreEntry { name: a.current_name, score: a.score };
            let added = qualifies(a.high_scores.list(), a.score);
            &&& z.high_scores.wf()
            &&& added ==> z.high_scores.list() == crate::score::admitted(a.high_scores.list(), e)
            &&& !added ==> z.high_scores.list() == a.high_scores.list()
            &&& z == GameState { high_scores: z.high_scores, screen: GameScreen::HighScores, current_name: z.current_name, ..a }
            &&& z.current_name@ == Seq::<char>::empty()
            &&& ev == (if added { seq![GameEvent::HighScoresChanged] } else { Seq::empty() })
        } else {
            z == a && ev == Seq::<GameEvent>::empty()
        },
        Input::Backspace => {
            &&& z == GameState { current_name: z.current_name, ..a }
            &&& z.current_name@ == (if name.len() > 0 { name.drop_last() } else { name })
            &&& ev == Seq::<GameEvent>::empty()
        },
        Input::Char(c) => {
            &&& z == GameState { current_name: z.current_name, ..a }
            &&& z.current_name@ == (if name.len() < MAX_NAME_LEN { name.push(c) } else { name })
            &&& ev == Seq::<GameEvent>::empty()
        },
        _ => z == a && ev == Seq::<GameEvent>::empty(),
    }
}

/// The session after a key while playing.
pub open spec fn play_key_result(a: GameState, input: Input, z: GameState, ev: Seq<GameEvent>) -> bool {
    match input {
        Input::ToggleMusic => z == a && ev == seq![GameEvent::ToggleMusic],
        Input::Pause => z == GameState { paused: !a.paused, ..a } && ev == Seq::<GameEvent>::empty(),
        Input::Left => a.paused && z == a && ev == Seq::<GameEvent>::empty() || !a.paused && exists|r: bool|
            #[trigger] move_result(a, Movement::Left, z, r) && ev == (if r {
                seq![GameEvent::Sound(SoundCue::Move)]
            } else {
                Seq::empty()
            }),
        Input::Right => a.paused && z == a && ev == Seq::<GameEvent>::empty() || !a.paused && exists|r: bool|
            #[trigger] move_result(a, Movement::Right, z, r) && ev == (if r {
                seq![GameEvent::Sound(SoundCue::Move)]
            } else {
                Seq::empty()
            }),
        Input::Down => a.paused && z == a && ev == Seq::<GameEvent>::empty() || !a.paused && exists|r: bool|
            #[trigger] move_result(a, Movement::Down, z, r) && ev == (if r {
                seq![GameEvent::Sound(SoundCue::Move)]
            } else {
                Seq::empty()
            }),
        Input::Rotate => a.paused && z == a && ev == Seq::<GameEvent>::empty() || !a.paused && exists|r: bool|
            #[trigger] rotate_result(a, z, r) && ev == (if r {
                seq![GameEvent::Sound(SoundCue::Rotate)]
            } else {
                Seq::empty()
            }),
        Input::HardDrop => a.paused && z == a && ev == Seq::<GameEvent>::empty() || !a.paused
            && hard_drop_result(a, z, ev),
        _ => z == a && ev == Seq::<GameEvent>::empty(),
    }
}

/// The session after a key, screen by screen: on the title screen a key
/// starts a round, but for the music and high-score keys; while playing keys
/// move, turn, drop and pause; after a game over a key leads to name entry
/// when the score earns a place, else to the title; on the name-entry screen
/// keys edit and submit the name; on the high-score screen a key leads back
/// to the title.
pub open spec fn key_result(a: GameState, input: Input, z: GameState, ev: Seq<GameEvent>) -> bool {
    match a.screen {
        GameScreen::Title => match input {
            Input::ToggleMusic => z == a && ev == seq![GameEvent::ToggleMusic],
            Input::ShowHighScores => z == GameState { screen: GameScreen::HighScores, ..a } && ev
                == Seq::<GameEvent>::empty(),
            _ => reset_result(a, z) && ev == Seq::<GameEvent>::empty(),
        },
        GameScreen::Playing => play_key_result(a, input, z, ev),
        GameScreen::GameOver => z == GameState {
            screen: if qualifies(a.high_scores.list(), a.score) {
                GameScreen::EnterName
            } else {
                GameScreen::Title
            },
            ..a
        } && ev == Seq::<GameEvent>::empty(),
        GameScreen::EnterName => name_key_result(a, input, z, ev),
        GameScreen::HighScores => z == GameState { screen: GameScreen::Title, ..a } && ev == Seq::<
            GameEvent,
        >::empty(),
    }
}

/// A timer of `t` microseconds advanced by `dt` reaches `period`.
pub open spec fn fires(t: int, dt: int, period: int) -> bool {
    t + dt >= period
}

/// The blink timers after `dt` microseconds: each one that reaches its
/// period restarts and flips its flag.
pub open spec fn blink_result(a: GameState, dt: int, z: GameState) -> bool {
    let bf = fires(a.blink_timer as int, dt, BLINK_MICROS as int);
    let cf = fires(a.cursor_blink_timer as int, dt, CURSOR_BLINK_MICROS as int);
    &&& z.blink_timer == (if bf { 0 } else { a.blink_timer + dt })
    &&& z.show_text == (if bf { !a.show_text } else { a.show_text })
    &&& z.cursor_blink_timer == (if cf { 0 } else { a.cursor_blink_timer + dt })
    &&& z.show_cursor == (if cf { !a.show_cursor } else { a.show_cursor })
}

/// The interval between automatic drops at a level, in microseconds.
pub open spec fn drop_interval_at(level: int) -> int {
    10 * BASE_DROP_MICROS / (level + 9)
}

/// The session after the automatic drop of one frame: while playing and not
/// paused, the drop timer advances; when it reaches the level's interval it
/// restarts and the piece moves down one row, or locks when it cannot.
pub open spec fn auto_drop_result(a: GameState, dt: int, z: GameState, ev: Seq<GameEvent>) -> bool {
    if a.screen != GameScreen::Playing || a.paused {
        z == a && ev == Seq::<GameEvent>::empty()
    } else if !fires(a.drop_timer as int, dt, drop_interval_at(a.level as int)) {
        z == GameState { drop_timer: (a.drop_timer + dt) as u64, ..a } && ev == Seq::<GameEvent>::empty()
    } else {
        let s = GameState { drop_timer: 0, ..a };
        exists|m: GameState, r: bool|
            #[trigger] move_result(s, Movement::Down, m, r) && (r ==> z == m && ev == Seq::<
                GameEvent,
            >::empty()) && (!r ==> lock_result(m, z, ev))
    }
}

/// The session after a frame of `dt` microseconds: blink timers, then the
/// automatic drop, then name entry when the game is over with a score that
/// earns a place.
pub open spec fn update_result(a: GameState, dt: int, z: GameState, ev: Seq<GameEvent>) -> bool {
    exists|b: GameState, c: GameState|
        #![trigger blink_result(a, dt, b), auto_drop_result(b, dt, c, ev)]
        {
            &&& blink_result(a, dt, b)
            &&& b == GameState {
                blink_timer: b.blink_timer,
                show_text: b.show_text,
                cursor_blink_timer: b.cursor_blink_timer,
                show_cursor: b.show_cursor,
                ..a
            }
            &&& auto_drop_result(b, dt, c, ev)
            &&& z == (if c.screen == GameScreen::GameOver && qualifies(c.high_scores.list(), c.score) {
                GameState { screen: GameScreen::EnterName, ..c }
            } else {
                c
            })
        }
}

fn kick_offset(k: usize) -> (o: i64)
    requires
        k < 5,
    ensures
        o == kick(k as int),
{
    match k {
        0 => 0,
        1 => -1,
        2 => 1,
        3 => -2,
        _ => 2,
    }
}

/// A turned shape keeps an occupied cell.
proof fn lemma_rotated_has_cell(s: Seq<Seq<bool>>)
    requires
        rect(s),
        has_cell(s),
    ensures
        has_cell(rotated(s)),
{
    let (r, c) = choose|r: int, c: int| occupied(s, r, c);
    lemma_rotated_rect(s);
    assert(occupied(rotated(s), c, s.len() - 1 - r));
}

/// A piece that the session can hold: well-formed, with an occupied cell, and
/// far enough from the lowest row number for drops to be counted.
pub open spec fn piece_ok(p: Tetromino) -> bool {
    &&& p.wf()
    &&& has_cell(p.cells())
    &&& p.position.y > i32::MIN + GRID_HEIGHT
}

/// Every kind's shape has an occupied cell.
pub proof fn lemma_kind_has_cell(k: TetrominoType)
    ensures
        has_cell(kind_shape(k)),
        rect(kind_shape(k)),
{
    let s = kind_shape(k);
    match k {
        TetrominoType::I => assert(occupied(s, 0, 0)),
        _ => assert(occupied(s, 1, 1)),
    }
}

/// A fresh piece can be held by the session.
proof fn lemma_spawned_ok(p: Tetromino, k: TetrominoType)
    requires
        p.is_spawn_of(k),
    ensures
        piece_ok(p),
{
    lemma_kind_has_cell(k);
}

/// The state of one game session: the screen, the board, the falling and
/// the next piece, the counters, the high-score table and the name being
/// typed. Timers count microseconds.
#[derive(Debug)]
pub struct GameState {
    pub screen: GameScreen,
    pub board: GameBoard,
    pub current_piece: Option<Tetromino>,
    pub next_piece: Tetromino,
    pub drop_timer: u64,
    pub blink_timer: u64,
    pub show_text: bool,
    pub score: u32,
    pub level: u32,
    pub lines_cleared: u32,
    pub high_scores: HighScores,
    pub current_name: String,
    pub cursor_blink_timer: u64,
    pub show_cursor: bool,
    pub paused: bool,
}

impl GameState {
    /// The parts of the session hold their own invariants.
    pub open spec fn wf(&self) -> bool {
        &&& self.board.wf()
        &&& self.high_scores.wf()
        &&& piece_ok(self.next_piece)
        &&& (self.current_piece matches Some(p) ==> piece_ok(p))
    }

    /// The counters can take the largest award of one lock, a four-row
    /// clear, without overflow.
    pub open spec fn lock_room(&self) -> bool {
        &&& self.score + 1200 * self.level <= u32::MAX
        &&& self.lines_cleared + BOARD_HEIGHT <= u32::MAX
        &&& self.board.total_cleared() + BOARD_HEIGHT <= u32::MAX
    }

    /// The counters can take the largest award of a hard drop and the lock
    /// that follows without overflow.
    pub open spec fn room(&self) -> bool {
        &&& self.lock_room()
        &&& self.score + (BOARD_HEIGHT + 1200) * self.level <= u32::MAX
        &&& (self.current_piece matches Some(p) ==> p.position.y >= 0 || self.score + (BOARD_HEIGHT
            - p.position.y + 1200) * self.level <= u32::MAX)
        &&& self.lines_cleared + BOARD_HEIGHT <= u32::MAX
        &&& self.board.total_cleared() + BOARD_HEIGHT <= u32::MAX
    }

    /// Whether the counters have room for the next step, as `room` states.
    pub fn has_room(&self) -> (r: bool)
        ensures
            r == self.room(),
    {
        let lv = self.level as u64;
        let sc = self.score as u64;
        let max = u32::MAX as u64;
        let piece_room = match &self.current_piece {
            None => true,
            Some(p) => {
                if p.position.y >= 0 {
                    true
                } else {
                    let h: u64 = BOARD_HEIGHT as u64 + 1200 + (-(p.position.y as i64)) as u64;
                    assert(h * lv <= 0x1_0000_0000 * 0xffff_ffff) by (nonlinear_arith)
                        requires
                            h <= 0x1_0000_0000,
                            lv <= 0xffff_ffff,
                    ;
                    sc + h * lv <= max
                }
            },
        };
        let full: u64 = BOARD_HEIGHT as u64 + 1200;
        assert(full * lv <= 0x1_0000_0000 * 0xffff_ffff) by (nonlinear_arith)
            requires
                full <= 0x1_0000_0000,
                lv <= 0xffff_ffff,
        ;
        sc + 1200 * lv <= max && self.lines_cleared as u64 + BOARD_HEIGHT as u64 <= max
            && self.board.lines_cleared() as u64 + BOARD_HEIGHT as u64 <= max && sc + full * lv <= max
            && piece_room
    }

    /// A session on the title screen, with an empty board, fresh pieces and
    /// the given high-score table.
    pub fn new(high_scores: HighScores) -> (g: GameState)
        requires
            high_scores.wf(),
        ensures
            g.wf(),
            g.screen == GameScreen::Title,
            g.board.rows() == empty_rows(BOARD_HEIGHT as nat),
            g.current_piece matches Some(p) && exists|k: TetrominoType| p.is_spawn_of(k),
            exists|k: TetrominoType| g.next_piece.is_spawn_of(k),
            g.score == 0,
            g.level == 1,
            g.lines_cleared == 0,
            g.high_scores == high_scores,
            g.current_name@ == Seq::<char>::empty(),
            !g.paused,
    {
        let mut g = GameState::new_test();
        g.screen = GameScreen::Title;
        g.high_scores = high_scores;
        g
    }

    /// A session already playing, with an empty board, fresh pieces and an
    /// empty high-score table.
    pub fn new_test() -> (g: GameState)
        ensures
            g.wf(),
            g.screen == GameScreen::Playing,
            g.board.rows() == empty_rows(BOARD_HEIGHT as nat),
            g.board.total_cleared() == 0,
            g.current_piece matches Some(p) && exists|k: TetrominoType| p.is_spawn_of(k),
            exists|k: TetrominoType| g.next_piece.is_spawn_of(k),
            g.score == 0,
            g.level == 1,
            g.lines_cleared == 0,
            g.high_scores.list() == Seq::<crate::score::HighScoreEntry>::empty(),
            g.current_name@ == Seq::<char>::empty(),
            !g.paused,
    {
        let current = Tetromino::random();
        let next = Tetromino::random();
        proof {
            let k1 = choose|k: TetrominoType| current.is_spawn_of(k);
            lemma_spawned_ok(current, k1);
            let k2 = choose|k: TetrominoType| next.is_spawn_of(k);
            lemma_spawned_ok(next, k2);
        }
        GameState {
            screen: GameScreen::Playing,
            board: GameBoard::new(),
            current_piece: Some(current),
            next_piece: next,
            drop_timer: 0,
            blink_timer: 0,
            show_text: true,
            score: 0,
            level: 1,
            lines_cleared: 0,
            high_scores: HighScores::new(),
            current_name: String::new(),
            cursor_blink_timer: 0,
            show_cursor: true,
            paused: false,
        }
    }

    /// Starts a new round: empty board, fresh pieces, zero score and rows,
    /// level 1, playing. The high-score table and the name are kept.
    pub fn reset_game(&mut self)
        requires
            old(self).wf(),
        ensures
            final(self).wf(),
            final(self).screen == GameScreen::Playing,
            final(self).board.rows() == empty_rows(BOARD_HEIGHT as nat),
            final(self).board.total_cleared() == 0,
            final(self).current_piece matches Some(p) && exists|k: TetrominoType| p.is_spawn_of(k),
            exists|k: TetrominoType| final(self).next_piece.is_spawn_of(k),
            final(self).score == 0,
            final(self).level == 1,
            final(self).lines_cleared == 0,
            final(self).drop_timer == 0,
            final(self).high_scores == old(self).high_scores,
            final(self).current_name == old(self).current_name,
            final(self).paused == old(self).paused,
    {
        self.board.reset();
        let current = Tetromino::random();
        let next = Tetromino::random();
        proof {
            let k1 = choose|k: TetrominoType| current.is_spawn_of(k);
            lemma_spawned_ok(current, k1);
            let k2 = choose|k: TetrominoType| next.is_spawn_of(k);
            lemma_spawned_ok(next, k2);
        }
        self.current_piece = Some(current);
        self.next_piece = next;
        self.drop_timer = 0;
        self.screen = GameScreen::Playing;
        self.score = 0;
        self.level = 1;
        self.lines_cleared = 0;
    }

    /// Tries one movement of the falling piece on a copy; the copy replaces
    /// the piece when it does not collide. Returns whether the piece moved.
    pub fn move_piece(&mut self, m: Movement) -> (r: bool)
        requires
            old(self).wf(),
        ensures
            final(self).wf(),
            move_result(*old(self), m, *final(self), r),
    {
        let mut cand = match &self.current_piece {
            None => {
                return false;
            },
            Some(p) => p.copied(),
        };
        match m {
            Movement::Left => {
                if cand.position.x == i32::MIN {
                    return false;
                }
                cand.move_left();
            },
            Movement::Right => {
                if cand.position.x == i32::MAX {
                    return false;
                }
                cand.move_right();
            },
            Movement::Down => {
                if cand.position.y == i32::MAX {
                    return false;
                }
                cand.move_down();
            },
        }
        if !self.board.check_collision(&cand) {
            self.current_piece = Some(cand);
            true
        } else {
            false
        }
    }

    /// Turns the falling piece clockwise on a copy and tries the column
    /// offsets 0, -1, +1, -2, +2 in order; the first that does not collide is
    /// kept. When none fits, the piece keeps its shape and position. Returns
    /// whether the piece turned.
    pub fn try_rotate(&mut self) -> (r: bool)
        requires
            old(self).wf(),
        ensures
            final(self).wf(),
            rotate_result(*old(self), *final(self), r),
    {
        let mut cand = match &self.current_piece {
            None => {
                return false;
            },
            Some(p) => p.copied(),
        };
        let ghost p = self.current_piece.unwrap();
        let ghost b = self.board.rows();
        let ghost rs = rotated(p.cells());
        let ghost x = p.position.x as int;
        let ghost y = p.position.y as int;
        cand.rotate();
        proof {
            lemma_rotated_has_cell(p.cells());
        }
        let mut k: usize = 0;
        while k < 5
            invariant
                self.wf(),
                same_but_piece(*self, *old(self)),
                old(self).current_piece == Some(p),
                self.current_piece == Some(p),
                b == self.board.rows(),
                rs == rotated(p.cells()),
                x == p.position.x,
                y == p.position.y,
                cand.cells() == rs,
                cand.color == p.color,
                cand.position == p.position,
                piece_ok(cand),
                rect(rs),
                k <= 5,
                forall|j: int| 0 <= j < k ==> !#[trigger] kick_fits(b, rs, x, y, j),
            decreases 5 - k,
        {
            let nx = cand.position.x as i64 + kick_offset(k);
            if i32::MIN as i64 <= nx && nx <= i32::MAX as i64 {
                let mut test = cand.copied();
                test.position.x = nx as i32;
                if !self.board.check_collision(&test) {
                    assert(kick_fits(b, rs, x, y, k as int));
                    self.current_piece = Some(test);
                    return true;
                }
            }
            k = k + 1;
        }
        false
    }

    /// Makes the next piece the falling one and draws a fresh next piece;
    /// when the new falling piece collides, the game ends, on the name-entry
    /// screen if the score earns a place in the high-score table.
    pub fn spawn_new_piece(&mut self) -> (ev: Vec<GameEvent>)
        requires
            old(self).wf(),
        ensures
            final(self).wf(),
            final(self).current_piece matches Some(q) && same_piece(q, old(self).next_piece),
            exists|k: TetrominoType| final(self).next_piece.is_spawn_of(k),
            ({
                let n = old(self).next_piece;
                let over = collides(
                    old(self).board.rows(),
                    n.cells(),
                    n.position.x as int,
                    n.position.y as int,
                );
                &&& final(self).screen == (if over {
                    game_over_screen(old(self).high_scores.list(), old(self).score)
                } else {
                    old(self).screen
                })
                &&& ev@ == (if over {
                    seq![GameEvent::Sound(SoundCue::GameOver)]
                } else {
                    Seq::empty()
                })
            }),
            final(self).board == old(self).board,
            final(self).score == old(self).score,
            final(self).level == old(self).level,
            final(self).lines_cleared == old(self).lines_cleared,
            final(self).high_scores == old(self).high_scores,
            final(self).current_name == old(self).current_name,
            final(self).paused == old(self).paused,
            timers_same(*final(self), *old(self)),
    {
        let mut ev: Vec<GameEvent> = Vec::new();
        let new_piece = self.next_piece.copied();
        if self.board.check_collision(&new_piece) {
            self.screen = GameScreen::GameOver;
            ev.push(GameEvent::Sound(SoundCue::GameOver));
            if self.check_high_score() {
                self.screen = GameScreen::EnterName;
            }
        }
        let next = Tetromino::random();
        proof {
            let k = choose|k: TetrominoType| next.is_spawn_of(k);
            lemma_spawned_ok(next, k);
        }
        self.next_piece = next;
        self.current_piece = Some(new_piece);
        proof {
            let k = choose|k: TetrominoType| next.is_spawn_of(k);
            assert(self.next_piece.is_spawn_of(k));
            assert(ev@ =~= (if collides(
                old(self).board.rows(),
                old(self).next_piece.cells(),
                old(self).next_piece.position.x as int,
                old(self).next_piece.position.y as int,
            ) {
                seq![GameEvent::Sound(SoundCue::GameOver)]
            } else {
                Seq::empty()
            }));
        }
        ev
    }

    /// Clears the full rows of the board, scores them at the current level,
    /// adds them to the total and recomputes the level; returns how many
    /// rows were cleared.
    pub fn clear_lines(&mut self) -> (n: u32)
        requires
            old(self).wf(),
            old(self).lock_room(),
        ensures
            final(self).wf(),
            n == full_count(old(self).board.rows()),
            final(self).board.rows() == cleared(old(self).board.rows()),
            final(self).board.total_cleared() == old(self).board.total_cleared() + n,
            final(self).score == old(self).score + base_points(n as int) * old(self).level,
            final(self).lines_cleared == old(self).lines_cleared + n,
            final(self).level == (if n > 0 { level_for(final(self).lines_cleared as int) } else { old(self).level as int }),
            *final(self) == (GameState {
                board: final(self).board,
                score: final(self).score,
                lines_cleared: final(self).lines_cleared,
                level: final(self).level,
                ..*old(self)
            }),
    {
        let ghost b = self.board.rows();
        let n = self.board.clear_lines();
        proof {
            crate::board::lemma_kept_rows_len(b);
            let bp = base_points(n as int);
            let lv = self.level as int;
            assert(bp * lv <= 1200 * lv) by (nonlinear_arith)
                requires
                    0 <= bp <= 1200,
                    lv >= 0,
            ;
        }
        self.record_cleared(n);
        n
    }

    /// Locks the falling piece into the board, clears and scores full rows,
    /// and spawns the next piece.
    pub fn lock_piece(&mut self) -> (ev: Vec<GameEvent>)
        requires
            old(self).wf(),
            old(self).lock_room(),
        ensures
            final(self).wf(),
            lock_result(*old(self), *final(self), ev@),
    {
        let piece = match &self.current_piece {
            None => {
                return Vec::new();
            },
            Some(p) => p.copied(),
        };
        let ghost a = *self;
        let ghost p = self.current_piece.unwrap();
        let mut ev: Vec<GameEvent> = Vec::new();
        self.board.lock_piece(&piece);
        ev.push(GameEvent::Sound(SoundCue::Lock));
        let n = self.clear_lines();
        if n == 4 {
            ev.push(GameEvent::Sound(SoundCue::Tetris));
        } else if n > 0 {
            ev.push(GameEvent::Sound(SoundCue::Clear));
        }
        let ghost mid = ev@;
        assert(mid =~= seq![GameEvent::Sound(SoundCue::Lock)] + clear_cues(n as int));
        let spawn_ev = self.spawn_new_piece();
        let mut spawn_ev = spawn_ev;
        ev.append(&mut spawn_ev);
        ev
    }

    /// Drops the falling piece as far as it can fall, scores the rows it
    /// fell at the current level, and locks it. A piece that already
    /// collides where it stands is locked where it is, for no drop points.
    pub fn hard_drop(&mut self) -> (ev: Vec<GameEvent>)
        requires
            old(self).wf(),
            old(self).room(),
        ensures
            final(self).wf(),
            hard_drop_result(*old(self), *final(self), ev@),
    {
        let mut piece = match &self.current_piece {
            None => {
                return Vec::new();
            },
            Some(p) => p.copied(),
        };
        let ghost p = self.current_piece.unwrap();
        let ghost b = self.board.rows();
        let d = self.board.calculate_drop_position(&piece);
        let dd: i32 = if d > 0 { d } else { 0 };
        proof {
            let y = p.position.y as int;
            let (r0, c0) = choose|r: int, c: int| occupied(p.cells(), r, c);
            if d >= 0 {
                assert(!collides(b, p.cells(), p.position.x as int, y + d));
                assert(!crate::board::cell_blocked(b, p.position.x + c0, y + d + r0));
            }
            assert(y + dd < BOARD_HEIGHT || dd == 0);
            let lv = self.level as int;
            let dv = dd as int;
            assert(dv * SCORE_DROP * lv == dv * lv);
            if y >= 0 {
                assert(dv <= BOARD_HEIGHT);
                assert(dv * lv <= BOARD_HEIGHT * lv) by (nonlinear_arith)
                    requires
                        0 <= dv <= BOARD_HEIGHT,
                        lv >= 0,
                ;
                assert((BOARD_HEIGHT + 1200) * lv == BOARD_HEIGHT * lv + 1200 * lv) by (nonlinear_arith);
            } else {
                let h = BOARD_HEIGHT - y;
                assert(dv * lv <= h * lv) by (nonlinear_arith)
                    requires
                        0 <= dv <= h,
                        lv >= 0,
                ;
                assert((h + 1200) * lv == h * lv + 1200 * lv) by (nonlinear_arith);
            }
        }
        piece.position.y = piece.position.y + dd;
        self.add_drop_points(dd as u32);
        self.current_piece = Some(piece);
        let mut ev: Vec<GameEvent> = Vec::new();
        ev.push(GameEvent::Sound(SoundCue::Drop));
        let mut lock_ev = self.lock_piece();
        let ghost lev = lock_ev@;
        ev.append(&mut lock_ev);
        assert(ev@.drop_first() =~= lev);
        assert(is_drop(b, p, d as int));
        ev
    }

    /// Handles one key.
    pub fn key_down(&mut self, input: Input) -> (ev: Vec<GameEvent>)
        requires
            old(self).wf(),
            old(self).room(),
        ensures
            final(self).wf(),
            key_result(*old(self), input, *final(self), ev@),
    {
        let mut ev: Vec<GameEvent> = Vec::new();
        match self.screen {
            GameScreen::Title => {
                match input {
                    Input::ToggleMusic => {
                        ev.push(GameEvent::ToggleMusic);
                    },
                    Input::ShowHighScores => {
                        self.screen = GameScreen::HighScores;
                    },
                    _ => {
                        self.reset_game();
                    },
                }
            },
            GameScreen::Playing => {
                ev = self.play_key(input);
            },
            GameScreen::GameOver => {
                if self.check_high_score() {
                    self.screen = GameScreen::EnterName;
                } else {
                    self.screen = GameScreen::Title;
                }
            },
            GameScreen::EnterName => {
                ev = self.name_key(input);
            },
            GameScreen::HighScores => {
                self.screen = GameScreen::Title;
            },
        }
        ev
    }

    /// Handles one key while playing.
    fn play_key(&mut self, input: Input) -> (ev: Vec<GameEvent>)
        requires
            old(self).wf(),
            old(self).room(),
        ensures
            final(self).wf(),
            play_key_result(*old(self), input, *final(self), ev@),
    {
        let mut ev: Vec<GameEvent> = Vec::new();
        match input {
            Input::ToggleMusic => {
                ev.push(GameEvent::ToggleMusic);
            },
            Input::Pause => {
                self.paused = !self.paused;
            },
            Input::Left | Input::Right | Input::Down => {
                if !self.paused {
                    let m = match input {
                        Input::Left => Movement::Left,
                        Input::Right => Movement::Right,
                        _ => Movement::Down,
                    };
                    let moved = self.move_piece(m);
                    if moved {
                        ev.push(GameEvent::Sound(SoundCue::Move));
                    }
                    assert(move_result(*old(self), m, *self, moved));
                }
            },
            Input::Rotate => {
                if !self.paused {
                    let turned = self.try_rotate();
                    if turned {
                        ev.push(GameEvent::Sound(SoundCue::Rotate));
                    }
                    assert(rotate_result(*old(self), *self, turned));
                }
            },
            Input::HardDrop => {
                if !self.paused {
                    ev = self.hard_drop();
                }
            },
            _ => {},
        }
        ev
    }

    /// Handles one key on the name-entry screen.
    fn name_key(&mut self, input: Input) -> (ev: Vec<GameEvent>)
        requires
            old(self).wf(),
        ensures
            final(self).wf(),
            name_key_result(*old(self), input, *final(self), ev@),
    {
        let mut ev: Vec<GameEvent> = Vec::new();
        match input {
            Input::Submit => {
                if !self.current_name.as_str().is_empty() {
                    let added = self.add_high_score();
                    self.screen = GameScreen::HighScores;
                    self.current_name = String::new();
                    if added {
                        ev.push(GameEvent::HighScoresChanged);
                    }
                }
            },
            Input::Backspace => {
                let _ = pop_char(&mut self.current_name);
            },
            Input::Char(c) => {
                if self.current_name.as_str().unicode_len() < MAX_NAME_LEN {
                    push_char(&mut self.current_name, c);
                }
            },
            _ => {},
        }
        ev
    }

    /// Advances the session by one frame of `dt` microseconds.
    pub fn update(&mut self, dt: u64) -> (ev: Vec<GameEvent>)
        requires
            old(self).wf(),
            old(self).room(),
        ensures
            final(self).wf(),
            update_result(*old(self), dt as int, *final(self), ev@),
    {
        if dt >= BLINK_MICROS || self.blink_timer >= BLINK_MICROS - dt {
            self.blink_timer = 0;
            self.show_text = !self.show_text;
        } else {
            self.blink_timer = self.blink_timer + dt;
        }
        if dt >= CURSOR_BLINK_MICROS || self.cursor_blink_timer >= CURSOR_BLINK_MICROS - dt {
            self.cursor_blink_timer = 0;
            self.show_cursor = !self.show_cursor;
        } else {
            self.cursor_blink_timer = self.cursor_blink_timer + dt;
        }
        let ghost b = *self;
        let mut ev: Vec<GameEvent> = Vec::new();
        if self.screen == GameScreen::Playing && !self.paused {
            let interval = self.drop_interval();
            if dt >= interval || self.drop_timer >= interval - dt {
                self.drop_timer = 0;
                let ghost s = *self;
                let moved = self.move_piece(Movement::Down);
                let ghost m = *self;
                if !moved {
                    ev = self.lock_piece();
                }
                assert(move_result(s, Movement::Down, m, moved));
            } else {
                self.drop_timer = self.drop_timer + dt;
            }
        }
        let ghost c = *self;
        if self.screen == GameScreen::GameOver && self.check_high_score() {
            self.screen = GameScreen::EnterName;
        }
        assert(blink_result(*old(self), dt as int, b));
        assert(auto_drop_result(b, dt as int, c, ev@));
        ev
    }

    /// Whether the piece collides with the board of this session.
    pub fn check_collision(&self, piece: &Tetromino) -> (r: bool)
        requires
            self.board.wf(),
            piece.wf(),
        ensures
            r == collides(self.board.rows(), piece.cells(), piece.position.x as int, piece.position.y as int),
    {
        self.board.check_collision(piece)
    }

    /// Adds the points for clearing `lines` rows in one lock at the current
    /// level.
    pub fn update_score(&mut self, lines: u32)
        requires
            old(self).score + base_points(lines as int) * old(self).level <= u32::MAX,
        ensures
            final(self).score == old(self).score + base_points(lines as int) * old(self).level,
            final(self).level == old(self).level,
            final(self).lines_cleared == old(self).lines_cleared,
            final(self).board == old(self).board,
            final(self).screen == old(self).screen,
            final(self).current_piece == old(self).current_piece,
            final(self).next_piece == old(self).next_piece,
            final(self).high_scores == old(self).high_scores,
            final(self).current_name == old(self).current_name,
            final(self).paused == old(self).paused,
            timers_same(*final(self), *old(self)),
    {
        let p = line_points(lines) as u64 * self.level as u64;
        self.score = (self.score as u64 + p) as u32;
    }

    /// Adds the points for a hard drop of `cells` rows at the current level.
    pub fn add_drop_points(&mut self, cells: u32)
        requires
            old(self).score + cells * SCORE_DROP * old(self).level <= u32::MAX,
        ensures
            final(self).score == old(self).score + cells * SCORE_DROP * old(self).level,
            final(self).level == old(self).level,
            final(self).lines_cleared == old(self).lines_cleared,
            final(self).board == old(self).board,
            final(self).screen == old(self).screen,
            final(self).current_piece == old(self).current_piece,
            final(self).next_piece == old(self).next_piece,
            final(self).high_scores == old(self).high_scores,
            final(self).current_name == old(self).current_name,
            final(self).paused == old(self).paused,
            timers_same(*final(self), *old(self)),
    {
        let p = cells as u64 * SCORE_DROP as u64 * self.level as u64;
        self.score = (self.score as u64 + p) as u32;
    }

    /// Scores `n` rows cleared in one lock, adds them to the total and
    /// recomputes the level from the new total.
    pub fn record_cleared(&mut self, n: u32)
        requires
            old(self).score + base_points(n as int) * old(self).level <= u32::MAX,
            old(self).lines_cleared + n <= u32::MAX,
        ensures
            final(self).score == old(self).score + base_points(n as int) * old(self).level,
            final(self).lines_cleared == old(self).lines_cleared + n,
            n > 0 ==> final(self).level == level_for(final(self).lines_cleared as int),
            n == 0 ==> final(self).level == old(self).level,
            final(self).board == old(self).board,
            final(self).screen == old(self).screen,
            final(self).current_piece == old(self).current_piece,
            final(self).next_piece == old(self).next_piece,
            final(self).high_scores == old(self).high_scores,
            final(self).current_name == old(self).current_name,
            final(self).paused == old(self).paused,
            timers_same(*final(self), *old(self)),
    {
        if n > 0 {
            self.update_score(n);
            self.lines_cleared = self.lines_cleared + n;
            self.level = level_for_lines(self.lines_cleared);
        }
    }

    /// The interval between automatic drops at the current level, in
    /// microseconds: one second divided by `1 + (level - 1) / 10`.
    pub fn drop_interval(&self) -> (t: u64)
        ensures
            t == drop_interval_at(self.level as int),
    {
        10 * BASE_DROP_MICROS / (self.level as u64 + 9)
    }

    /// Whether the current score would earn a place in the high-score table.
    pub fn check_high_score(&self) -> (r: bool)
        requires
            self.high_scores.wf(),
        ensures
            r == crate::score::qualifies(self.high_scores.list(), self.score),
    {
        self.high_scores.would_qualify(self.score)
    }

    /// Offers the current name and score to the high-score table.
    pub fn add_high_score(&mut self) -> (r: bool)
        requires
            old(self).high_scores.wf(),
        ensures
            final(self).high_scores.wf(),
            r == crate::score::qualifies(old(self).high_scores.list(), old(self).score),
            r ==> final(self).high_scores.list() == crate::score::admitted(
                old(self).high_scores.list(),
                crate::score::HighScoreEntry { name: old(self).current_name, score: old(self).score },
            ),
            !r ==> final(self).high_scores.list() == old(self).high_scores.list(),
            *final(self) == (GameState { high_scores: final(self).high_scores, ..*old(self) }),
    {
        let name = self.current_name.clone();
        self.high_scores.add_score(name, self.score)
    }
}

/// Scoring rows cleared in one lock at a level gives the base points times
/// the level: 40, 100, 300 and 1200 at level 1, and linearly more above.
pub proof fn lemma_points_scale_with_level(n: int, level: int)
    requires
        level >= 1,
    ensures
        base_points(n) * level == (if n == 1 {
            40 * level
        } else if n == 2 {
            100 * level
        } else if n == 3 {
            300 * level
        } else if n == 4 {
            1200 * level
        } else {
            0
        }),
{
}

/// The level is 1 up to 9 rows cleared, 2 from 10 rows, 3 from 20 rows,
/// and it never goes down as rows accumulate.
pub proof fn lemma_level_progression(a: int, b: int)
    requires
        0 <= a <= b,
    ensures
        level_for(9) == 1,
        level_for(10) == 2,
        level_for(20) == 3,
        level_for(a) <= level_for(b),
        level_for(a) >= 1,
{
}

} // verus!
