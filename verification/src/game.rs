//! The board and session state: grid representation, spawning, collision,
//! hold, garbage reception and the session clock.

use vstd::prelude::*;
use crate::piece::{
    Bag, Piece, lemma_offsets_bounded, spec_offsets,
    BOARD_CELLS, BOARD_HEIGHT, BOARD_WIDTH, BUFFER_HEIGHT, EMPTY, GARBAGE_CELL, KIND_COUNT, MAX_POS,
};
use crate::settings::Settings;
use crate::types::{ClearAction, GameMode, GarbageRiseAnimation, LastMove, LineClearAnimation};

verus! {

/// One game session.  The board is stored row-major: the cell at row `r`,
/// column `c` is `board[r * BOARD_WIDTH + c]`.  Row 0 is the top of the
/// hidden buffer; rows `BUFFER_HEIGHT..BOARD_HEIGHT` are visible.
pub struct Game {
    pub board: Vec<u8>,
    pub current: Piece,
    pub next_queue: Vec<usize>,
    pub hold: Option<usize>,
    pub hold_used: bool,
    pub bag: Bag,
    pub score: u32,
    pub lines: u32,
    pub level: u32,
    pub start_level: u32,
    pub game_over: bool,
    pub last_move: LastMove,
    pub combo: i32,
    pub back_to_back: bool,
    pub last_action: Option<ClearAction>,
    pub last_action_time: u64,
    pub lock_delay: Option<u64>,
    pub line_clear_anim: Option<LineClearAnimation>,
    pub are_timer: Option<u64>,
    pub mode: GameMode,
    pub game_start: u64,
    pub elapsed: u64,
    pub cleared: bool,
    pub marathon_goal: u32,
    pub sprint_goal: u32,
    pub ultra_time: u32,
    pub level_cap: Option<u32>,
    pub ghost_enabled: bool,
    pub line_clear_anim_enabled: bool,
    pub next_count: usize,
    pub srs: bool,
    pub hold_enabled: bool,
    pub lock_delay_ms: u32,
    pub move_reset: Option<u32>,
    pub move_reset_count: u32,
    pub garbage_rise_anim: Option<GarbageRiseAnimation>,
}

/// The rows of `0..n` that are not listed in `removed`, in increasing order.
pub open spec fn kept_rows_upto(removed: Seq<usize>, n: int) -> Seq<usize>
    decreases n,
{
    if n <= 0 {
        Seq::empty()
    } else if removed.contains((n - 1) as usize) {
        kept_rows_upto(removed, n - 1)
    } else {
        kept_rows_upto(removed, n - 1) + seq![(n - 1) as usize]
    }
}

pub proof fn lemma_kept_rows_upto_props(removed: Seq<usize>, n: int)
    requires
        n >= 0,
    ensures
        kept_rows_upto(removed, n).len() <= n,
        forall |j: int| 0 <= j < kept_rows_upto(removed, n).len()
            ==> #[trigger] kept_rows_upto(removed, n)[j] < n,
    decreases n,
{
    if n > 0 {
        lemma_kept_rows_upto_props(removed, n - 1);
    }
}

/// The cell at (r, c) of a row-major board sequence.
pub open spec fn board_cell(b: Seq<u8>, r: int, c: int) -> u8 {
    b[r * (BOARD_WIDTH as int) + c]
}

pub open spec fn board_row_full(b: Seq<u8>, r: int) -> bool {
    forall |c: int| 0 <= c < BOARD_WIDTH ==> board_cell(b, r, c) != EMPTY
}

pub open spec fn board_row_empty(b: Seq<u8>, r: int) -> bool {
    forall |c: int| 0 <= c < BOARD_WIDTH ==> board_cell(b, r, c) == EMPTY
}

/// The full rows among `0..n`, in increasing order.
pub open spec fn board_full_rows_upto(b: Seq<u8>, n: int) -> Seq<usize>
    decreases n,
{
    if n <= 0 {
        Seq::empty()
    } else if board_row_full(b, n - 1) {
        board_full_rows_upto(b, n - 1) + seq![(n - 1) as usize]
    } else {
        board_full_rows_upto(b, n - 1)
    }
}

/// The full rows of a board, in increasing order.
pub open spec fn board_full_rows(b: Seq<u8>) -> Seq<usize> {
    board_full_rows_upto(b, BOARD_HEIGHT as int)
}

pub proof fn lemma_board_full_rows_upto_props(b: Seq<u8>, n: int)
    requires
        0 <= n <= BOARD_HEIGHT,
    ensures
        board_full_rows_upto(b, n).len() <= n,
        forall |j: int| 0 <= j < board_full_rows_upto(b, n).len()
            ==> #[trigger] board_full_rows_upto(b, n)[j] < n
                && board_row_full(b, board_full_rows_upto(b, n)[j] as int),
        forall |r: int| 0 <= r < n && board_row_full(b, r)
            ==> board_full_rows_upto(b, n).contains(r as usize),
    decreases n,
{
    if n > 0 {
        lemma_board_full_rows_upto_props(b, n - 1);
        if board_row_full(b, n - 1) {
            assert(board_full_rows_upto(b, n)[board_full_rows_upto(b, n).len() - 1] == (n - 1) as usize);
        }
        assert forall |r: int| 0 <= r < n && board_row_full(b, r)
            implies board_full_rows_upto(b, n).contains(r as usize) by {
            if r < n - 1 {
                let prev = board_full_rows_upto(b, n - 1);
                let j = choose |j: int| 0 <= j < prev.len() && #[trigger] prev[j] == r as usize;
                assert(board_full_rows_upto(b, n)[j] == r as usize);
            } else {
                assert(board_full_rows_upto(b, n)[board_full_rows_upto(b, n).len() - 1] == r as usize);
            }
        }
    }
}

impl Game {
    /// Structural validity: the board has its full fixed size and every
    /// piece kind the session can hand out is one of the seven shapes.
    pub open spec fn wf(self) -> bool {
        &&& self.board@.len() == BOARD_CELLS
        &&& self.current.wf()
        &&& forall |i: int| 0 <= i < self.next_queue@.len() ==> #[trigger] self.next_queue@[i] < KIND_COUNT
        &&& self.bag.wf()
        &&& match self.hold { Some(k) => k < KIND_COUNT, None => true }
    }

    /// The cell at row `r`, column `c`.
    pub open spec fn spec_cell(self, r: int, c: int) -> u8 {
        board_cell(self.board@, r, c)
    }

    /// Whether (r, c) blocks a piece: outside the grid, or holding a block.
    /// Cells above the top row do not exist and never block.
    pub open spec fn spec_occupied(self, r: int, c: int) -> bool {
        r < 0 || r >= BOARD_HEIGHT || c < 0 || c >= BOARD_WIDTH || self.spec_cell(r, c) != EMPTY
    }

    /// Whether a single piece cell may sit at (r, c): inside the horizontal
    /// bounds, not below the floor, and over no occupied cell.  Rows above
    /// the board (r < 0) are allowed.
    pub open spec fn spec_cell_free(self, r: int, c: int) -> bool {
        0 <= c < BOARD_WIDTH && r < BOARD_HEIGHT && (r < 0 || self.spec_cell(r, c) == EMPTY)
    }

    /// Whether the whole piece may sit where it is.
    pub open spec fn spec_fits(self, p: Piece) -> bool {
        forall |i: int| 0 <= i < 4 ==>
            self.spec_cell_free((#[trigger] p.spec_cell_at(i)).0, p.spec_cell_at(i).1)
    }

    /// Whether the current piece, moved to `row`, would fit.
    pub open spec fn spec_fits_at(self, row: int) -> bool {
        self.spec_fits(Piece { row: row as i32, ..self.current })
    }

    /// Whether the piece rests on the stack or the floor.
    pub open spec fn spec_on_ground(self) -> bool {
        !self.spec_fits(Piece { row: (self.current.row + 1) as i32, ..self.current })
    }

    pub open spec fn spec_row_full(self, r: int) -> bool {
        board_row_full(self.board@, r)
    }

    pub open spec fn spec_row_empty(self, r: int) -> bool {
        board_row_empty(self.board@, r)
    }

    /// The full rows of the board, top to bottom, up to row `n`.
    pub open spec fn spec_full_rows_upto(self, n: int) -> Seq<usize> {
        board_full_rows_upto(self.board@, n)
    }

    /// The full rows of the board, in increasing order.
    pub open spec fn spec_full_rows(self) -> Seq<usize> {
        board_full_rows(self.board@)
    }

    /// Create a session.  The board starts empty, the supply is drawn for
    /// the current piece and the lookahead, and the counters take their
    /// starting values; sprint and ultra play always starts at level 1.
    pub fn new(mode: GameMode, settings: &Settings, now_ms: u64) -> (g: Game)
        ensures
            g.wf(),
            forall |r: int, c: int| 0 <= r < BOARD_HEIGHT && 0 <= c < BOARD_WIDTH
                ==> g.spec_cell(r, c) == EMPTY,
            g.start_level == (match mode {
                GameMode::Sprint | GameMode::Ultra => 1u32,
                _ => settings.level,
            }),
            g.level == g.start_level,
            g.current.rotation == 0,
            g.current.kind < KIND_COUNT,
            g.next_queue@.len() == settings.next_count,
            g.hold.is_none(),
            !g.hold_used,
            g.score == 0,
            g.lines == 0,
            !g.game_over,
            g.last_move == LastMove::Nothing,
            g.combo == -1,
            !g.back_to_back,
            g.last_action.is_none(),
            g.last_action_time == now_ms,
            g.lock_delay.is_none(),
            g.line_clear_anim.is_none(),
            g.are_timer.is_none(),
            g.mode == mode,
            g.game_start == now_ms,
            g.elapsed == 0,
            !g.cleared,
            g.marathon_goal == settings.marathon_goal,
            g.sprint_goal == settings.sprint_goal,
            g.ultra_time == settings.ultra_time,
            g.level_cap == settings.level_cap,
            g.ghost_enabled == settings.ghost_enabled,
            g.line_clear_anim_enabled == settings.line_clear_anim,
            g.next_count == settings.next_count,
            g.srs == settings.srs,
            g.hold_enabled == settings.hold_enabled,
            g.lock_delay_ms == settings.lock_delay_ms,
            g.move_reset == settings.move_reset,
            g.move_reset_count == 0,
            g.garbage_rise_anim.is_none(),
    {
        let start_level = match mode {
            GameMode::Marathon | GameMode::Endless => settings.level,
            GameMode::Sprint | GameMode::Ultra => 1,
            GameMode::Versus => settings.level,
        };
        let mut bag = Bag::new(settings.bag_randomizer);
        let current_kind = bag.next();
        let mut next_queue: Vec<usize> = Vec::new();
        let mut i: usize = 0;
        while i < settings.next_count
            invariant
                bag.wf(),
                next_queue@.len() == i,
                i <= settings.next_count,
                forall |j: int| 0 <= j < next_queue@.len() ==> #[trigger] next_queue@[j] < KIND_COUNT,
            decreases settings.next_count - i,
        {
            let k = bag.next();
            next_queue.push(k);
            i += 1;
        }
        let mut board: Vec<u8> = Vec::new();
        let mut n: usize = 0;
        while n < BOARD_CELLS
            invariant
                board@.len() == n,
                n <= BOARD_CELLS,
                forall |j: int| 0 <= j < board@.len() ==> #[trigger] board@[j] == EMPTY,
            decreases BOARD_CELLS - n,
        {
            board.push(EMPTY);
            n += 1;
        }
        let g = Game {
            board,
            current: Piece::new(current_kind),
            next_queue,
            hold: None,
            hold_used: false,
            bag,
            score: 0,
            lines: 0,
            level: start_level,
            start_level,
            game_over: false,
            last_move: LastMove::Nothing,
            combo: -1,
            back_to_back: false,
            last_action: None,
            last_action_time: now_ms,
            lock_delay: None,
            line_clear_anim: None,
            are_timer: None,
            mode,
            game_start: now_ms,
            elapsed: 0,
            cleared: false,
            marathon_goal: settings.marathon_goal,
            sprint_goal: settings.sprint_goal,
            ultra_time: settings.ultra_time,
            level_cap: settings.level_cap,
            ghost_enabled: settings.ghost_enabled,
            line_clear_anim_enabled: settings.line_clear_anim,
            next_count: settings.next_count,
            srs: settings.srs,
            hold_enabled: settings.hold_enabled,
            lock_delay_ms: settings.lock_delay_ms,
            move_reset: settings.move_reset,
            move_reset_count: 0,
            garbage_rise_anim: None,
        };
        g
    }

    /// Read one cell.
    pub fn cell(&self, r: usize, c: usize) -> (v: u8)
        requires
            self.wf(),
            r < BOARD_HEIGHT,
            c < BOARD_WIDTH,
        ensures
            v == self.spec_cell(r as int, c as int),
    {
        self.board[r * BOARD_WIDTH + c]
    }

    /// Write one cell.
    pub fn set_cell(&mut self, r: usize, c: usize, v: u8)
        requires
            old(self).wf(),
            r < BOARD_HEIGHT,
            c < BOARD_WIDTH,
        ensures
            final(self).wf(),
            final(self).spec_cell(r as int, c as int) == v,
            forall |r2: int, c2: int| 0 <= r2 < BOARD_HEIGHT && 0 <= c2 < BOARD_WIDTH
                && !(r2 == r && c2 == c)
                ==> final(self).spec_cell(r2, c2) == old(self).spec_cell(r2, c2),
            *final(self) == (Game { board: final(self).board, ..*old(self) }),
    {
        self.board.set(r * BOARD_WIDTH + c, v);
        proof {
            assert forall |r2: int, c2: int| 0 <= r2 < BOARD_HEIGHT && 0 <= c2 < BOARD_WIDTH
                && !(r2 == r && c2 == c)
                implies final(self).spec_cell(r2, c2) == old(self).spec_cell(r2, c2) by {
                assert(r2 * (BOARD_WIDTH as int) + c2 != r * (BOARD_WIDTH as int) + c) by (nonlinear_arith)
                    requires
                        0 <= r2 < 40, 0 <= c2 < 10, r < 40, c < 10,
                        !(r2 == r && c2 == c),
                {}
            }
        }
    }

    /// Whether (r, c) blocks a piece (outside the grid counts as blocked).
    pub fn is_occupied(&self, r: i32, c: i32) -> (b: bool)
        requires
            self.wf(),
        ensures
            b == self.spec_occupied(r as int, c as int),
    {
        if r < 0 || r >= BOARD_HEIGHT as i32 || c < 0 || c >= BOARD_WIDTH as i32 {
            return true;
        }
        self.board[(r as usize) * BOARD_WIDTH + (c as usize)] != EMPTY
    }

    /// Whether a single piece cell may sit at (r, c).
    fn cell_free(&self, r: i32, c: i32) -> (b: bool)
        requires
            self.wf(),
        ensures
            b == self.spec_cell_free(r as int, c as int),
    {
        if c < 0 || c >= BOARD_WIDTH as i32 || r >= BOARD_HEIGHT as i32 {
            false
        } else if r >= 0 {
            self.board[(r as usize) * BOARD_WIDTH + (c as usize)] == EMPTY
        } else {
            true
        }
    }

    /// Collision test: every cell of the piece must be within the horizontal
    /// bounds, not below the floor, and over no occupied cell; cells above
    /// the top of the board are in bounds.
    pub fn fits(&self, piece: &Piece) -> (b: bool)
        requires
            self.wf(),
            piece.cells_safe(),
        ensures
            b == self.spec_fits(*piece),
    {
        let cells = piece.cells();
        let mut i: usize = 0;
        while i < 4
            invariant
                self.wf(),
                piece.cells_safe(),
                cells@.len() == 4,
                forall |j: int| 0 <= j < 4 ==>
                    (#[trigger] cells@[j]).0 == piece.spec_cell_at(j).0
                    && cells@[j].1 == piece.spec_cell_at(j).1,
                i <= 4,
                forall |j: int| 0 <= j < i ==>
                    self.spec_cell_free((#[trigger] piece.spec_cell_at(j)).0, piece.spec_cell_at(j).1),
            decreases 4 - i,
        {
            let (r, c) = cells[i];
            if !self.cell_free(r, c) {
                return false;
            }
            i += 1;
        }
        true
    }

    /// On an empty board the spawn placement of every one of the seven
    /// kinds fits: centered horizontally, just above the visible rows, one
    /// row higher for the square.
    pub proof fn lemma_spawn_fits_empty(self, kind: usize)
        requires
            self.wf(),
            kind < KIND_COUNT,
            forall |r: int, c: int| 0 <= r < BOARD_HEIGHT && 0 <= c < BOARD_WIDTH
                ==> self.spec_cell(r, c) == EMPTY,
        ensures
            self.spec_fits(Piece {
                kind,
                rotation: 0,
                row: (if kind == crate::piece::KIND_O { BUFFER_HEIGHT - 1 } else { BUFFER_HEIGHT as int }) as i32,
                col: ((BOARD_WIDTH as int) / 2 - 1) as i32,
            }),
    {
        let p = Piece {
            kind,
            rotation: 0,
            row: (if kind == crate::piece::KIND_O { BUFFER_HEIGHT - 1 } else { BUFFER_HEIGHT as int }) as i32,
            col: ((BOARD_WIDTH as int) / 2 - 1) as i32,
        };
        lemma_offsets_bounded(kind, 0);
        assert forall |i: int| 0 <= i < 4
            implies self.spec_cell_free((#[trigger] p.spec_cell_at(i)).0, p.spec_cell_at(i).1) by {
            let rc = p.spec_cell_at(i);
            assert(2 <= rc.1 <= 6);
            assert(rc.0 <= BUFFER_HEIGHT + 2);
            assert(rc.0 >= BUFFER_HEIGHT - 3);
            assert(self.spec_cell(rc.0, rc.1) == EMPTY);
        }
    }

    /// Whether the active piece can descend no further.
    pub fn is_on_ground(&self) -> (b: bool)
        requires
            self.wf(),
        ensures
            b == self.spec_on_ground(),
    {
        let mut test = self.current;
        test.row = test.row + 1;
        !self.fits(&test)
    }

    /// Whether one row is completely filled.
    pub(crate) fn row_full(&self, r: usize) -> (b: bool)
        requires
            self.wf(),
            r < BOARD_HEIGHT,
        ensures
            b == self.spec_row_full(r as int),
    {
        let mut c: usize = 0;
        while c < BOARD_WIDTH
            invariant
                self.wf(),
                r < BOARD_HEIGHT,
                c <= BOARD_WIDTH,
                forall |j: int| 0 <= j < c ==> board_cell(self.board@, r as int, j) != EMPTY,
            decreases BOARD_WIDTH - c,
        {
            if self.board[r * BOARD_WIDTH + c] == EMPTY {
                assert(self.spec_cell(r as int, c as int) == EMPTY);
                return false;
            }
            c += 1;
        }
        true
    }

    /// Whether one row is completely empty.
    pub(crate) fn row_empty(&self, r: usize) -> (b: bool)
        requires
            self.wf(),
            r < BOARD_HEIGHT,
        ensures
            b == self.spec_row_empty(r as int),
    {
        let mut c: usize = 0;
        while c < BOARD_WIDTH
            invariant
                self.wf(),
                r < BOARD_HEIGHT,
                c <= BOARD_WIDTH,
                forall |j: int| 0 <= j < c ==> board_cell(self.board@, r as int, j) == EMPTY,
            decreases BOARD_WIDTH - c,
        {
            if self.board[r * BOARD_WIDTH + c] != EMPTY {
                assert(self.spec_cell(r as int, c as int) != EMPTY);
                return false;
            }
            c += 1;
        }
        true
    }

    /// The completely filled rows, top to bottom.
    pub(crate) fn find_full_rows(&self) -> (rows: Vec<usize>)
        requires
            self.wf(),
        ensures
            rows@ == self.spec_full_rows(),
    {
        let mut rows: Vec<usize> = Vec::new();
        let mut r: usize = 0;
        while r < BOARD_HEIGHT
            invariant
                self.wf(),
                r <= BOARD_HEIGHT,
                rows@ == self.spec_full_rows_upto(r as int),
            decreases BOARD_HEIGHT - r,
        {
            if self.row_full(r) {
                rows.push(r);
            }
            r += 1;
        }
        rows
    }

    /// Whether `rows` lists row `r`.
    pub(crate) fn row_listed(rows: &Vec<usize>, r: usize) -> (b: bool)
        ensures
            b == rows@.contains(r),
    {
        let mut i: usize = 0;
        while i < rows.len()
            invariant
                i <= rows@.len(),
                forall |j: int| 0 <= j < i ==> rows@[j] != r,
            decreases rows@.len() - i,
        {
            if rows[i] == r {
                return true;
            }
            i += 1;
        }
        false
    }

    /// Remove the listed rows: the kept rows settle to the bottom in their
    /// old order and empty rows fill in from the top.
    pub(crate) fn remove_rows(&mut self, rows: &Vec<usize>)
        requires
            old(self).wf(),
        ensures
            final(self).wf(),
            *final(self) == (Game { board: final(self).board, ..*old(self) }),
            ({
                let kept = kept_rows_upto(rows@, BOARD_HEIGHT as int);
                let k = kept.len() as int;
                &&& forall |j: int, c: int| 0 <= j < k && 0 <= c < BOARD_WIDTH
                    ==> #[trigger] final(self).spec_cell(BOARD_HEIGHT - k + j, c)
                        == old(self).spec_cell(kept[j] as int, c)
                &&& forall |r: int, c: int| 0 <= r < BOARD_HEIGHT - k && 0 <= c < BOARD_WIDTH
                    ==> final(self).spec_cell(r, c) == EMPTY
            }),
    {
        proof {
            lemma_kept_rows_upto_props(rows@, BOARD_HEIGHT as int);
        }
        let mut kept: Vec<usize> = Vec::new();
        let mut r: usize = 0;
        while r < BOARD_HEIGHT
            invariant
                r <= BOARD_HEIGHT,
                kept@ == kept_rows_upto(rows@, r as int),
                forall |j: int| 0 <= j < kept@.len() ==> #[trigger] kept@[j] < r,
            decreases BOARD_HEIGHT - r,
        {
            if !Self::row_listed(rows, r) {
                kept.push(r);
            }
            r += 1;
        }
        let k = kept.len();
        assert(k <= BOARD_HEIGHT);

        let mut nb: Vec<u8> = Vec::new();
        let empty_cells = (BOARD_HEIGHT - k) * BOARD_WIDTH;
        let mut n: usize = 0;
        while n < empty_cells
            invariant
                nb@.len() == n,
                n <= empty_cells,
                empty_cells == (BOARD_HEIGHT - k) * BOARD_WIDTH,
                k <= BOARD_HEIGHT,
                forall |j: int| 0 <= j < nb@.len() ==> #[trigger] nb@[j] == EMPTY,
            decreases empty_cells - n,
        {
            nb.push(EMPTY);
            n += 1;
        }

        let mut j: usize = 0;
        while j < k
            invariant
                self.wf(),
                j <= k,
                k <= BOARD_HEIGHT,
                k == kept@.len(),
                kept@ == kept_rows_upto(rows@, BOARD_HEIGHT as int),
                forall |i: int| 0 <= i < kept@.len() ==> #[trigger] kept@[i] < BOARD_HEIGHT,
                nb@.len() == (BOARD_HEIGHT - k + j) * BOARD_WIDTH,
                forall |i: int| 0 <= i < (BOARD_HEIGHT - k) * (BOARD_WIDTH as int) ==> #[trigger] nb@[i] == EMPTY,
                forall |j2: int, c: int| 0 <= j2 < j && 0 <= c < BOARD_WIDTH
                    ==> #[trigger] nb@[(BOARD_HEIGHT - k + j2) * (BOARD_WIDTH as int) + c]
                        == self.spec_cell(kept@[j2] as int, c),
            decreases k - j,
        {
            let src = kept[j];
            let mut c: usize = 0;
            while c < BOARD_WIDTH
                invariant
                    self.wf(),
                    j < k,
                    k == kept@.len(),
                    src == kept@[j as int],
                    src < BOARD_HEIGHT,
                    c <= BOARD_WIDTH,
                    k <= BOARD_HEIGHT,
                    forall |i: int| 0 <= i < kept@.len() ==> #[trigger] kept@[i] < BOARD_HEIGHT,
                    nb@.len() == (BOARD_HEIGHT - k + j) * BOARD_WIDTH + c,
                    forall |i: int| 0 <= i < (BOARD_HEIGHT - k) * (BOARD_WIDTH as int) ==> #[trigger] nb@[i] == EMPTY,
                    forall |j2: int, c2: int| 0 <= j2 < j && 0 <= c2 < BOARD_WIDTH
                        ==> #[trigger] nb@[(BOARD_HEIGHT - k + j2) * (BOARD_WIDTH as int) + c2]
                            == self.spec_cell(kept@[j2] as int, c2),
                    forall |c2: int| 0 <= c2 < c
                        ==> #[trigger] nb@[(BOARD_HEIGHT - k + j) * (BOARD_WIDTH as int) + c2]
                            == self.spec_cell(kept@[j as int] as int, c2),
                decreases BOARD_WIDTH - c,
            {
                nb.push(self.board[src * BOARD_WIDTH + c]);
                c += 1;
            }
            j += 1;
        }
        self.board = nb;
    }

    /// Insert `lines` rows of garbage at the bottom: the rows above shift
    /// up (losing the topmost ones) and each inserted row is full except
    /// for the hole column.
    pub fn receive_garbage(&mut self, lines: u32, hole_column: usize)
        requires
            old(self).wf(),
        ensures
            final(self).wf(),
            *final(self) == (Game { board: final(self).board, ..*old(self) }),
            ({
                let n = if lines >= BOARD_HEIGHT { BOARD_HEIGHT as int } else { lines as int };
                &&& forall |r: int, c: int| 0 <= r < BOARD_HEIGHT - n && 0 <= c < BOARD_WIDTH
                    ==> #[trigger] final(self).spec_cell(r, c) == old(self).spec_cell(r + n, c)
                &&& forall |r: int, c: int| BOARD_HEIGHT - n <= r < BOARD_HEIGHT && 0 <= c < BOARD_WIDTH
                    ==> #[trigger] final(self).spec_cell(r, c)
                        == (if c == hole_column { EMPTY } else { GARBAGE_CELL })
            }),
    {
        if lines == 0 {
            return;
        }
        let n: usize = if lines >= BOARD_HEIGHT as u32 { BOARD_HEIGHT } else { lines as usize };
        let shifted = BOARD_HEIGHT - n;

        let mut nb: Vec<u8> = Vec::new();
        let mut r: usize = 0;
        while r < shifted
            invariant
                self.wf(),
                r <= shifted,
                shifted == BOARD_HEIGHT - n,
                1 <= n <= BOARD_HEIGHT,
                nb@.len() == r * BOARD_WIDTH,
                forall |r2: int, c: int| 0 <= r2 < r && 0 <= c < BOARD_WIDTH
                    ==> #[trigger] nb@[r2 * (BOARD_WIDTH as int) + c] == self.spec_cell(r2 + n, c),
            decreases shifted - r,
        {
            let mut c: usize = 0;
            while c < BOARD_WIDTH
                invariant
                    self.wf(),
                    r < shifted,
                    shifted == BOARD_HEIGHT - n,
                    1 <= n <= BOARD_HEIGHT,
                    c <= BOARD_WIDTH,
                    nb@.len() == r * BOARD_WIDTH + c,
                    forall |r2: int, c2: int| 0 <= r2 < r && 0 <= c2 < BOARD_WIDTH
                        ==> #[trigger] nb@[r2 * (BOARD_WIDTH as int) + c2] == self.spec_cell(r2 + n, c2),
                    forall |c2: int| 0 <= c2 < c
                        ==> #[trigger] nb@[r * (BOARD_WIDTH as int) + c2] == self.spec_cell(r + n, c2),
                decreases BOARD_WIDTH - c,
            {
                nb.push(self.board[(r + n) * BOARD_WIDTH + c]);
                c += 1;
            }
            r += 1;
        }
        while r < BOARD_HEIGHT
            invariant
                self.wf(),
                shifted <= r <= BOARD_HEIGHT,
                shifted == BOARD_HEIGHT - n,
                1 <= n <= BOARD_HEIGHT,
                nb@.len() == r * BOARD_WIDTH,
                forall |r2: int, c: int| 0 <= r2 < shifted && 0 <= c < BOARD_WIDTH
                    ==> #[trigger] nb@[r2 * (BOARD_WIDTH as int) + c] == self.spec_cell(r2 + n, c),
                forall |r2: int, c: int| shifted <= r2 < r && 0 <= c < BOARD_WIDTH
                    ==> #[trigger] nb@[r2 * (BOARD_WIDTH as int) + c]
                        == (if c == hole_column { EMPTY } else { GARBAGE_CELL }),
            decreases BOARD_HEIGHT - r,
        {
            let mut c: usize = 0;
            while c < BOARD_WIDTH
                invariant
                    self.wf(),
                    shifted <= r < BOARD_HEIGHT,
                    shifted == BOARD_HEIGHT - n,
                    1 <= n <= BOARD_HEIGHT,
                    c <= BOARD_WIDTH,
                    nb@.len() == r * BOARD_WIDTH + c,
                    forall |r2: int, c2: int| 0 <= r2 < shifted && 0 <= c2 < BOARD_WIDTH
                        ==> #[trigger] nb@[r2 * (BOARD_WIDTH as int) + c2] == self.spec_cell(r2 + n, c2),
                    forall |r2: int, c2: int| shifted <= r2 < r && 0 <= c2 < BOARD_WIDTH
                        ==> #[trigger] nb@[r2 * (BOARD_WIDTH as int) + c2]
                            == (if c2 == hole_column { EMPTY } else { GARBAGE_CELL }),
                    forall |c2: int| 0 <= c2 < c
                        ==> #[trigger] nb@[r * (BOARD_WIDTH as int) + c2]
                            == (if c2 == hole_column { EMPTY } else { GARBAGE_CELL }),
                decreases BOARD_WIDTH - c,
            {
                if c == hole_column {
                    nb.push(EMPTY);
                } else {
                    nb.push(GARBAGE_CELL);
                }
                c += 1;
            }
            r += 1;
        }
        self.board = nb;
    }

    /// Take the next piece from the lookahead (refilling it from the bag),
    /// or straight from the bag when no lookahead is kept.
    pub(crate) fn pop_next(&mut self) -> (p: Piece)
        requires
            old(self).wf(),
        ensures
            final(self).wf(),
            p.wf(),
            p == crate::piece::spec_spawn(p.kind),
            p.kind < KIND_COUNT,
            old(self).next_queue@.len() > 0 ==> {
                &&& p.kind == old(self).next_queue@[0]
                &&& final(self).next_queue@.len() == old(self).next_queue@.len()
                &&& final(self).next_queue@.drop_last() == old(self).next_queue@.drop_first()
                &&& final(self).next_queue@.last() < KIND_COUNT
            },
            old(self).next_queue@.len() == 0 ==> final(self).next_queue@ == old(self).next_queue@,
            *final(self) == (Game {
                next_queue: final(self).next_queue,
                bag: final(self).bag,
                ..*old(self)
            }),
    {
        if self.next_queue.len() == 0 {
            let k = self.bag.next();
            return Piece::new(k);
        }
        let kind = self.next_queue.remove(0);
        let refill = self.bag.next();
        let ghost before = old(self).next_queue@;
        self.next_queue.push(refill);
        proof {
            assert(self.next_queue@.drop_last() =~= before.drop_first());
        }
        Piece::new(kind)
    }

    /// How spawning the next piece reworks the session: the head of the
    /// lookahead (shifted left and refilled from the bag) becomes the
    /// active piece at its spawn placement, the per-piece state resets,
    /// and a colliding spawn is the top-out condition.
    pub open spec fn spec_spawn_step(pre: Game, post: Game) -> bool {
        &&& post.current == crate::piece::spec_spawn(post.current.kind)
        &&& post.current.kind < KIND_COUNT
        &&& (pre.next_queue@.len() > 0 ==> {
                &&& post.current.kind == pre.next_queue@[0]
                &&& post.next_queue@.len() == pre.next_queue@.len()
                &&& post.next_queue@.drop_last() == pre.next_queue@.drop_first()
                &&& post.next_queue@.last() < KIND_COUNT
            })
        &&& (pre.next_queue@.len() == 0 ==> post.next_queue@ == pre.next_queue@)
        &&& !post.hold_used
        &&& post.last_move == LastMove::Nothing
        &&& post.lock_delay.is_none()
        &&& post.move_reset_count == 0
        &&& post.game_over == (pre.game_over || !post.spec_fits(post.current))
        &&& post == (Game {
                current: post.current,
                next_queue: post.next_queue,
                bag: post.bag,
                hold_used: false,
                last_move: LastMove::Nothing,
                lock_delay: None,
                move_reset_count: 0,
                game_over: post.game_over,
                ..pre
            })
    }

    /// Spawn the next piece and reset the per-piece state; a spawn that
    /// collides is the top-out condition and ends the game.
    pub(crate) fn spawn_next(&mut self, )
        requires
            old(self).wf(),
        ensures
            final(self).wf(),
            Game::spec_spawn_step(*old(self), *final(self)),
    {
        let p = self.pop_next();
        self.current = p;
        self.hold_used = false;
        self.last_move = LastMove::Nothing;
        self.lock_delay = None;
        self.move_reset_count = 0;
        if !self.fits(&self.current) {
            self.game_over = true;
        }
    }

    /// How one hold action reworks the session: no effect while holding is
    /// disabled or spent; otherwise the active piece is stashed and the
    /// held kind (or the next piece) spawns in its place, ending the game
    /// if it collides.
    pub open spec fn spec_hold_step(pre: Game, post: Game) -> bool {
        if !pre.hold_enabled || pre.hold_used {
            post == pre
        } else {
            &&& post.hold_used
            &&& post.hold == Some(pre.current.kind)
            &&& post.lock_delay.is_none()
            &&& post.last_move == LastMove::Nothing
            &&& post.move_reset_count == 0
            &&& post.current == crate::piece::spec_spawn(post.current.kind)
            &&& (match pre.hold {
                    Some(held) => post.current.kind == held
                        && post.next_queue == pre.next_queue
                        && post.bag == pre.bag,
                    None => {
                        &&& post.current.kind < KIND_COUNT
                        &&& (pre.next_queue@.len() > 0 ==> {
                                &&& post.current.kind == pre.next_queue@[0]
                                &&& post.next_queue@.len() == pre.next_queue@.len()
                                &&& post.next_queue@.drop_last() == pre.next_queue@.drop_first()
                                &&& post.next_queue@.last() < KIND_COUNT
                            })
                        &&& (pre.next_queue@.len() == 0 ==> post.next_queue@ == pre.next_queue@)
                    },
                })
            &&& post.game_over == (pre.game_over || !post.spec_fits(post.current))
            &&& post == (Game {
                    current: post.current,
                    next_queue: post.next_queue,
                    bag: post.bag,
                    hold: Some(pre.current.kind),
                    hold_used: true,
                    last_move: LastMove::Nothing,
                    lock_delay: None,
                    move_reset_count: 0,
                    game_over: post.game_over,
                    ..pre
                })
        }
    }

    /// Exchange the active piece with the held kind (or stash it and take
    /// the next piece when nothing is held).  Usable once per drop, and only
    /// when holding is enabled; a colliding swapped-in piece ends the game.
    pub fn hold_piece(&mut self)
        requires
            old(self).wf(),
        ensures
            final(self).wf(),
            Game::spec_hold_step(*old(self), *final(self)),
    {
        if !self.hold_enabled || self.hold_used {
            return;
        }
        self.hold_used = true;
        self.lock_delay = None;
        let cur_kind = self.current.kind;
        match self.hold {
            Some(held_kind) => {
                self.hold = Some(cur_kind);
                self.current = Piece::new(held_kind);
                if !self.fits(&self.current) {
                    self.game_over = true;
                }
            }
            None => {
                self.hold = Some(cur_kind);
                let p = self.pop_next();
                self.current = p;
                if !self.fits(&self.current) {
                    self.game_over = true;
                }
            }
        }
        self.last_move = LastMove::Nothing;
        self.move_reset_count = 0;
    }

    /// The lowest row the active piece could occupy without colliding,
    /// found by repeated descent; purely advisory.
    pub fn ghost_row(&self) -> (r: i32)
        requires
            self.wf(),
        ensures
            self.current.row <= r <= MAX_POS + 1,
            !self.spec_fits(Piece { row: (r + 1) as i32, ..self.current }),
            forall |j: int| self.current.row < j <= r
                ==> #[trigger] self.spec_fits(Piece { row: j as i32, ..self.current }),
    {
        let mut r: i32 = self.current.row;
        let mut test = self.current;
        test.row = r + 1;
        while self.fits(&test)
            invariant
                self.wf(),
                test.kind == self.current.kind,
                test.rotation == self.current.rotation,
                test.col == self.current.col,
                self.current.row <= r,
                r <= MAX_POS + 1,
                test.row == r + 1,
                test.wf() || test.row > MAX_POS,
                forall |j: int| self.current.row < j <= r
                    ==> #[trigger] self.spec_fits(Piece { row: j as i32, ..self.current }),
            decreases BOARD_HEIGHT + 2 - r,
        {
            proof {
                lemma_offsets_bounded(test.kind, test.rotation);
                assert(self.spec_cell_free(test.spec_cell_at(0).0, test.spec_cell_at(0).1));
                assert(test.row + spec_offsets(test.kind, test.rotation).0.0 < BOARD_HEIGHT);
                assert(r <= BOARD_HEIGHT + 1);
            }
            r = r + 1;
            test.row = r + 1;
            proof {
                assert(self.spec_fits(Piece { row: r as i32, ..self.current }));
            }
        }
        r
    }

    /// Whether any cell above the visible area holds a block.
    pub fn has_blocks_in_buffer(&self) -> (b: bool)
        requires
            self.wf(),
        ensures
            b == exists |r: int, c: int| 0 <= r < BUFFER_HEIGHT && 0 <= c < BOARD_WIDTH
                && self.spec_cell(r, c) != EMPTY,
    {
        let mut r: usize = 0;
        while r < BUFFER_HEIGHT
            invariant
                self.wf(),
                r <= BUFFER_HEIGHT,
                forall |r2: int, c: int| 0 <= r2 < r && 0 <= c < BOARD_WIDTH
                    ==> self.spec_cell(r2, c) == EMPTY,
            decreases BUFFER_HEIGHT - r,
        {
            let mut c: usize = 0;
            while c < BOARD_WIDTH
                invariant
                    self.wf(),
                    r < BUFFER_HEIGHT,
                    c <= BOARD_WIDTH,
                    forall |r2: int, c2: int| 0 <= r2 < r && 0 <= c2 < BOARD_WIDTH
                        ==> self.spec_cell(r2, c2) == EMPTY,
                    forall |c2: int| 0 <= c2 < c ==> self.spec_cell(r as int, c2) == EMPTY,
                decreases BOARD_WIDTH - c,
            {
                if self.board[r * BOARD_WIDTH + c] != EMPTY {
                    assert(self.spec_cell(r as int, c as int) != EMPTY);
                    return true;
                }
                c += 1;
            }
            r += 1;
        }
        false
    }

    /// Refresh the session clock from the wall clock.
    pub fn update_elapsed(&mut self, now_ms: u64)
        ensures
            final(self).elapsed
                == (if now_ms >= old(self).game_start { now_ms - old(self).game_start } else { 0 }) as u64,
            *final(self) == (Game { elapsed: final(self).elapsed, ..*old(self) }),
    {
        if now_ms >= self.game_start {
            self.elapsed = now_ms - self.game_start;
        } else {
            self.elapsed = 0;
        }
    }

    /// Re-anchor the session clock after a pause, so the paused time is not
    /// counted.
    pub fn reset_game_start(&mut self, now_ms: u64)
        ensures
            final(self).game_start
                == (if now_ms >= old(self).elapsed { now_ms - old(self).elapsed } else { 0 }) as u64,
            *final(self) == (Game { game_start: final(self).game_start, ..*old(self) }),
    {
        if now_ms >= self.elapsed {
            self.game_start = now_ms - self.elapsed;
        } else {
            self.game_start = 0;
        }
    }

    /// In ultra mode, how much play time is left; no other mode has a clock
    /// limit.
    pub fn time_remaining(&self) -> (t: Option<u64>)
        ensures
            t == (if self.mode == GameMode::Ultra {
                let limit = (self.ultra_time as int) * 1000;
                Some((if limit >= self.elapsed { limit - self.elapsed } else { 0 }) as u64)
            } else {
                None::<u64>
            }),
    {
        if self.mode == GameMode::Ultra {
            let limit = (self.ultra_time as u64) * 1000;
            if limit >= self.elapsed {
                Some(limit - self.elapsed)
            } else {
                Some(0)
            }
        } else {
            None
        }
    }
}

} // verus!
