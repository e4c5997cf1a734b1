//! The message vocabulary two peers exchange, and the board snapshot
//! built for transmission.

use vstd::prelude::*;
use crate::game::Game;
use crate::piece::{BOARD_WIDTH, BUFFER_HEIGHT, VISIBLE_HEIGHT};
use crate::settings::VersusSettings;

verus! {

/// The protocol version offered in the handshake; a mismatch is rejected
/// outright.
pub const PROTOCOL_VERSION: u8 = 1;

/// One garbage attack on the wire.
#[derive(Clone, Copy)]
pub struct GarbageAttack {
    pub lines: u32,
    pub hole_column: usize,
}

/// The periodic projection of a session sent to the opponent: the visible
/// board, the active piece's cells in visible coordinates, and the public
/// counters.  Used only for display and garbage accounting on the far side.
pub struct BoardSnapshot {
    pub board: Vec<u8>,
    pub current_cells: Vec<(i32, i32)>,
    pub current_kind: usize,
    pub score: u32,
    pub lines: u32,
    pub pending_garbage: u32,
}

/// Host-computed result notice.
#[derive(Clone, Copy, PartialEq, Eq, Structural, Debug)]
pub enum MatchOutcome {
    Win,
    Lose,
}

/// Every message kind the two peers exchange.
pub enum NetMessage {
    Hello { version: u8 },
    LobbySettings(VersusSettings),
    Ready,
    Countdown(u8),
    GameStart,
    GarbageAttack(GarbageAttack),
    BoardState(BoardSnapshot),
    PlayerDead,
    MatchResult(MatchOutcome),
    RematchRequest,
    RematchAccept,
    Disconnect,
}

impl BoardSnapshot {
    /// Project a session for transmission: the visible rows flattened
    /// row-major, and the active piece's cells shifted into visible
    /// coordinates — or no cells at all while the board is between pieces.
    pub fn from_game(game: &Game, pending_garbage: u32) -> (s: BoardSnapshot)
        requires
            game.wf(),
        ensures
            s.board@.len() == VISIBLE_HEIGHT * BOARD_WIDTH,
            forall |i: int| 0 <= i < s.board@.len()
                ==> #[trigger] s.board@[i]
                    == game.spec_cell(BUFFER_HEIGHT + i / (BOARD_WIDTH as int), i % (BOARD_WIDTH as int)),
            if game.line_clear_anim.is_some() || game.are_timer.is_some() {
                s.current_cells@.len() == 0
            } else {
                s.current_cells@.len() == 4
                && forall |i: int| 0 <= i < 4
                    ==> (#[trigger] s.current_cells@[i]).0
                            == game.current.spec_cell_at(i).0 - BUFFER_HEIGHT
                        && s.current_cells@[i].1 == game.current.spec_cell_at(i).1
            },
            s.current_kind == game.current.kind,
            s.score == game.score,
            s.lines == game.lines,
            s.pending_garbage == pending_garbage,
    {
        let mut board: Vec<u8> = Vec::new();
        let mut row: usize = BUFFER_HEIGHT;
        while row < BUFFER_HEIGHT + VISIBLE_HEIGHT
            invariant
                game.wf(),
                BUFFER_HEIGHT <= row <= BUFFER_HEIGHT + VISIBLE_HEIGHT,
                board@.len() == (row - BUFFER_HEIGHT) * BOARD_WIDTH,
                forall |i: int| 0 <= i < board@.len()
                    ==> #[trigger] board@[i]
                        == game.spec_cell(BUFFER_HEIGHT + i / (BOARD_WIDTH as int), i % (BOARD_WIDTH as int)),
            decreases BUFFER_HEIGHT + VISIBLE_HEIGHT - row,
        {
            let mut col: usize = 0;
            while col < BOARD_WIDTH
                invariant
                    game.wf(),
                    BUFFER_HEIGHT <= row < BUFFER_HEIGHT + VISIBLE_HEIGHT,
                    col <= BOARD_WIDTH,
                    board@.len() == (row - BUFFER_HEIGHT) * BOARD_WIDTH + col,
                    forall |i: int| 0 <= i < board@.len()
                        ==> #[trigger] board@[i]
                            == game.spec_cell(BUFFER_HEIGHT + i / (BOARD_WIDTH as int), i % (BOARD_WIDTH as int)),
                decreases BOARD_WIDTH - col,
            {
                let v = game.cell(row, col);
                board.push(v);
                proof {
                    let i = board@.len() - 1;
                    assert(i == ((row - BUFFER_HEIGHT) * (BOARD_WIDTH as int)) + col);
                    lemma_flat_index(row - BUFFER_HEIGHT, col as int);
                }
                col += 1;
            }
            row += 1;
        }

        let current_cells: Vec<(i32, i32)> = if game.is_animating() || game.in_are() {
            Vec::new()
        } else {
            let cells = game.current.cells();
            let mut shifted: Vec<(i32, i32)> = Vec::new();
            let mut i: usize = 0;
            while i < 4
                invariant
                    game.wf(),
                    cells@.len() == 4,
                    forall |j: int| 0 <= j < 4 ==>
                        (#[trigger] cells@[j]).0 == game.current.spec_cell_at(j).0
                        && cells@[j].1 == game.current.spec_cell_at(j).1,
                    i <= 4,
                    shifted@.len() == i,
                    forall |j: int| 0 <= j < i
                        ==> (#[trigger] shifted@[j]).0 == game.current.spec_cell_at(j).0 - BUFFER_HEIGHT
                            && shifted@[j].1 == game.current.spec_cell_at(j).1,
                decreases 4 - i,
            {
                let (r, c) = cells[i];
                proof {
                    crate::piece::lemma_offsets_bounded(game.current.kind, game.current.rotation);
                }
                shifted.push((r - BUFFER_HEIGHT as i32, c));
                i += 1;
            }
            shifted
        };

        BoardSnapshot {
            board,
            current_cells,
            current_kind: game.current.kind,
            score: game.score,
            lines: game.lines,
            pending_garbage,
        }
    }
}

/// Row-major flattening inverts cleanly for one appended cell.
proof fn lemma_flat_index(r: int, c: int)
    by (nonlinear_arith)
    requires
        0 <= r,
        0 <= c < BOARD_WIDTH,
    ensures
        (r * (BOARD_WIDTH as int) + c) / (BOARD_WIDTH as int) == r,
        (r * (BOARD_WIDTH as int) + c) % (BOARD_WIDTH as int) == c,
{
}

} // verus!
