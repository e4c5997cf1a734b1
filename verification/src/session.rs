//! The versus-session rules: handshake and lobby steps, countdown
//! sequencing, in-match message handling, the post-lock garbage exchange,
//! and death/result/rematch resolution.  The surrounding loop performs the
//! I/O and hands every inbound message to these functions.

use vstd::prelude::*;
use crate::game::{board_cell, Game};
use crate::garbage::{calculate_attack, spec_attack, spec_cancelled, GarbageQueue};
use crate::piece::{BOARD_HEIGHT, BOARD_WIDTH, EMPTY, GARBAGE_CELL};
use crate::protocol::{BoardSnapshot, GarbageAttack, MatchOutcome, NetMessage, PROTOCOL_VERSION};
use crate::animation::{spec_hole_for_line, spec_rise_total, lemma_rise_total_nonneg};

verus! {

/// Why a handshake or lobby step failed; every one of these aborts the
/// connection.
#[derive(Clone, Copy, PartialEq, Eq, Structural, Debug)]
pub enum ProtoError {
    VersionMismatch,
    UnexpectedMessage,
}

/// The handshake greeting this side sends.
pub fn hello_message() -> (m: NetMessage)
    ensures
        m matches NetMessage::Hello { version } && version == PROTOCOL_VERSION,
{
    NetMessage::Hello { version: PROTOCOL_VERSION }
}

/// Check the peer's greeting: only a Hello carrying exactly the expected
/// version passes; a Hello with any other version is a version mismatch,
/// and any other message type is a protocol violation.
pub fn check_hello(msg: &NetMessage, expected_version: u8) -> (r: Result<(), ProtoError>)
    ensures
        match r {
            Ok(()) => msg matches NetMessage::Hello { version } && version == expected_version,
            Err(e) => match *msg {
                NetMessage::Hello { version } => version != expected_version
                    && e == ProtoError::VersionMismatch,
                _ => e == ProtoError::UnexpectedMessage,
            },
        },
{
    match msg {
        NetMessage::Hello { version } => {
            if *version == expected_version {
                Ok(())
            } else {
                Err(ProtoError::VersionMismatch)
            }
        }
        _ => Err(ProtoError::UnexpectedMessage),
    }
}

/// The joiner's first step: only the host's lobby settings are accepted.
pub fn expect_lobby_settings(msg: NetMessage) -> (r: Result<crate::settings::VersusSettings, ProtoError>)
    ensures
        match r {
            Ok(vs) => msg matches NetMessage::LobbySettings(v) && vs == v,
            Err(e) => !(msg matches NetMessage::LobbySettings(_))
                && e == ProtoError::UnexpectedMessage,
        },
{
    match msg {
        NetMessage::LobbySettings(vs) => Ok(vs),
        _ => Err(ProtoError::UnexpectedMessage),
    }
}

/// The host's wait after sharing settings: only the joiner's readiness
/// acknowledgment is accepted.
pub fn expect_ready(msg: &NetMessage) -> (r: Result<(), ProtoError>)
    ensures
        match r {
            Ok(()) => msg is Ready,
            Err(e) => !(msg is Ready) && e == ProtoError::UnexpectedMessage,
        },
{
    match msg {
        NetMessage::Ready => Ok(()),
        _ => Err(ProtoError::UnexpectedMessage),
    }
}

/// The authoritative countdown the host broadcasts, in order.
pub fn host_countdown_sequence() -> (msgs: Vec<NetMessage>)
    ensures
        msgs@.len() == 4,
        msgs@[0] matches NetMessage::Countdown(n) && n == 3,
        msgs@[1] matches NetMessage::Countdown(n) && n == 2,
        msgs@[2] matches NetMessage::Countdown(n) && n == 1,
        msgs@[3] is GameStart,
{
    let mut msgs: Vec<NetMessage> = Vec::new();
    msgs.push(NetMessage::Countdown(3));
    msgs.push(NetMessage::Countdown(2));
    msgs.push(NetMessage::Countdown(1));
    msgs.push(NetMessage::GameStart);
    msgs
}

/// What the joining side does with one message while waiting out the
/// host's countdown.
#[derive(Clone, Copy, PartialEq, Eq, Structural, Debug)]
pub enum CountdownStep {
    Tick(u8),
    Begin,
    Abort,
    Ignore,
}

/// The joiner shows each countdown tick, starts on the start signal,
/// aborts on a disconnect, and ignores everything else.
pub fn handle_countdown_message(msg: &NetMessage) -> (s: CountdownStep)
    ensures
        s == (match *msg {
            NetMessage::Countdown(n) => CountdownStep::Tick(n),
            NetMessage::GameStart => CountdownStep::Begin,
            NetMessage::Disconnect => CountdownStep::Abort,
            _ => CountdownStep::Ignore,
        }),
{
    match msg {
        NetMessage::Countdown(n) => CountdownStep::Tick(*n),
        NetMessage::GameStart => CountdownStep::Begin,
        NetMessage::Disconnect => CountdownStep::Abort,
        _ => CountdownStep::Ignore,
    }
}

/// What the far side looks like from here: the latest snapshot it sent
/// and whether it has announced its death.
pub struct OpponentView {
    pub snapshot: Option<BoardSnapshot>,
    pub dead: bool,
}

impl OpponentView {
    pub fn new() -> (v: OpponentView)
        ensures
            v.snapshot.is_none(),
            !v.dead,
    {
        OpponentView { snapshot: None, dead: false }
    }
}

/// Apply one inbound message during the real-time loop: attacks join the
/// local pending queue, board states replace the cached opponent view, a
/// death notice flags the opponent dead, and a disconnect (the returned
/// flag) abandons the match.  Result notices and stray lobby traffic are
/// ignored.
pub fn handle_match_message(
    opponent: &mut OpponentView,
    queue: &mut GarbageQueue,
    msg: NetMessage,
) -> (disconnected: bool)
    ensures
        match msg {
            NetMessage::GarbageAttack(ga) => {
                &&& !disconnected
                &&& final(queue).pending@.len() == old(queue).pending@.len() + 1
                &&& final(queue).pending@.last().lines == ga.lines
                &&& final(queue).pending@.last().hole_column == ga.hole_column
                &&& final(queue).pending@.take(old(queue).pending@.len() as int)
                        == old(queue).pending@
                &&& *final(opponent) == *old(opponent)
            },
            NetMessage::BoardState(snap) => {
                &&& !disconnected
                &&& final(opponent).snapshot matches Some(s2) && s2 == snap
                &&& final(opponent).dead == old(opponent).dead
                &&& *final(queue) == *old(queue)
            },
            NetMessage::PlayerDead => {
                &&& !disconnected
                &&& final(opponent).dead
                &&& final(opponent).snapshot == old(opponent).snapshot
                &&& *final(queue) == *old(queue)
            },
            NetMessage::Disconnect => {
                disconnected && *final(opponent) == *old(opponent) && *final(queue) == *old(queue)
            },
            _ => {
                !disconnected && *final(opponent) == *old(opponent) && *final(queue) == *old(queue)
            },
        },
{
    match msg {
        NetMessage::GarbageAttack(ga) => {
            let ghost before = queue.pending@;
            queue.push(crate::garbage::GarbageEvent {
                lines: ga.lines,
                hole_column: ga.hole_column,
            });
            proof {
                assert(queue.pending@.take(before.len() as int) =~= before);
            }
            false
        }
        NetMessage::BoardState(snap) => {
            opponent.snapshot = Some(snap);
            false
        }
        NetMessage::PlayerDead => {
            opponent.dead = true;
            false
        }
        NetMessage::Disconnect => true,
        _ => false,
    }
}

impl Game {
    /// Drain the whole pending queue into the board at once, in order.
    /// The rows that stay are shifted up by the total inserted; each
    /// inserted row is full except for its own event's hole column.
    pub fn apply_pending_garbage(&mut self, queue: &mut GarbageQueue)
        requires
            old(self).wf(),
        ensures
            final(self).wf(),
            final(queue).pending@.len() == 0,
            *final(self) == (Game { board: final(self).board, ..*old(self) }),
            ({
                let evs = old(queue).pending@.map_values(|e: crate::garbage::GarbageEvent| (e.lines, e.hole_column));
                let total = spec_rise_total(evs);
                let dd = if total > BOARD_HEIGHT { BOARD_HEIGHT as int } else { total };
                &&& forall |r: int, c: int| 0 <= r < BOARD_HEIGHT - total && 0 <= c < BOARD_WIDTH
                    ==> #[trigger] board_cell(final(self).board@, r, c)
                        == board_cell(old(self).board@, r + total, c)
                &&& forall |r: int, c: int|
                    BOARD_HEIGHT - dd <= r < BOARD_HEIGHT && 0 <= c < BOARD_WIDTH
                    ==> #[trigger] board_cell(final(self).board@, r, c)
                        == (if c == spec_hole_for_line(evs, total - BOARD_HEIGHT + r) {
                            EMPTY
                        } else {
                            GARBAGE_CELL
                        })
            }),
    {
        let events = queue.drain_all();
        let mut pairs: Vec<(u32, usize)> = Vec::new();
        let mut i: usize = 0;
        while i < events.len()
            invariant
                i <= events@.len(),
                pairs@.len() == i,
                forall |j: int| 0 <= j < i
                    ==> #[trigger] pairs@[j] == (events@[j].lines, events@[j].hole_column),
            decreases events@.len() - i,
        {
            let e = events[i];
            pairs.push((e.lines, e.hole_column));
            i += 1;
        }
        proof {
            assert(pairs@ =~= events@.map_values(|e: crate::garbage::GarbageEvent| (e.lines, e.hole_column)));
            lemma_rise_total_nonneg(pairs@);
        }
        let total: u128 = Self::rise_total(&pairs);
        let start: u128 = if total > BOARD_HEIGHT as u128 {
            total - BOARD_HEIGHT as u128
        } else {
            0
        };
        self.apply_rise_lines(&pairs, start, total, Ghost(total as int));
    }

    /// Apply garbage lines `from..to` of the paced events, one row each.
    pub(crate) fn apply_rise_lines(
        &mut self,
        events: &Vec<(u32, usize)>,
        from: u128,
        to: u128,
        Ghost(total): Ghost<int>,
    )
        requires
            old(self).wf(),
            total == spec_rise_total(events@),
            from <= to,
            to <= total,
            total > BOARD_HEIGHT ==> from >= total - BOARD_HEIGHT,
        ensures
            final(self).wf(),
            *final(self) == (Game { board: final(self).board, ..*old(self) }),
            ({
                let d = to - from;
                let dd = if d > BOARD_HEIGHT { BOARD_HEIGHT as int } else { d };
                &&& forall |r: int, c: int| 0 <= r < BOARD_HEIGHT - d && 0 <= c < BOARD_WIDTH
                    ==> #[trigger] board_cell(final(self).board@, r, c)
                        == board_cell(old(self).board@, r + d, c)
                &&& forall |r: int, c: int|
                    BOARD_HEIGHT - dd <= r < BOARD_HEIGHT && 0 <= c < BOARD_WIDTH
                    ==> #[trigger] board_cell(final(self).board@, r, c)
                        == (if c == spec_hole_for_line(events@, to - BOARD_HEIGHT + r) {
                            EMPTY
                        } else {
                            GARBAGE_CELL
                        })
            }),
    {
        let ghost start_state = *self;
        let mut j: u128 = from;
        while j < to
            invariant
                self.wf(),
                start_state.wf(),
                from <= j <= to,
                to as int <= spec_rise_total(events@),
                *self == (Game { board: self.board, ..start_state }),
                forall |r: int, c: int| 0 <= r < BOARD_HEIGHT - (j - from) && 0 <= c < BOARD_WIDTH
                    ==> #[trigger] board_cell(self.board@, r, c)
                        == board_cell(start_state.board@, r + (j - from), c),
                forall |r: int, c: int|
                    BOARD_HEIGHT - (if j - from > BOARD_HEIGHT { BOARD_HEIGHT as int } else { j - from }) <= r < BOARD_HEIGHT
                    && 0 <= c < BOARD_WIDTH
                    ==> #[trigger] board_cell(self.board@, r, c)
                        == (if c == spec_hole_for_line(events@, j - BOARD_HEIGHT + r) { EMPTY } else { GARBAGE_CELL }),
            decreases to - j,
        {
            let hole = Self::hole_for_line_wide(events, j);
            let ghost before_row = *self;
            self.receive_garbage(1, hole);
            proof {
                assert forall |r: int, c: int|
                    0 <= r < BOARD_HEIGHT - (j + 1 - from) && 0 <= c < BOARD_WIDTH
                    implies #[trigger] board_cell(self.board@, r, c)
                        == board_cell(start_state.board@, r + (j + 1 - from), c) by {
                    assert(self.spec_cell(r, c) == before_row.spec_cell(r + 1, c));
                }
                assert forall |r: int, c: int|
                    BOARD_HEIGHT - (if j + 1 - from > BOARD_HEIGHT { BOARD_HEIGHT as int } else { j + 1 - from }) <= r < BOARD_HEIGHT
                    && 0 <= c < BOARD_WIDTH
                    implies #[trigger] board_cell(self.board@, r, c)
                        == (if c == spec_hole_for_line(events@, j + 1 - BOARD_HEIGHT + r) { EMPTY } else { GARBAGE_CELL }) by {
                    if r == BOARD_HEIGHT - 1 {
                        assert(self.spec_cell(BOARD_HEIGHT - 1, c)
                            == (if c == hole { EMPTY } else { GARBAGE_CELL }));
                    } else {
                        assert(self.spec_cell(r, c) == before_row.spec_cell(r + 1, c));
                        assert(board_cell(before_row.board@, r + 1, c)
                            == (if c == spec_hole_for_line(events@, j - BOARD_HEIGHT + (r + 1)) { EMPTY } else { GARBAGE_CELL }));
                    }
                }
            }
            j += 1;
        }
    }
}

/// What to do right after a lock, per the garbage economy: a clearing lock
/// converts its clear into an attack, cancels it against the local pending
/// queue oldest-first, and sends only the remainder onward; a lock that
/// cleared nothing instead applies every locally pending line at once.
pub fn process_post_lock(
    game: &mut Game,
    queue: &mut GarbageQueue,
    hole: usize,
) -> (outgoing: Option<GarbageAttack>)
    requires
        old(game).wf(),
    ensures
        final(game).wf(),
        (old(game).last_action matches Some(a) && a.cleared_lines > 0) ==> ({
            let attack = spec_attack(old(game).last_action.unwrap());
            let r = spec_cancelled(old(queue).pending@, attack);
            &&& *final(game) == *old(game)
            &&& final(queue).pending@ == r.0
            &&& if r.1 > 0 {
                    outgoing matches Some(ga)
                        && ga.lines == r.1
                        && ga.hole_column == hole
                } else {
                    outgoing is None
                }
        }),
        (match old(game).last_action {
            Some(a) => a.cleared_lines == 0,
            None => true,
        }) ==> ({
            let evs = old(queue).pending@.map_values(|e: crate::garbage::GarbageEvent| (e.lines, e.hole_column));
            let total = spec_rise_total(evs);
            let dd = if total > BOARD_HEIGHT { BOARD_HEIGHT as int } else { total };
            &&& outgoing is None
            &&& final(queue).pending@.len() == 0
            &&& *final(game) == (Game { board: final(game).board, ..*old(game) })
            &&& forall |r: int, c: int| 0 <= r < BOARD_HEIGHT - total && 0 <= c < BOARD_WIDTH
                ==> #[trigger] board_cell(final(game).board@, r, c)
                    == board_cell(old(game).board@, r + total, c)
            &&& forall |r: int, c: int|
                BOARD_HEIGHT - dd <= r < BOARD_HEIGHT && 0 <= c < BOARD_WIDTH
                ==> #[trigger] board_cell(final(game).board@, r, c)
                    == (if c == spec_hole_for_line(evs, total - BOARD_HEIGHT + r) {
                        EMPTY
                    } else {
                        GARBAGE_CELL
                    })
        }),
{
    let cleared_attack: Option<u32> = match &game.last_action {
        Some(action) => {
            if action.cleared_lines > 0 {
                Some(calculate_attack(action))
            } else {
                None
            }
        }
        None => None,
    };
    match cleared_attack {
        Some(attack) => {
            let remaining = queue.cancel(attack);
            if remaining > 0 {
                Some(GarbageAttack { lines: remaining, hole_column: hole })
            } else {
                None
            }
        }
        None => {
            game.apply_pending_garbage(queue);
            None
        }
    }
}

/// Resolve the match once a death notice has been seen or sent.  The host
/// is authoritative and also announces the outcome; when both engines died
/// in the same window, the host takes the win (one deterministic tie-break
/// had to be picked, and this keeps the announcing side simple).
pub fn resolve_match_outcome(is_host: bool, we_died: bool, opponent_dead: bool) -> (r: (bool, Option<MatchOutcome>))
    ensures
        ({
            let won = r.0;
            let notice = r.1;
            &&& won == if we_died && !opponent_dead { false }
                else if opponent_dead && !we_died { true }
                else { is_host }
            &&& if is_host {
                    notice == Some(if won { MatchOutcome::Win } else { MatchOutcome::Lose })
                } else {
                    notice is None
                }
        }),
{
    let won = if we_died && !opponent_dead {
        false
    } else if opponent_dead && !we_died {
        true
    } else {
        is_host
    };
    let notice = if is_host {
        Some(if won { MatchOutcome::Win } else { MatchOutcome::Lose })
    } else {
        None
    };
    (won, notice)
}

/// Where the result screen goes next.
#[derive(Clone, Copy, PartialEq, Eq, Structural, Debug)]
pub enum ResultAction {
    Rematch,
    Menu,
    Quit,
}

/// The symmetric rematch negotiation: both sides must ask; whoever sees
/// both requests standing answers with an acceptance.
pub struct RematchState {
    pub we_requested: bool,
    pub opponent_requested: bool,
}

impl RematchState {
    pub fn new() -> (s: RematchState)
        ensures
            !s.we_requested,
            !s.opponent_requested,
    {
        RematchState { we_requested: false, opponent_requested: false }
    }

    /// Handle one message on the result screen.  A rematch request from
    /// the peer is remembered, and answered with an acceptance (the
    /// returned flag) once this side has asked too; an acceptance starts
    /// the rematch; a disconnect returns to the menu.
    pub fn handle_result_message(&mut self, msg: &NetMessage) -> (r: (Option<ResultAction>, bool))
        ensures
            ({
                let action = r.0;
                let send_accept = r.1;
                match *msg {
                    NetMessage::RematchRequest => {
                        &&& final(self).opponent_requested
                        &&& final(self).we_requested == old(self).we_requested
                        &&& send_accept == old(self).we_requested
                        &&& action == if old(self).we_requested {
                                Some(ResultAction::Rematch)
                            } else {
                                None::<ResultAction>
                            }
                    },
                    NetMessage::RematchAccept => {
                        &&& *final(self) == *old(self)
                        &&& !send_accept
                        &&& action == Some(ResultAction::Rematch)
                    },
                    NetMessage::Disconnect => {
                        &&& *final(self) == *old(self)
                        &&& !send_accept
                        &&& action == Some(ResultAction::Menu)
                    },
                    _ => {
                        &&& *final(self) == *old(self)
                        &&& !send_accept
                        &&& action is None
                    },
                }
            }),
    {
        match msg {
            NetMessage::RematchRequest => {
                self.opponent_requested = true;
                if self.we_requested {
                    (Some(ResultAction::Rematch), true)
                } else {
                    (None, false)
                }
            }
            NetMessage::RematchAccept => (Some(ResultAction::Rematch), false),
            NetMessage::Disconnect => (Some(ResultAction::Menu), false),
            _ => (None, false),
        }
    }

    /// This side asks for a rematch.  If the peer already asked, the
    /// rematch starts at once and an acceptance must be sent (the returned
    /// flag); otherwise this side waits for the peer's answer.
    pub fn request_rematch(&mut self) -> (r: (bool, bool))
        ensures
            final(self).we_requested,
            final(self).opponent_requested == old(self).opponent_requested,
            r.0 == old(self).opponent_requested,
            r.1 == old(self).opponent_requested,
    {
        self.we_requested = true;
        if self.opponent_requested {
            (true, true)
        } else {
            (false, false)
        }
    }
}

} // verus!
