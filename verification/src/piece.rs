//! Piece shapes, spawn rules, kick tables and the piece supply.

use vstd::prelude::*;
use vstd::seq_lib::group_to_multiset_ensures;
use rand::seq::SliceRandom;

verus! {

pub const BOARD_WIDTH: usize = 10;
pub const VISIBLE_HEIGHT: usize = 20;
pub const BOARD_HEIGHT: usize = 40;
pub const BUFFER_HEIGHT: usize = BOARD_HEIGHT - VISIBLE_HEIGHT;
pub const BOARD_CELLS: usize = BOARD_WIDTH * BOARD_HEIGHT;
pub const EMPTY: u8 = 0;
pub const GARBAGE_CELL: u8 = 8;
pub const MAX_NEXT_COUNT: usize = 6;
pub const KIND_I: usize = 0;
pub const KIND_O: usize = 1;
pub const KIND_T: usize = 2;
pub const KIND_COUNT: usize = 7;

/// Bound on how far a piece position may stray from the board; it keeps the
/// cell arithmetic far away from `i32` overflow.
pub const MAX_POS: i32 = 1000;


/// Componentwise agreement between executable offset pairs and their
/// mathematical counterparts.
pub open spec fn pair_matches(r: (i32, i32), o: (int, int)) -> bool {
    r.0 as int == o.0 && r.1 as int == o.1
}

pub open spec fn pairs2_match(r: ((i32, i32), (i32, i32)), o: ((int, int), (int, int))) -> bool {
    pair_matches(r.0, o.0) && pair_matches(r.1, o.1)
}

pub open spec fn pairs4_match(
    r: ((i32, i32), (i32, i32), (i32, i32), (i32, i32)),
    o: ((int, int), (int, int), (int, int), (int, int)),
) -> bool {
    pair_matches(r.0, o.0) && pair_matches(r.1, o.1) && pair_matches(r.2, o.2) && pair_matches(r.3, o.3)
}

pub open spec fn pairs5_match(
    r: ((i32, i32), (i32, i32), (i32, i32), (i32, i32), (i32, i32)),
    o: ((int, int), (int, int), (int, int), (int, int), (int, int)),
) -> bool {
    pair_matches(r.0, o.0) && pair_matches(r.1, o.1) && pair_matches(r.2, o.2)
    && pair_matches(r.3, o.3) && pair_matches(r.4, o.4)
}

/// The four (row, column) offsets of a piece shape, relative to its position,
/// for one kind and one rotation state.
pub open spec fn spec_offsets(kind: usize, rot: u8) -> ((int, int), (int, int), (int, int), (int, int)) {
    if kind == 0 {
        // I
        if rot == 0 { ((0, -1), (0, 0), (0, 1), (0, 2)) }
        else if rot == 1 { ((-1, 1), (0, 1), (1, 1), (2, 1)) }
        else if rot == 2 { ((1, -1), (1, 0), (1, 1), (1, 2)) }
        else { ((-1, 0), (0, 0), (1, 0), (2, 0)) }
    } else if kind == 1 {
        // O
        ((0, 0), (0, 1), (1, 0), (1, 1))
    } else if kind == 2 {
        // T
        if rot == 0 { ((-1, 0), (0, -1), (0, 0), (0, 1)) }
        else if rot == 1 { ((-1, 0), (0, 0), (0, 1), (1, 0)) }
        else if rot == 2 { ((0, -1), (0, 0), (0, 1), (1, 0)) }
        else { ((-1, 0), (0, -1), (0, 0), (1, 0)) }
    } else if kind == 3 {
        // S
        if rot == 0 { ((-1, 0), (-1, 1), (0, -1), (0, 0)) }
        else if rot == 1 { ((-1, 0), (0, 0), (0, 1), (1, 1)) }
        else if rot == 2 { ((0, 0), (0, 1), (1, -1), (1, 0)) }
        else { ((-1, -1), (0, -1), (0, 0), (1, 0)) }
    } else if kind == 4 {
        // Z
        if rot == 0 { ((-1, -1), (-1, 0), (0, 0), (0, 1)) }
        else if rot == 1 { ((-1, 1), (0, 0), (0, 1), (1, 0)) }
        else if rot == 2 { ((0, -1), (0, 0), (1, 0), (1, 1)) }
        else { ((-1, 0), (0, -1), (0, 0), (1, -1)) }
    } else if kind == 5 {
        // L
        if rot == 0 { ((-1, 1), (0, -1), (0, 0), (0, 1)) }
        else if rot == 1 { ((-1, 0), (0, 0), (1, 0), (1, 1)) }
        else if rot == 2 { ((0, -1), (0, 0), (0, 1), (1, -1)) }
        else { ((-1, -1), (-1, 0), (0, 0), (1, 0)) }
    } else {
        // J
        if rot == 0 { ((-1, -1), (0, -1), (0, 0), (0, 1)) }
        else if rot == 1 { ((-1, 0), (-1, 1), (0, 0), (1, 0)) }
        else if rot == 2 { ((0, -1), (0, 0), (0, 1), (1, 1)) }
        else { ((-1, 0), (0, 0), (1, -1), (1, 0)) }
    }
}

/// Every shape offset stays within two cells of the piece position.
pub proof fn lemma_offsets_bounded(kind: usize, rot: u8)
    ensures
        ({
            let o = spec_offsets(kind, rot);
            -2 <= o.0.0 <= 2 && -2 <= o.0.1 <= 2
            && -2 <= o.1.0 <= 2 && -2 <= o.1.1 <= 2
            && -2 <= o.2.0 <= 2 && -2 <= o.2.1 <= 2
            && -2 <= o.3.0 <= 2 && -2 <= o.3.1 <= 2
        }),
{
}

pub fn offsets(kind: usize, rot: u8) -> (r: ((i32, i32), (i32, i32), (i32, i32), (i32, i32)))
    ensures
        pairs4_match(r, spec_offsets(kind, rot)),
{
    if kind == 0 {
        if rot == 0 { ((0, -1), (0, 0), (0, 1), (0, 2)) }
        else if rot == 1 { ((-1, 1), (0, 1), (1, 1), (2, 1)) }
        else if rot == 2 { ((1, -1), (1, 0), (1, 1), (1, 2)) }
        else { ((-1, 0), (0, 0), (1, 0), (2, 0)) }
    } else if kind == 1 {
        ((0, 0), (0, 1), (1, 0), (1, 1))
    } else if kind == 2 {
        if rot == 0 { ((-1, 0), (0, -1), (0, 0), (0, 1)) }
        else if rot == 1 { ((-1, 0), (0, 0), (0, 1), (1, 0)) }
        else if rot == 2 { ((0, -1), (0, 0), (0, 1), (1, 0)) }
        else { ((-1, 0), (0, -1), (0, 0), (1, 0)) }
    } else if kind == 3 {
        if rot == 0 { ((-1, 0), (-1, 1), (0, -1), (0, 0)) }
        else if rot == 1 { ((-1, 0), (0, 0), (0, 1), (1, 1)) }
        else if rot == 2 { ((0, 0), (0, 1), (1, -1), (1, 0)) }
        else { ((-1, -1), (0, -1), (0, 0), (1, 0)) }
    } else if kind == 4 {
        if rot == 0 { ((-1, -1), (-1, 0), (0, 0), (0, 1)) }
        else if rot == 1 { ((-1, 1), (0, 0), (0, 1), (1, 0)) }
        else if rot == 2 { ((0, -1), (0, 0), (1, 0), (1, 1)) }
        else { ((-1, 0), (0, -1), (0, 0), (1, -1)) }
    } else if kind == 5 {
        if rot == 0 { ((-1, 1), (0, -1), (0, 0), (0, 1)) }
        else if rot == 1 { ((-1, 0), (0, 0), (1, 0), (1, 1)) }
        else if rot == 2 { ((0, -1), (0, 0), (0, 1), (1, -1)) }
        else { ((-1, -1), (-1, 0), (0, 0), (1, 0)) }
    } else {
        if rot == 0 { ((-1, -1), (0, -1), (0, 0), (0, 1)) }
        else if rot == 1 { ((-1, 0), (-1, 1), (0, 0), (1, 0)) }
        else if rot == 2 { ((0, -1), (0, 0), (0, 1), (1, 1)) }
        else { ((-1, 0), (0, 0), (1, -1), (1, 0)) }
    }
}

/// Index into the kick tables for a rotation transition.  The eight valid
/// transitions between adjacent rotation states each get their own row; any
/// other pair falls back to row 0.
pub open spec fn spec_kick_index(from: u8, to: u8) -> usize {
    if from == 0 && to == 1 { 0 }
    else if from == 1 && to == 0 { 1 }
    else if from == 1 && to == 2 { 2 }
    else if from == 2 && to == 1 { 3 }
    else if from == 2 && to == 3 { 4 }
    else if from == 3 && to == 2 { 5 }
    else if from == 3 && to == 0 { 6 }
    else if from == 0 && to == 3 { 7 }
    else { 0 }
}

pub fn kick_index(from: u8, to: u8) -> (r: usize)
    ensures
        r == spec_kick_index(from, to),
{
    if from == 0 && to == 1 { 0 }
    else if from == 1 && to == 0 { 1 }
    else if from == 1 && to == 2 { 2 }
    else if from == 2 && to == 1 { 3 }
    else if from == 2 && to == 3 { 4 }
    else if from == 3 && to == 2 { 5 }
    else if from == 3 && to == 0 { 6 }
    else if from == 0 && to == 3 { 7 }
    else { 0 }
}

/// Whether (from, to) is one of the eight rotation transitions that the kick
/// tables cover: the four clockwise steps and the four counter-clockwise ones.
pub open spec fn valid_kick_pair(from: u8, to: u8) -> bool {
    from < 4 && to < 4 && (to == (from + 1) % 4 || to == (from + 3) % 4)
}

/// The inverse of the kick-index mapping: the rotation transition that owns
/// table row `i`.
pub open spec fn spec_kick_pair(i: usize) -> (u8, u8) {
    if i == 0 { (0, 1) }
    else if i == 1 { (1, 0) }
    else if i == 2 { (1, 2) }
    else if i == 3 { (2, 1) }
    else if i == 4 { (2, 3) }
    else if i == 5 { (3, 2) }
    else if i == 6 { (3, 0) }
    else { (0, 3) }
}

/// The kick-index mapping is a bijection between the eight valid rotation
/// transitions and the table rows 0..8: `spec_kick_pair` is its two-sided
/// inverse there, and every other pair takes the defined default row
/// without panicking.
pub proof fn lemma_kick_index_bijection()
    ensures
        forall |f: u8, t: u8| valid_kick_pair(f, t) ==>
            #[trigger] spec_kick_index(f, t) < 8 && spec_kick_pair(spec_kick_index(f, t)) == (f, t),
        forall |i: usize| i < 8 ==>
            valid_kick_pair((#[trigger] spec_kick_pair(i)).0, spec_kick_pair(i).1)
            && spec_kick_index(spec_kick_pair(i).0, spec_kick_pair(i).1) == i,
        forall |f: u8, t: u8| !valid_kick_pair(f, t) ==> #[trigger] spec_kick_index(f, t) == 0,
{
}

/// The five (column, row) kick offsets tried, in order, for one row of the
/// kick table shared by the J, L, T, S and Z pieces.
pub open spec fn spec_kicks_jltsz(idx: usize) -> ((int, int), (int, int), (int, int), (int, int), (int, int)) {
    if idx == 0 { ((0, 0), (-1, 0), (-1, -1), (0, 2), (-1, 2)) }
    else if idx == 1 { ((0, 0), (1, 0), (1, 1), (0, -2), (1, -2)) }
    else if idx == 2 { ((0, 0), (1, 0), (1, 1), (0, -2), (1, -2)) }
    else if idx == 3 { ((0, 0), (-1, 0), (-1, -1), (0, 2), (-1, 2)) }
    else if idx == 4 { ((0, 0), (1, 0), (1, -1), (0, 2), (1, 2)) }
    else if idx == 5 { ((0, 0), (-1, 0), (-1, 1), (0, -2), (-1, -2)) }
    else if idx == 6 { ((0, 0), (-1, 0), (-1, 1), (0, -2), (-1, -2)) }
    else { ((0, 0), (1, 0), (1, -1), (0, 2), (1, 2)) }
}

/// The five (column, row) kick offsets tried, in order, for one row of the
/// kick table of the I piece.
pub open spec fn spec_kicks_i(idx: usize) -> ((int, int), (int, int), (int, int), (int, int), (int, int)) {
    if idx == 0 { ((0, 0), (-2, 0), (1, 0), (-2, 1), (1, -2)) }
    else if idx == 1 { ((0, 0), (2, 0), (-1, 0), (2, -1), (-1, 2)) }
    else if idx == 2 { ((0, 0), (-1, 0), (2, 0), (-1, -2), (2, 1)) }
    else if idx == 3 { ((0, 0), (1, 0), (-2, 0), (1, 2), (-2, -1)) }
    else if idx == 4 { ((0, 0), (2, 0), (-1, 0), (2, -1), (-1, 2)) }
    else if idx == 5 { ((0, 0), (-2, 0), (1, 0), (-2, 1), (1, -2)) }
    else if idx == 6 { ((0, 0), (1, 0), (-2, 0), (1, 2), (-2, -1)) }
    else { ((0, 0), (-1, 0), (2, 0), (-1, -2), (2, 1)) }
}

/// The kick offsets for one table row: the I piece has its own table, all
/// other kinds share one.
pub open spec fn spec_kicks(is_i: bool, idx: usize) -> ((int, int), (int, int), (int, int), (int, int), (int, int)) {
    if is_i { spec_kicks_i(idx) } else { spec_kicks_jltsz(idx) }
}

pub fn kicks(is_i: bool, idx: usize) -> (r: ((i32, i32), (i32, i32), (i32, i32), (i32, i32), (i32, i32)))
    ensures
        pairs5_match(r, spec_kicks(is_i, idx)),
{
    if is_i {
        if idx == 0 { ((0, 0), (-2, 0), (1, 0), (-2, 1), (1, -2)) }
        else if idx == 1 { ((0, 0), (2, 0), (-1, 0), (2, -1), (-1, 2)) }
        else if idx == 2 { ((0, 0), (-1, 0), (2, 0), (-1, -2), (2, 1)) }
        else if idx == 3 { ((0, 0), (1, 0), (-2, 0), (1, 2), (-2, -1)) }
        else if idx == 4 { ((0, 0), (2, 0), (-1, 0), (2, -1), (-1, 2)) }
        else if idx == 5 { ((0, 0), (-2, 0), (1, 0), (-2, 1), (1, -2)) }
        else if idx == 6 { ((0, 0), (1, 0), (-2, 0), (1, 2), (-2, -1)) }
        else { ((0, 0), (-1, 0), (2, 0), (-1, -2), (2, 1)) }
    } else {
        if idx == 0 { ((0, 0), (-1, 0), (-1, -1), (0, 2), (-1, 2)) }
        else if idx == 1 { ((0, 0), (1, 0), (1, 1), (0, -2), (1, -2)) }
        else if idx == 2 { ((0, 0), (1, 0), (1, 1), (0, -2), (1, -2)) }
        else if idx == 3 { ((0, 0), (-1, 0), (-1, -1), (0, 2), (-1, 2)) }
        else if idx == 4 { ((0, 0), (1, 0), (1, -1), (0, 2), (1, 2)) }
        else if idx == 5 { ((0, 0), (-1, 0), (-1, 1), (0, -2), (-1, -2)) }
        else if idx == 6 { ((0, 0), (-1, 0), (-1, 1), (0, -2), (-1, -2)) }
        else { ((0, 0), (1, 0), (1, -1), (0, 2), (1, 2)) }
    }
}

/// The two front-corner offsets of a T piece, by rotation state.
pub open spec fn spec_t_front_corners(rot: u8) -> ((int, int), (int, int)) {
    if rot == 0 { ((-1, -1), (-1, 1)) }
    else if rot == 1 { ((-1, 1), (1, 1)) }
    else if rot == 2 { ((1, -1), (1, 1)) }
    else { ((-1, -1), (1, -1)) }
}

/// The two back-corner offsets of a T piece, by rotation state.
pub open spec fn spec_t_back_corners(rot: u8) -> ((int, int), (int, int)) {
    if rot == 0 { ((1, -1), (1, 1)) }
    else if rot == 1 { ((-1, -1), (1, -1)) }
    else if rot == 2 { ((-1, -1), (-1, 1)) }
    else { ((-1, 1), (1, 1)) }
}

pub fn t_front_corners(rot: u8) -> (r: ((i32, i32), (i32, i32)))
    ensures
        pairs2_match(r, spec_t_front_corners(rot)),
{
    if rot == 0 { ((-1, -1), (-1, 1)) }
    else if rot == 1 { ((-1, 1), (1, 1)) }
    else if rot == 2 { ((1, -1), (1, 1)) }
    else { ((-1, -1), (1, -1)) }
}

pub fn t_back_corners(rot: u8) -> (r: ((i32, i32), (i32, i32)))
    ensures
        pairs2_match(r, spec_t_back_corners(rot)),
{
    if rot == 0 { ((1, -1), (1, 1)) }
    else if rot == 1 { ((-1, -1), (1, -1)) }
    else if rot == 2 { ((-1, -1), (-1, 1)) }
    else { ((-1, 1), (1, 1)) }
}

/// An active piece: a shape kind, a rotation state and a board position.
#[derive(Clone, Copy)]
pub struct Piece {
    pub kind: usize,
    pub rotation: u8,
    pub row: i32,
    pub col: i32,
}

/// The spawn placement of a kind: centered horizontally, just above the
/// visible rows; the square spawns one row higher than the other kinds.
pub open spec fn spec_spawn(kind: usize) -> Piece {
    Piece {
        kind,
        rotation: 0,
        row: (if kind == KIND_O { BUFFER_HEIGHT - 1 } else { BUFFER_HEIGHT as int }) as i32,
        col: ((BOARD_WIDTH as int) / 2 - 1) as i32,
    }
}

impl Piece {
    /// A piece that is meaningful to the board logic: a known kind and
    /// rotation, and a position within the arithmetic safety bound.
    pub open spec fn wf(self) -> bool {
        self.kind < KIND_COUNT
        && self.rotation < 4
        && -MAX_POS <= self.row <= MAX_POS
        && -MAX_POS <= self.col <= MAX_POS
    }

    /// Enough to compute the piece's cells without overflow: a well-formed
    /// piece nudged a few cells in any direction still qualifies.
    pub open spec fn cells_safe(self) -> bool {
        self.kind < KIND_COUNT
        && self.rotation < 4
        && -MAX_POS - 8 <= self.row <= MAX_POS + 8
        && -MAX_POS - 8 <= self.col <= MAX_POS + 8
    }

    /// The absolute (row, column) coordinate of cell `i` of this piece.
    pub open spec fn spec_cell_at(self, i: int) -> (int, int) {
        let o = spec_offsets(self.kind, self.rotation);
        let d = if i == 0 { o.0 } else if i == 1 { o.1 } else if i == 2 { o.2 } else { o.3 };
        (self.row + d.0, self.col + d.1)
    }

    /// The spawn position: centered horizontally, just above the visible
    /// rows; the square spawns one row higher than the other kinds.
    pub fn new(kind: usize) -> (p: Piece)
        ensures
            p.kind == kind,
            p.rotation == 0,
            p.row == if kind == KIND_O { BUFFER_HEIGHT - 1 } else { BUFFER_HEIGHT as int },
            p.col == (BOARD_WIDTH as i32) / 2 - 1,
            kind < KIND_COUNT ==> p.wf(),
    {
        let row: i32 = if kind == KIND_O {
            BUFFER_HEIGHT as i32 - 1
        } else {
            BUFFER_HEIGHT as i32
        };
        Piece {
            kind,
            rotation: 0,
            row,
            col: (BOARD_WIDTH as i32) / 2 - 1,
        }
    }

    /// The shape offsets of this piece's kind and rotation.
    pub fn blocks(&self) -> (r: ((i32, i32), (i32, i32), (i32, i32), (i32, i32)))
        ensures
            pairs4_match(r, spec_offsets(self.kind, self.rotation)),
    {
        offsets(self.kind, self.rotation)
    }

    /// The four absolute board coordinates this piece occupies.
    pub fn cells(&self) -> (r: Vec<(i32, i32)>)
        requires
            self.cells_safe(),
        ensures
            r@.len() == 4,
            forall |i: int| 0 <= i < 4 ==>
                (#[trigger] r@[i]).0 == self.spec_cell_at(i).0 && r@[i].1 == self.spec_cell_at(i).1,
    {
        proof {
            lemma_offsets_bounded(self.kind, self.rotation);
        }
        let (b0, b1, b2, b3) = self.blocks();
        let mut r: Vec<(i32, i32)> = Vec::new();
        r.push((self.row + b0.0, self.col + b0.1));
        r.push((self.row + b1.0, self.col + b1.1));
        r.push((self.row + b2.0, self.col + b2.1));
        r.push((self.row + b3.0, self.col + b3.1));
        r
    }
}

/// Relies on rand::random_range over `0..n`: a draw from the range, which is
/// non-empty because `n > 0`.
#[verifier::external_body]
fn random_below(n: usize) -> (r: usize)
    requires
        n > 0,
    ensures
        r < n,
{
    rand::random_range(0..n)
}

/// Relies on rand's SliceRandom::shuffle: an in-place permutation of the
/// slice, so the multiset of elements is unchanged.
#[verifier::external_body]
fn shuffle_kinds(v: &mut Vec<usize>)
    ensures
        final(v)@.to_multiset() == old(v)@.to_multiset(),
{
    v.shuffle(&mut rand::rng());
}

/// The piece supply: either a uniform random draw, or a bag that deals each
/// of the seven kinds once before refilling.
pub struct Bag {
    queue: Vec<usize>,
    use_bag: bool,
}

impl Bag {
    pub closed spec fn wf(self) -> bool {
        (forall |i: int| 0 <= i < self.queue@.len() ==> #[trigger] self.queue@[i] < KIND_COUNT)
        && (forall |i: int, j: int| 0 <= i < j < self.queue@.len()
                ==> self.queue@[i] != self.queue@[j])
        && self.queue@.len() <= KIND_COUNT
    }

    /// The kinds still waiting in the current refill.
    pub closed spec fn spec_waiting(self) -> Seq<usize> {
        self.queue@
    }

    /// How many kinds are still waiting in the current bag refill.
    pub open spec fn spec_remaining(self) -> nat {
        self.spec_waiting().len()
    }

    /// Whether this supply deals bags of seven rather than uniform draws.
    pub closed spec fn spec_uses_bag(self) -> bool {
        self.use_bag
    }

    pub fn new(use_bag: bool) -> (b: Bag)
        ensures
            b.wf(),
            b.spec_remaining() == 0,
            b.spec_uses_bag() == use_bag,
    {
        Bag { queue: Vec::new(), use_bag }
    }

    /// Draw the next piece kind.  Whatever the randomizer mode and however
    /// the random draws come out, the result is a valid kind.  In bag mode
    /// the refill holds each of the seven kinds once, so seven successive
    /// draws from a fresh refill deal seven distinct kinds.
    pub fn next(&mut self) -> (kind: usize)
        requires
            old(self).wf(),
        ensures
            final(self).wf(),
            kind < KIND_COUNT,
            final(self).spec_uses_bag() == old(self).spec_uses_bag(),
            old(self).spec_uses_bag() ==> {
                &&& final(self).spec_remaining() == (if old(self).spec_remaining() > 0 {
                        (old(self).spec_remaining() - 1) as nat
                    } else {
                        (KIND_COUNT - 1) as nat
                    })
                &&& !final(self).spec_waiting().contains(kind)
                &&& (old(self).spec_remaining() > 0
                        ==> final(self).spec_waiting() == old(self).spec_waiting().drop_last()
                            && kind == old(self).spec_waiting().last())
            },
    {
        if !self.use_bag {
            return random_below(KIND_COUNT);
        }
        if self.queue.len() == 0 {
            let mut bag: Vec<usize> = Vec::new();
            bag.push(0);
            bag.push(1);
            bag.push(2);
            bag.push(3);
            bag.push(4);
            bag.push(5);
            bag.push(6);
            let ghost before = bag@;
            shuffle_kinds(&mut bag);
            proof {
                broadcast use group_to_multiset_ensures;
                assert(bag@.len() == bag@.to_multiset().len());
                assert(before.len() == before.to_multiset().len());
                assert(bag@.len() == 7);
                assert forall |i: int| 0 <= i < bag@.len() implies #[trigger] bag@[i] < KIND_COUNT by {
                    assert(bag@.contains(bag@[i]));
                    assert(bag@.to_multiset().count(bag@[i]) > 0);
                    assert(before.to_multiset().count(bag@[i]) > 0);
                    assert(before.contains(bag@[i]));
                }
                assert forall |i: int, j: int| 0 <= i < j < bag@.len()
                    implies bag@[i] != bag@[j] by {
                    if bag@[i] == bag@[j] {
                        before.lemma_multiset_has_no_duplicates();
                        bag@.lemma_multiset_has_no_duplicates_conv();
                        assert(bag@.no_duplicates());
                    }
                }
            }
            self.queue = bag;
        }
        let ghost before_pop = self.queue@;
        let kind = self.queue.pop().unwrap();
        proof {
            assert(self.queue@ == before_pop.drop_last());
            assert forall |i: int| 0 <= i < self.queue@.len()
                implies #[trigger] self.queue@[i] != kind by {
                assert(before_pop[i] == self.queue@[i]);
                assert(before_pop[before_pop.len() - 1] == kind);
            }
            assert(!self.queue@.contains(kind));
        }
        kind
    }
}

} // verus!
