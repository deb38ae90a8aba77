//! Per-position snapshots and the diff engine that finds the squares
//! changed between two consecutive frames.

use vstd::prelude::*;

use crate::api::MoveGlyph;
use crate::board::{Board, Color, Role};
use crate::text::ClockText;

verus! {

/// The full 64-square set.
pub const FULL_BOARD: u64 = 0xFFFF_FFFF_FFFF_FFFFu64;

/// A normalized snapshot of one position in the rendered sequence.
#[derive(Debug)]
pub struct RenderFrame {
    pub board: Board,
    /// Squares highlighted for the move that produced this frame.
    pub highlighted: u64,
    /// The checked square, as a square set holding at most one square.
    pub checked: u64,
    /// Display time in centiseconds, if this frame is animated.
    pub delay: Option<u16>,
    /// Annotation badge for the move that produced this frame.
    pub glyph: Option<MoveGlyph>,
    pub white_clock: Option<ClockText>,
    pub black_clock: Option<ClockText>,
}

impl RenderFrame {
    /// The squares on which `a` and `b` differ: the bitwise symmetric
    /// difference of the check set, the highlight set, the white-piece
    /// set and every role set.
    pub open spec fn spec_diff(a: RenderFrame, b: RenderFrame) -> u64 {
        (a.checked ^ b.checked) | (a.highlighted ^ b.highlighted) | (a.board.white
            ^ b.board.white) | (a.board.pawns ^ b.board.pawns) | (a.board.knights
            ^ b.board.knights) | (a.board.bishops ^ b.board.bishops) | (a.board.rooks
            ^ b.board.rooks) | (a.board.queens ^ b.board.queens) | (a.board.kings
            ^ b.board.kings)
    }

    /// The set of squares that changed between `prev` and `self`.
    pub fn diff(&self, prev: &RenderFrame) -> (d: u64)
        ensures
            d == Self::spec_diff(*prev, *self),
    {
        (prev.checked ^ self.checked) | (prev.highlighted ^ self.highlighted) | (prev.board.white
            ^ self.board.white) | (prev.board.pawns ^ self.board.pawns) | (prev.board.knights
            ^ self.board.knights) | (prev.board.bishops ^ self.board.bishops) | (prev.board.rooks
            ^ self.board.rooks) | (prev.board.queens ^ self.board.queens) | (prev.board.kings
            ^ self.board.kings)
    }

    /// An empty frame: empty board, nothing highlighted or checked.
    pub fn default_frame() -> (f: RenderFrame)
        ensures
            f.board == Board::spec_empty(),
            f.highlighted == 0u64,
            f.checked == 0u64,
            f.delay is None,
            f.glyph is None,
            f.white_clock is None,
            f.black_clock is None,
    {
        RenderFrame {
            board: Board::empty(),
            highlighted: 0,
            checked: 0,
            delay: None,
            glyph: None,
            white_clock: None,
            black_clock: None,
        }
    }
}

/// The changed-square set for a frame: the diff against the frame before
/// it, or the full board for the first frame of a render.
pub open spec fn spec_changed(prev: Option<RenderFrame>, frame: RenderFrame) -> u64 {
    match prev {
        None => FULL_BOARD,
        Some(p) => RenderFrame::spec_diff(p, frame),
    }
}

/// A frame diffed against itself yields the empty square set.
pub proof fn lemma_diff_reflexive(f: RenderFrame)
    ensures
        RenderFrame::spec_diff(f, f) == 0u64,
{
    let c = f.checked;
    let h = f.highlighted;
    let w = f.board.white;
    let p = f.board.pawns;
    let n = f.board.knights;
    let b = f.board.bishops;
    let r = f.board.rooks;
    let q = f.board.queens;
    let k = f.board.kings;
    assert((c ^ c) | (h ^ h) | (w ^ w) | (p ^ p) | (n ^ n) | (b ^ b) | (r ^ r) | (q ^ q) | (k ^ k)
        == 0u64) by (bit_vector);
}

/// The diff is symmetric in its two frames.
pub proof fn lemma_diff_symmetric(f1: RenderFrame, f2: RenderFrame)
    ensures
        RenderFrame::spec_diff(f1, f2) == RenderFrame::spec_diff(f2, f1),
{
    let c1 = f1.checked;
    let h1 = f1.highlighted;
    let w1 = f1.board.white;
    let p1 = f1.board.pawns;
    let n1 = f1.board.knights;
    let b1 = f1.board.bishops;
    let r1 = f1.board.rooks;
    let q1 = f1.board.queens;
    let k1 = f1.board.kings;
    let c2 = f2.checked;
    let h2 = f2.highlighted;
    let w2 = f2.board.white;
    let p2 = f2.board.pawns;
    let n2 = f2.board.knights;
    let b2 = f2.board.bishops;
    let r2 = f2.board.rooks;
    let q2 = f2.board.queens;
    let k2 = f2.board.kings;
    assert((c1 ^ c2) | (h1 ^ h2) | (w1 ^ w2) | (p1 ^ p2) | (n1 ^ n2) | (b1 ^ b2) | (r1 ^ r2) | (q1
        ^ q2) | (k1 ^ k2) == (c2 ^ c1) | (h2 ^ h1) | (w2 ^ w1) | (p2 ^ p1) | (n2 ^ n1) | (b2 ^ b1)
        | (r2 ^ r1) | (q2 ^ q1) | (k2 ^ k1)) by (bit_vector);
}

/// Without a predecessor the changed set is the full board, whatever the
/// frame holds.
pub proof fn lemma_changed_no_prev(f: RenderFrame)
    ensures
        spec_changed(None, f) == FULL_BOARD,
{
}

/// A frame that differs from its predecessor only by relocating one
/// non-capturing piece of color `mover` and role `role` from `from` to
/// `to` changes exactly those two squares, plus any square whose check
/// status toggled.
pub proof fn lemma_diff_single_move(
    f1: RenderFrame,
    f2: RenderFrame,
    from: u64,
    to: u64,
    mover: Color,
    role: Role,
)
    requires
        from < 64,
        to < 64,
        f2.highlighted == f1.highlighted,
        f2.board.spec_by_color(mover) == f1.board.spec_by_color(mover) ^ ((1u64 << from) | (1u64
            << to)),
        f2.board.spec_by_color(mover.spec_other()) == f1.board.spec_by_color(mover.spec_other()),
        f2.board.spec_by_role(role) == f1.board.spec_by_role(role) ^ ((1u64 << from) | (1u64
            << to)),
        forall|r: Role| r != role ==> f2.board.spec_by_role(r) == f1.board.spec_by_role(r),
    ensures
        RenderFrame::spec_diff(f1, f2) == ((1u64 << from) | (1u64 << to)) | (f1.checked
            ^ f2.checked),
{
    let m = (1u64 << from) | (1u64 << to);
    let c1 = f1.checked;
    let c2 = f2.checked;
    let h = f1.highlighted;
    assert(f2.board.spec_by_role(Role::Pawn) == if role == Role::Pawn {
        f1.board.pawns ^ m
    } else {
        f1.board.pawns
    });
    assert(f2.board.spec_by_role(Role::Knight) == if role == Role::Knight {
        f1.board.knights ^ m
    } else {
        f1.board.knights
    });
    assert(f2.board.spec_by_role(Role::Bishop) == if role == Role::Bishop {
        f1.board.bishops ^ m
    } else {
        f1.board.bishops
    });
    assert(f2.board.spec_by_role(Role::Rook) == if role == Role::Rook {
        f1.board.rooks ^ m
    } else {
        f1.board.rooks
    });
    assert(f2.board.spec_by_role(Role::Queen) == if role == Role::Queen {
        f1.board.queens ^ m
    } else {
        f1.board.queens
    });
    assert(f2.board.spec_by_role(Role::King) == if role == Role::King {
        f1.board.kings ^ m
    } else {
        f1.board.kings
    });
    let w1 = f1.board.white;
    let w2 = f2.board.white;
    assert(w2 == if mover == Color::White {
        w1 ^ m
    } else {
        w1
    });
    // Unchanged sets drop out of the union; the two changed sets each
    // contribute exactly the move mask.
    lemma_single_move_mask(w1, w2, m);
    let s1 = f1.board.spec_by_role(role);
    let s2 = f2.board.spec_by_role(role);
    match role {
        Role::Pawn => {
            lemma_changed_slot(c1, c2, h, w1, w2, s1, s2, f1.board.knights, f1.board.bishops,
                f1.board.rooks, f1.board.queens, f1.board.kings, m);
        },
        Role::Knight => {
            lemma_changed_slot(c1, c2, h, w1, w2, s1, s2, f1.board.pawns, f1.board.bishops,
                f1.board.rooks, f1.board.queens, f1.board.kings, m);
        },
        Role::Bishop => {
            lemma_changed_slot(c1, c2, h, w1, w2, s1, s2, f1.board.pawns, f1.board.knights,
                f1.board.rooks, f1.board.queens, f1.board.kings, m);
        },
        Role::Rook => {
            lemma_changed_slot(c1, c2, h, w1, w2, s1, s2, f1.board.pawns, f1.board.knights,
                f1.board.bishops, f1.board.queens, f1.board.kings, m);
        },
        Role::Queen => {
            lemma_changed_slot(c1, c2, h, w1, w2, s1, s2, f1.board.pawns, f1.board.knights,
                f1.board.bishops, f1.board.rooks, f1.board.kings, m);
        },
        Role::King => {
            lemma_changed_slot(c1, c2, h, w1, w2, s1, s2, f1.board.pawns, f1.board.knights,
                f1.board.bishops, f1.board.rooks, f1.board.queens, m);
        },
    }
}

/// The white-piece slot of the diff contributes `m` when the mover is
/// white and nothing otherwise.
proof fn lemma_single_move_mask(w1: u64, w2: u64, m: u64)
    requires
        w2 == w1 ^ m || w2 == w1,
    ensures
        w1 ^ w2 == m || w1 ^ w2 == 0,
{
    assert(w1 ^ (w1 ^ m) == m) by (bit_vector);
    assert(w1 ^ w1 == 0u64) by (bit_vector);
}

/// The union of the diff slots collapses to `m | (c1 ^ c2)` when the
/// highlight slot is unchanged, the white slot changed by `m` or not at
/// all, one role slot changed by `m`, and the rest are unchanged.
proof fn lemma_changed_slot(
    c1: u64,
    c2: u64,
    h: u64,
    w1: u64,
    w2: u64,
    s1: u64,
    s2: u64,
    u1: u64,
    u2: u64,
    u3: u64,
    u4: u64,
    u5: u64,
    m: u64,
)
    requires
        w1 ^ w2 == m || w1 ^ w2 == 0,
        s2 == s1 ^ m,
    ensures
        (c1 ^ c2) | (h ^ h) | (w1 ^ w2) | (s1 ^ s2) | (u1 ^ u1) | (u2 ^ u2) | (u3 ^ u3) | (u4
            ^ u4) | (u5 ^ u5) == m | (c1 ^ c2),
        (c1 ^ c2) | (h ^ h) | (w1 ^ w2) | (u1 ^ u1) | (s1 ^ s2) | (u2 ^ u2) | (u3 ^ u3) | (u4
            ^ u4) | (u5 ^ u5) == m | (c1 ^ c2),
        (c1 ^ c2) | (h ^ h) | (w1 ^ w2) | (u1 ^ u1) | (u2 ^ u2) | (s1 ^ s2) | (u3 ^ u3) | (u4
            ^ u4) | (u5 ^ u5) == m | (c1 ^ c2),
        (c1 ^ c2) | (h ^ h) | (w1 ^ w2) | (u1 ^ u1) | (u2 ^ u2) | (u3 ^ u3) | (s1 ^ s2) | (u4
            ^ u4) | (u5 ^ u5) == m | (c1 ^ c2),
        (c1 ^ c2) | (h ^ h) | (w1 ^ w2) | (u1 ^ u1) | (u2 ^ u2) | (u3 ^ u3) | (u4 ^ u4) | (s1
            ^ s2) | (u5 ^ u5) == m | (c1 ^ c2),
        (c1 ^ c2) | (h ^ h) | (w1 ^ w2) | (u1 ^ u1) | (u2 ^ u2) | (u3 ^ u3) | (u4 ^ u4) | (u5
            ^ u5) | (s1 ^ s2) == m | (c1 ^ c2),
{
    assert(s1 ^ (s1 ^ m) == m) by (bit_vector);
    if w1 ^ w2 == m {
        assert((c1 ^ c2) | (h ^ h) | m | m | (u1 ^ u1) | (u2 ^ u2) | (u3 ^ u3) | (u4 ^ u4) | (u5
            ^ u5) == m | (c1 ^ c2)) by (bit_vector);
        assert((c1 ^ c2) | (h ^ h) | m | (u1 ^ u1) | m | (u2 ^ u2) | (u3 ^ u3) | (u4 ^ u4) | (u5
            ^ u5) == m | (c1 ^ c2)) by (bit_vector);
        assert((c1 ^ c2) | (h ^ h) | m | (u1 ^ u1) | (u2 ^ u2) | m | (u3 ^ u3) | (u4 ^ u4) | (u5
            ^ u5) == m | (c1 ^ c2)) by (bit_vector);
        assert((c1 ^ c2) | (h ^ h) | m | (u1 ^ u1) | (u2 ^ u2) | (u3 ^ u3) | m | (u4 ^ u4) | (u5
            ^ u5) == m | (c1 ^ c2)) by (bit_vector);
        assert((c1 ^ c2) | (h ^ h) | m | (u1 ^ u1) | (u2 ^ u2) | (u3 ^ u3) | (u4 ^ u4) | m | (u5
            ^ u5) == m | (c1 ^ c2)) by (bit_vector);
        assert((c1 ^ c2) | (h ^ h) | m | (u1 ^ u1) | (u2 ^ u2) | (u3 ^ u3) | (u4 ^ u4) | (u5
            ^ u5) | m == m | (c1 ^ c2)) by (bit_vector);
    } else {
        assert((c1 ^ c2) | (h ^ h) | 0u64 | m | (u1 ^ u1) | (u2 ^ u2) | (u3 ^ u3) | (u4 ^ u4) | (u5
            ^ u5) == m | (c1 ^ c2)) by (bit_vector);
        assert((c1 ^ c2) | (h ^ h) | 0u64 | (u1 ^ u1) | m | (u2 ^ u2) | (u3 ^ u3) | (u4 ^ u4) | (u5
            ^ u5) == m | (c1 ^ c2)) by (bit_vector);
        assert((c1 ^ c2) | (h ^ h) | 0u64 | (u1 ^ u1) | (u2 ^ u2) | m | (u3 ^ u3) | (u4 ^ u4) | (u5
            ^ u5) == m | (c1 ^ c2)) by (bit_vector);
        assert((c1 ^ c2) | (h ^ h) | 0u64 | (u1 ^ u1) | (u2 ^ u2) | (u3 ^ u3) | m | (u4 ^ u4) | (u5
            ^ u5) == m | (c1 ^ c2)) by (bit_vector);
        assert((c1 ^ c2) | (h ^ h) | 0u64 | (u1 ^ u1) | (u2 ^ u2) | (u3 ^ u3) | (u4 ^ u4) | m | (u5
            ^ u5) == m | (c1 ^ c2)) by (bit_vector);
        assert((c1 ^ c2) | (h ^ h) | 0u64 | (u1 ^ u1) | (u2 ^ u2) | (u3 ^ u3) | (u4 ^ u4) | (u5
            ^ u5) | m == m | (c1 ^ c2)) by (bit_vector);
    }
}

} // verus!
