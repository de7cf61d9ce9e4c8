//! Range join: the pairs of rows whose ranges overlap, found by a sweep over
//! two sides sorted by where their ranges start.

use vstd::prelude::*;

verus! {

/// A row of one side of a range join: the range it covers, ends included.
#[derive(Clone, Copy, Debug, PartialEq, Eq, Structural)]
pub struct RangeRow {
    pub start: i64,
    pub end: i64,
}

/// Whether two ranges have a point in common.
pub open spec fn overlaps(a: RangeRow, b: RangeRow) -> bool {
    a.start <= b.end && a.end >= b.start
}

/// Whether a side is sorted, ascending, by the start of its ranges.
pub open spec fn sorted_by_start(rows: Seq<RangeRow>) -> bool {
    forall|i: int, j: int| 0 <= i <= j < rows.len() ==> rows[i].start <= rows[j].start
}

/// The pairs of the left row at place `i` with the right rows among the
/// first `upto` that overlap it, in the order of the right side.
pub open spec fn row_overlaps(a: RangeRow, i: usize, right: Seq<RangeRow>, upto: nat) -> Seq<
    (usize, usize),
>
    decreases upto,
{
    if upto == 0 {
        Seq::empty()
    } else {
        let j = (upto - 1) as usize;
        let rest = row_overlaps(a, i, right, (upto - 1) as nat);
        if overlaps(a, right[j as int]) {
            rest.push((i, j))
        } else {
            rest
        }
    }
}

/// The pairs, by their places, of the first `upto` left rows with the right
/// rows that overlap them: left row by left row, each in the order of the
/// right side.
pub open spec fn range_pairs(left: Seq<RangeRow>, right: Seq<RangeRow>, upto: nat) -> Seq<
    (usize, usize),
>
    decreases upto,
{
    if upto == 0 {
        Seq::empty()
    } else {
        let i = (upto - 1) as usize;
        range_pairs(left, right, (upto - 1) as nat) + row_overlaps(
            left[i as int],
            i,
            right,
            right.len(),
        )
    }
}

/// Where the sweep stands.
#[derive(Clone, Copy, Debug, PartialEq, Eq, Structural)]
pub enum RangePhase {
    /// Take up the next left row.
    ScanLeft,
    /// Look at the next right row of the current left row's window.
    ScanRight,
    /// Emit the pair the sweep stands on.
    EmitPairs,
    /// Both sides are exhausted.
    Done,
}

/// The state of a sweep: the left row it works on, the right row it looks
/// at, and what it does next.
#[derive(Clone, Copy, Debug, PartialEq, Eq, Structural)]
pub struct RangeJoinState {
    pub left_pos: usize,
    pub right_pos: usize,
    pub phase: RangePhase,
}

/// No right row from place `from` on overlaps the left row: the window of
/// the left row ends before `from`.
pub open spec fn window_closed(a: RangeRow, right: Seq<RangeRow>, from: int) -> bool {
    forall|j: int| from <= j < right.len() ==> !overlaps(a, #[trigger] right[j])
}

/// Past the end of a row's window there is nothing more to pair it with.
pub proof fn lemma_window_closed(a: RangeRow, i: usize, right: Seq<RangeRow>, from: nat, upto: nat)
    requires
        from <= upto <= right.len(),
        right.len() <= usize::MAX,
        window_closed(a, right, from as int),
    ensures
        row_overlaps(a, i, right, upto) == row_overlaps(a, i, right, from),
    decreases upto,
{
    if upto > from {
        lemma_window_closed(a, i, right, from, (upto - 1) as nat);
        assert(!overlaps(a, right[upto - 1]));
    }
}

impl RangeJoinState {
    /// The sweep before its first step.
    pub fn new() -> (state: RangeJoinState)
        ensures
            state == (RangeJoinState { left_pos: 0, right_pos: 0, phase: RangePhase::ScanLeft }),
    {
        RangeJoinState { left_pos: 0, right_pos: 0, phase: RangePhase::ScanLeft }
    }

    /// The sweep stands inside both sides, and where it is about to emit it
    /// stands on a pair that overlaps.
    pub open spec fn well_formed(&self, left: Seq<RangeRow>, right: Seq<RangeRow>) -> bool {
        &&& self.left_pos <= left.len()
        &&& self.right_pos <= right.len()
        &&& (self.phase is ScanRight || self.phase is EmitPairs) ==> self.left_pos < left.len()
        &&& self.phase is EmitPairs ==> self.right_pos < right.len() && overlaps(
            left[self.left_pos as int],
            right[self.right_pos as int],
        )
        &&& self.phase is Done ==> self.left_pos == left.len()
        &&& self.phase is ScanLeft ==> self.right_pos == 0
    }

    /// The pairs emitted by the time the sweep stands here.
    pub open spec fn emitted(&self, left: Seq<RangeRow>, right: Seq<RangeRow>) -> Seq<(usize, usize)> {
        if self.phase is ScanLeft || self.phase is Done {
            range_pairs(left, right, self.left_pos as nat)
        } else {
            range_pairs(left, right, self.left_pos as nat) + row_overlaps(
                left[self.left_pos as int],
                self.left_pos,
                right,
                self.right_pos as nat,
            )
        }
    }

    /// The left rows that the sweep is not yet done with.
    pub open spec fn rows_left(&self, left: Seq<RangeRow>) -> int {
        left.len() - self.left_pos
    }

    /// The steps that the sweep may still take on its current left row.
    pub open spec fn steps_within(&self, right: Seq<RangeRow>) -> int {
        match self.phase {
            RangePhase::ScanLeft => (2 * right.len() + 3) as int,
            RangePhase::ScanRight => 2 * (right.len() - self.right_pos) + 1,
            RangePhase::EmitPairs => 2 * (right.len() - self.right_pos),
            RangePhase::Done => 0int,
        }
    }

    /// Whether the sweep at `self` is nearer to its end than at `other`.
    pub open spec fn nearer_than(&self, other: RangeJoinState, left: Seq<RangeRow>, right: Seq<RangeRow>) -> bool {
        self.rows_left(left) < other.rows_left(left) || (self.rows_left(left) == other.rows_left(left)
            && self.steps_within(right) < other.steps_within(right))
    }

    /// Takes one step of the sweep. A step in the emitting phase returns the
    /// pair; every other step returns nothing. Each step brings the sweep
    /// nearer to its end.
    pub fn step(&mut self, left: &Vec<RangeRow>, right: &Vec<RangeRow>) -> (pair: Option<
        (usize, usize),
    >)
        requires
            old(self).well_formed(left@, right@),
            sorted_by_start(right@),
        ensures
            final(self).well_formed(left@, right@),
            final(self).emitted(left@, right@) == old(self).emitted(left@, right@) + (match pair {
                Some(p) => seq![p],
                None => Seq::empty(),
            }),
            match pair {
                Some(p) => old(self).phase is EmitPairs && p == (
                    old(self).left_pos,
                    old(self).right_pos,
                ),
                None => !(old(self).phase is EmitPairs),
            },
            old(self).phase is Done ==> *final(self) == *old(self),
            !(old(self).phase is Done) ==> final(self).nearer_than(*old(self), left@, right@),
    {
        proof {
            assert(left@.len() == left.len());
            assert(right@.len() == right.len());
        }
        match self.phase {
            RangePhase::ScanLeft => {
                if self.left_pos == left.len() {
                    self.phase = RangePhase::Done;
                } else {
                    self.right_pos = 0;
                    self.phase = RangePhase::ScanRight;
                }
                proof {
                    assert(self.emitted(left@, right@) =~= old(self).emitted(left@, right@)
                        + Seq::<(usize, usize)>::empty());
                }
                None
            },
            RangePhase::ScanRight => {
                let a: RangeRow = left[self.left_pos];
                if self.right_pos == right.len() || right[self.right_pos].start > a.end {
                    proof {
                        assert(window_closed(a, right@, self.right_pos as int)) by {
                            assert forall|j: int| self.right_pos <= j < right@.len() implies !overlaps(
                                a,
                                #[trigger] right@[j],
                            ) by {
                                assert(right@[self.right_pos as int].start <= right@[j].start);
                            }
                        }
                        lemma_window_closed(
                            a,
                            self.left_pos,
                            right@,
                            self.right_pos as nat,
                            right@.len(),
                        );
                    }
                    self.left_pos = self.left_pos + 1;
                    self.right_pos = 0;
                    self.phase = RangePhase::ScanLeft;
                } else if a.start <= right[self.right_pos].end && a.end
                    >= right[self.right_pos].start {
                    self.phase = RangePhase::EmitPairs;
                } else {
                    self.right_pos = self.right_pos + 1;
                }
                proof {
                    assert(self.emitted(left@, right@) =~= old(self).emitted(left@, right@)
                        + Seq::<(usize, usize)>::empty());
                }
                None
            },
            RangePhase::EmitPairs => {
                let pair: (usize, usize) = (self.left_pos, self.right_pos);
                self.right_pos = self.right_pos + 1;
                self.phase = RangePhase::ScanRight;
                proof {
                    assert(self.emitted(left@, right@) =~= old(self).emitted(left@, right@) + seq![
                        pair,
                    ]);
                }
                Some(pair)
            },
            RangePhase::Done => {
                proof {
                    assert(self.emitted(left@, right@) =~= old(self).emitted(left@, right@)
                        + Seq::<(usize, usize)>::empty());
                }
                None
            },
        }
    }
}

/// The pairs of a left row and a right row whose ranges overlap, by their
/// places: a sweep over both sides, run to its end.
pub fn range_join(left: &Vec<RangeRow>, right: &Vec<RangeRow>) -> (out: Vec<(usize, usize)>)
    requires
        sorted_by_start(left@),
        sorted_by_start(right@),
    ensures
        out@ == range_pairs(left@, right@, left@.len()),
{
    let mut state: RangeJoinState = RangeJoinState::new();
    let mut out: Vec<(usize, usize)> = Vec::new();
    loop
        invariant_except_break
            state.well_formed(left@, right@),
            sorted_by_start(right@),
            out@ == state.emitted(left@, right@),
        ensures
            out@ == range_pairs(left@, right@, left@.len()),
        decreases state.rows_left(left@), state.steps_within(right@),
    {
        match state.phase {
            RangePhase::Done => {
                break ;
            },
            _ => {},
        }
        let pair: Option<(usize, usize)> = state.step(left, right);
        match pair {
            Some(p) => {
                out.push(p);
            },
            None => {
                proof {
                    assert(out@ + Seq::<(usize, usize)>::empty() =~= out@);
                }
            },
        }
    }
    out
}

} // verus!
