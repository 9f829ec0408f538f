//! Carrying out a plan of moves, one entry at a time.
//!
//! The executor decides what happens next; the caller performs each move it
//! hands out and reports back how it went. A failed move is recorded and the
//! remaining ones still go ahead. In a dry run nothing is handed out and
//! every entry is reported as a move that would be made.

use vstd::prelude::*;
use crate::mv_videos::MoveEntry;

verus! {

/// What became of one planned move.
#[derive(Debug, PartialEq, Eq)]
pub enum MoveStatus {
    /// Dry run: the move would be made.
    WouldMove,
    /// The move was made.
    Moved,
    /// The move failed, for the reason given.
    Failed(String),
}

/// One line of the execution report.
#[derive(Debug)]
pub struct MoveOutcome {
    pub from: String,
    pub to: String,
    pub status: MoveStatus,
}

/// Everything that was done, or would be done, in plan order; `cancelled`
/// where the run was called off before all moves were made.
#[derive(Debug)]
pub struct ExecutionReport {
    pub outcomes: Vec<MoveOutcome>,
    pub cancelled: bool,
}

/// Whether an outcome is about the move `e`.
pub open spec fn outcome_of(o: MoveOutcome, e: MoveEntry) -> bool {
    o.from@ == e.from@ && o.to@ == e.to@
}

/// Steps through a plan of moves.
pub struct MoveExecutor {
    plan: Vec<MoveEntry>,
    dry_run: bool,
    next: usize,
    cancelled: bool,
    outcomes: Vec<MoveOutcome>,
}

impl MoveExecutor {
    /// The plan being carried out.
    pub closed spec fn planned(&self) -> Seq<MoveEntry> {
        self.plan@
    }

    pub closed spec fn is_dry_run(&self) -> bool {
        self.dry_run
    }

    /// How many entries of the plan have been dealt with.
    pub closed spec fn position(&self) -> nat {
        self.next as nat
    }

    pub closed spec fn is_cancelled(&self) -> bool {
        self.cancelled
    }

    /// The outcomes so far, one for each entry dealt with.
    pub closed spec fn outcomes_so_far(&self) -> Seq<MoveOutcome> {
        self.outcomes@
    }

    /// Whether a move is waiting to be made.
    pub open spec fn has_pending(&self) -> bool {
        !self.is_cancelled() && self.position() < self.planned().len()
    }

    /// The executor's invariant: one outcome for each entry dealt with, in
    /// plan order; a dry run has dealt with all of them, each as a move that
    /// would be made, and a real run records only moves made or failed.
    pub open spec fn wf(&self) -> bool {
        &&& self.position() <= self.planned().len()
        &&& self.outcomes_so_far().len() == self.position()
        &&& forall|i: int|
            0 <= i < self.position() ==> outcome_of(
                #[trigger] self.outcomes_so_far()[i],
                self.planned()[i],
            )
        &&& self.is_dry_run() ==> self.position() == self.planned().len() && forall|i: int|
            0 <= i < self.position() ==> (#[trigger] self.outcomes_so_far()[i]).status
                is WouldMove
        &&& !self.is_dry_run() ==> forall|i: int|
            0 <= i < self.position() ==> !((#[trigger] self.outcomes_so_far()[i]).status
                is WouldMove)
    }

    /// Starts on `plan`. A dry run is complete at once: every entry is
    /// reported as a move that would be made and none is handed out.
    /// Otherwise nothing has been done yet.
    pub fn new(plan: Vec<MoveEntry>, dry_run: bool) -> (r: MoveExecutor)
        ensures
            r.wf(),
            r.planned() == plan@,
            r.is_dry_run() == dry_run,
            !r.is_cancelled(),
            dry_run ==> r.position() == plan@.len(),
            !dry_run ==> r.position() == 0,
    {
        let mut outcomes: Vec<MoveOutcome> = Vec::new();
        let mut next: usize = 0;
        if dry_run {
            while next < plan.len()
                invariant
                    next <= plan@.len(),
                    outcomes@.len() == next,
                    forall|i: int|
                        0 <= i < next ==> outcome_of(#[trigger] outcomes@[i], plan@[i])
                            && outcomes@[i].status is WouldMove,
                decreases plan@.len() - next,
            {
                let entry = plan[next].duplicate();
                outcomes.push(
                    MoveOutcome { from: entry.from, to: entry.to, status: MoveStatus::WouldMove },
                );
                next = next + 1;
            }
        }
        MoveExecutor { plan, dry_run, next, cancelled: false, outcomes }
    }

    /// Whether the caller should ask for confirmation before the first
    /// move: a real run with moves to make and none made yet.
    pub fn needs_confirmation(&self) -> (r: bool)
        ensures
            r == (!self.is_dry_run() && !self.is_cancelled() && self.position() == 0
                && self.planned().len() > 0),
    {
        !self.dry_run && !self.cancelled && self.next == 0 && self.plan.len() > 0
    }

    /// The next move to make, if any.
    pub fn next_move(&self) -> (r: Option<MoveEntry>)
        requires
            self.wf(),
        ensures
            self.has_pending() ==> r == Some(self.planned()[self.position() as int]),
            !self.has_pending() ==> r is None,
    {
        if !self.cancelled && self.next < self.plan.len() {
            Some(self.plan[self.next].duplicate())
        } else {
            None
        }
    }

    /// Records how the pending move went (`Err` with the reason where it
    /// failed) and goes on to the next one.
    pub fn record(&mut self, result: Result<(), String>)
        requires
            old(self).wf(),
            old(self).has_pending(),
        ensures
            final(self).wf(),
            final(self).planned() == old(self).planned(),
            final(self).is_dry_run() == old(self).is_dry_run(),
            final(self).is_cancelled() == old(self).is_cancelled(),
            final(self).position() == old(self).position() + 1,
            final(self).outcomes_so_far().drop_last() == old(self).outcomes_so_far(),
            match result {
                Ok(_) => final(self).outcomes_so_far().last().status is Moved,
                Err(why) => final(self).outcomes_so_far().last().status == MoveStatus::Failed(
                    why,
                ),
            },
    {
        let at = self.next;
        let len = self.plan.len();
        assert(at < len);
        let entry = self.plan[at].duplicate();
        let status = match result {
            Ok(_) => MoveStatus::Moved,
            Err(why) => MoveStatus::Failed(why),
        };
        let ghost before = self.outcomes@;
        self.outcomes.push(MoveOutcome { from: entry.from, to: entry.to, status });
        self.next = at + 1;
        assert(self.outcomes@.drop_last() =~= before);
    }

    /// Calls off the moves not yet made; those already made stay made.
    pub fn cancel(&mut self)
        requires
            old(self).wf(),
        ensures
            final(self).wf(),
            final(self).is_cancelled(),
            final(self).planned() == old(self).planned(),
            final(self).is_dry_run() == old(self).is_dry_run(),
            final(self).position() == old(self).position(),
            final(self).outcomes_so_far() == old(self).outcomes_so_far(),
    {
        self.cancelled = true;
    }

    /// Whether no move is waiting any more.
    pub fn is_finished(&self) -> (r: bool)
        ensures
            r == !self.has_pending(),
    {
        self.cancelled || self.next >= self.plan.len()
    }

    /// A dry run never has a move waiting to be made: whatever state it is
    /// in, nothing is handed out to be performed.
    pub proof fn dry_run_moves_nothing(&self)
        requires
            self.wf(),
            self.is_dry_run(),
        ensures
            !self.has_pending(),
            forall|i: int|
                0 <= i < self.outcomes_so_far().len() ==> (
                #[trigger] self.outcomes_so_far()[i]).status is WouldMove,
    {
    }

    /// The report of the run, once no move is waiting any more.
    pub fn finish(self) -> (r: ExecutionReport)
        requires
            self.wf(),
            !self.has_pending(),
        ensures
            r.outcomes@ == self.outcomes_so_far(),
            r.cancelled == self.is_cancelled(),
    {
        ExecutionReport { outcomes: self.outcomes, cancelled: self.cancelled }
    }
}

} // verus!
