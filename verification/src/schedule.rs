//! The order of work in one training run: which chunk is descended on next,
//! and when progress is reported.
//!
//! A `Schedule` is a small state machine. Its driver asks for the next
//! `Action`, performs it on the model it owns, and asks again until the
//! schedule is finished. The schedule never sees the model, so reporting
//! cannot change what the model is trained on.

use crate::chunks::{
    chunk_count, chunk_end, chunk_range, chunk_start, chunk_total, lemma_chunk_shape,
};
use vstd::prelude::*;

verus! {

/// While reporting, progress is shown after every this many descents.
pub const REPORT_INTERVAL: usize = 500;

/// The chunk size that a run uses unless it is told another.
pub const DEFAULT_CHUNK_SIZE: usize = 10;

/// Where a run stands between two actions.
#[derive(Clone, Copy, Debug, PartialEq, Eq, Structural)]
pub enum Phase {
    /// Nothing has happened yet.
    Opening,
    /// The next chunk, if there is one, is due.
    Ready,
    /// A chunk was just descended on; a periodic report may be due.
    Stepped,
    /// The run is over.
    Done,
}

/// What the driver of a run does next.
#[derive(Clone, Copy, Debug, PartialEq, Eq, Structural)]
pub enum Action {
    /// Show progress: `step` of `total` chunks are behind us. With `redraw`
    /// the report replaces the one before it.
    Report { step: usize, total: usize, redraw: bool },
    /// Take one gradient step on the samples at positions `start..end`.
    Descend { start: usize, end: usize },
    /// Nothing is left to do.
    Finished,
}

/// An `Action` over unbounded numbers.
pub enum Step {
    Report { step: nat, total: nat, redraw: bool },
    Descend { start: nat, end: nat },
    Finished,
}

impl View for Action {
    type V = Step;

    open spec fn view(&self) -> Step {
        match *self {
            Action::Report { step, total, redraw } => Step::Report {
                step: step as nat,
                total: total as nat,
                redraw,
            },
            Action::Descend { start, end } => Step::Descend { start: start as nat, end: end as nat },
            Action::Finished => Step::Finished,
        }
    }
}

/// The state of a run: the data's length, the chunk size, whether progress
/// is reported, how many chunks have been descended on, and the phase.
pub struct Plan {
    pub len: nat,
    pub chunk_size: nat,
    pub verbose: bool,
    pub done: nat,
    pub phase: Phase,
}

impl Plan {
    /// Number of chunks in the whole run.
    pub open spec fn total(self) -> nat {
        chunk_total(self.len, self.chunk_size)
    }

    /// The states that a run can be in.
    pub open spec fn wf(self) -> bool {
        &&& self.chunk_size > 0
        &&& self.done <= self.total()
        &&& (self.phase == Phase::Opening ==> self.done == 0)
        &&& (self.phase == Phase::Stepped ==> self.done >= 1)
        &&& (self.phase == Phase::Done ==> self.done == self.total())
    }

    /// The state in which every run starts.
    pub open spec fn initial(len: nat, chunk_size: nat, verbose: bool) -> Plan {
        Plan { len, chunk_size, verbose, done: 0, phase: Phase::Opening }
    }

    /// Whether a report comes before anything else: at the opening of a
    /// reporting run, and after each descent that completes a full interval.
    pub open spec fn report_due(self) -> bool {
        self.verbose && (self.phase == Phase::Opening || (self.phase == Phase::Stepped && self.done
            % (REPORT_INTERVAL as nat) == 0))
    }

    /// One transition: the state after the next action, and that action.
    ///
    /// A finished run stays finished. A due report is made first. Otherwise
    /// the next chunk is descended on; when none is left the run closes, with
    /// a last report if it reports at all.
    pub open spec fn advance(self) -> (Plan, Step) {
        if self.phase == Phase::Done {
            (self, Step::Finished)
        } else if self.report_due() {
            (
                Plan { phase: Phase::Ready, ..self },
                Step::Report {
                    step: self.done,
                    total: self.total(),
                    redraw: self.phase != Phase::Opening,
                },
            )
        } else if self.done < self.total() {
            (
                Plan { phase: Phase::Stepped, done: self.done + 1, ..self },
                Step::Descend {
                    start: chunk_start(self.chunk_size, self.done),
                    end: chunk_end(self.len, self.chunk_size, self.done),
                },
            )
        } else if self.verbose {
            (
                Plan { phase: Phase::Done, ..self },
                Step::Report { step: self.done, total: self.total(), redraw: true },
            )
        } else {
            (Plan { phase: Phase::Done, ..self }, Step::Finished)
        }
    }

    /// An upper bound on the number of actions before the run is finished.
    pub open spec fn remaining(self) -> nat {
        let ahead = (self.total() - self.done) as nat;
        match self.phase {
            Phase::Opening => 2 * ahead + 3,
            Phase::Stepped => 2 * ahead + 2,
            Phase::Ready => 2 * ahead + 1,
            Phase::Done => 0,
        }
    }

    /// The ranges that are descended on from this state to the end of the
    /// run, in the order of the descents.
    pub open spec fn descents(self) -> Seq<(nat, nat)>
        decreases self.remaining(),
        when self.wf()
    {
        if self.phase == Phase::Done {
            Seq::empty()
        } else {
            let (next, step) = self.advance();
            match step {
                Step::Descend { start, end } => seq![(start, end)] + next.descents(),
                _ => next.descents(),
            }
        }
    }

    /// The chunks that no descent has used yet, in the order of the data.
    pub open spec fn chunks_ahead(self) -> Seq<(nat, nat)> {
        Seq::new(
            (self.total() - self.done) as nat,
            |i: int|
                (
                    chunk_start(self.chunk_size, (self.done + i) as nat),
                    chunk_end(self.len, self.chunk_size, (self.done + i) as nat),
                ),
        )
    }
}

/// A transition leads from a state of a run to a state of the same run, and
/// brings an unfinished run closer to its end.
pub proof fn lemma_advance_makes_progress(s: Plan)
    requires
        s.wf(),
    ensures
        s.advance().0.wf(),
        s.advance().0.len == s.len,
        s.advance().0.chunk_size == s.chunk_size,
        s.advance().0.verbose == s.verbose,
        s.phase != Phase::Done ==> s.advance().0.remaining() < s.remaining(),
        s.phase == Phase::Done ==> s.advance() == (s, Step::Finished),
{
}

/// A descent takes the first chunk that is still ahead and nothing else
/// does: a report leaves the count of used chunks as it was, and the run
/// finishes only when every chunk has been used.
pub proof fn lemma_descents_use_chunks_in_order(s: Plan)
    requires
        s.wf(),
    ensures
        match s.advance().1 {
            Step::Descend { start, end } => {
                &&& s.done < s.total()
                &&& start == chunk_start(s.chunk_size, s.done)
                &&& end == chunk_end(s.len, s.chunk_size, s.done)
                &&& start < end <= s.len
                &&& s.advance().0.done == s.done + 1
            },
            Step::Report { .. } => s.advance().0.done == s.done,
            Step::Finished => s.done == s.total() && s.advance().0.done == s.done,
        },
{
    if s.done < s.total() {
        lemma_chunk_shape(s.len, s.chunk_size, s.done);
    }
}

/// Progress is reported only by a reporting run, and then only before the
/// first descent, after a descent that completes a full interval, or when
/// every chunk has been used. Each report gives the number of chunks used so
/// far and the number of chunks in the run.
pub proof fn lemma_report_cadence(s: Plan)
    requires
        s.wf(),
    ensures
        match s.advance().1 {
            Step::Report { step, total, redraw } => {
                &&& s.verbose
                &&& step == s.done
                &&& total == s.total()
                &&& (step == 0 || step % (REPORT_INTERVAL as nat) == 0 || step == total)
                &&& (redraw <==> s.phase != Phase::Opening)
            },
            _ => true,
        },
{
}

/// From any state of a run, the descents still to come are exactly the
/// chunks still ahead, each once and in the order of the data.
pub proof fn lemma_descents_are_chunks_ahead(s: Plan)
    requires
        s.wf(),
    ensures
        s.descents() == s.chunks_ahead(),
    decreases s.remaining(),
{
    if s.phase == Phase::Done {
        assert(s.descents() =~= s.chunks_ahead());
    } else {
        let (next, step) = s.advance();
        lemma_advance_makes_progress(s);
        lemma_descents_are_chunks_ahead(next);
        match step {
            Step::Descend { start, end } => {
                assert(s.chunks_ahead() =~= seq![(start, end)] + next.chunks_ahead());
            },
            _ => {
                assert(s.chunks_ahead() =~= next.chunks_ahead());
            },
        }
    }
}

/// A whole run descends on every chunk of the data once, in order.
pub proof fn lemma_run_covers_data(len: nat, chunk_size: nat, verbose: bool)
    requires
        chunk_size > 0,
    ensures
        Plan::initial(len, chunk_size, verbose).descents() == Seq::new(
            chunk_total(len, chunk_size),
            |i: int| (chunk_start(chunk_size, i as nat), chunk_end(len, chunk_size, i as nat)),
        ),
{
    let s = Plan::initial(len, chunk_size, verbose);
    lemma_descents_are_chunks_ahead(s);
    assert(s.chunks_ahead() =~= Seq::new(
        chunk_total(len, chunk_size),
        |i: int| (chunk_start(chunk_size, i as nat), chunk_end(len, chunk_size, i as nat)),
    ));
}

/// Reporting changes nothing in what a run descends on.
pub proof fn lemma_reporting_keeps_descents(len: nat, chunk_size: nat)
    requires
        chunk_size > 0,
    ensures
        Plan::initial(len, chunk_size, true).descents() == Plan::initial(
            len,
            chunk_size,
            false,
        ).descents(),
{
    lemma_run_covers_data(len, chunk_size, true);
    lemma_run_covers_data(len, chunk_size, false);
}

/// A run over no data descends nowhere, so it leaves a model as it was.
pub proof fn lemma_empty_run_has_no_descent(chunk_size: nat, verbose: bool)
    requires
        chunk_size > 0,
    ensures
        Plan::initial(0, chunk_size, verbose).descents() == Seq::<(nat, nat)>::empty(),
{
    lemma_run_covers_data(0, chunk_size, verbose);
    crate::chunks::lemma_no_chunks_iff_empty(0, chunk_size);
    assert(Plan::initial(0, chunk_size, verbose).descents() =~= Seq::<(nat, nat)>::empty());
}

/// A training run's schedule over `len` samples in chunks of `chunk_size`.
pub struct Schedule {
    len: usize,
    chunk_size: usize,
    verbose: bool,
    done: usize,
    phase: Phase,
}

impl View for Schedule {
    type V = Plan;

    closed spec fn view(&self) -> Plan {
        Plan {
            len: self.len as nat,
            chunk_size: self.chunk_size as nat,
            verbose: self.verbose,
            done: self.done as nat,
            phase: self.phase,
        }
    }
}

impl Schedule {
    #[verifier::type_invariant]
    spec fn inv(self) -> bool {
        self@.wf()
    }

    /// Plans a run. A chunk size of zero is rejected with `None`.
    pub fn new(len: usize, chunk_size: usize, verbose: bool) -> (r: Option<Schedule>)
        ensures
            r is None <==> chunk_size == 0,
            r is Some ==> r.unwrap()@ == Plan::initial(len as nat, chunk_size as nat, verbose),
    {
        if chunk_size == 0 {
            None
        } else {
            Some(Schedule { len, chunk_size, verbose, done: 0, phase: Phase::Opening })
        }
    }

    /// Hands out the next action and moves the schedule past it.
    pub fn next_action(&mut self) -> (action: Action)
        ensures
            final(self)@.wf(),
            (final(self)@, action@) == old(self)@.advance(),
            action matches Action::Descend { start, end } ==> start < end <= old(self)@.len && end
                - start <= old(self)@.chunk_size,
    {
        proof {
            use_type_invariant(&*self);
            if self@.done < self@.total() {
                lemma_chunk_shape(self@.len, self@.chunk_size, self@.done);
            }
        }
        let total: usize = chunk_count(self.len, self.chunk_size);
        let report_due: bool = self.verbose && match self.phase {
            Phase::Opening => true,
            Phase::Stepped => self.done % REPORT_INTERVAL == 0,
            _ => false,
        };
        match self.phase {
            Phase::Done => {
                return Action::Finished;
            },
            _ => {},
        }
        if report_due {
            let redraw: bool = match self.phase {
                Phase::Opening => false,
                _ => true,
            };
            self.phase = Phase::Ready;
            return Action::Report { step: self.done, total, redraw };
        }
        match chunk_range(self.len, self.chunk_size, self.done) {
            Some((start, end)) => {
                *self = Schedule {
                    len: self.len,
                    chunk_size: self.chunk_size,
                    verbose: self.verbose,
                    done: self.done + 1,
                    phase: Phase::Stepped,
                };
                Action::Descend { start, end }
            },
            None => {
                self.phase = Phase::Done;
                if self.verbose {
                    Action::Report { step: self.done, total, redraw: true }
                } else {
                    Action::Finished
                }
            },
        }
    }
}

} // verus!
