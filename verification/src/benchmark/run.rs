//! One measured run against a backend, step by step.
//!
//! The run itself does nothing to the outside world. It tells its caller
//! which step to perform next, is told whether that step went well, and
//! decides from there: an optional index first, then the sampling window,
//! then the interleaved operations, and the window's end on every path that
//! opened it, whether the operations went through or one of them failed.

use vstd::prelude::*;
use crate::benchmark::schedule::Operation;
use crate::benchmark::schedule::Schedule;
use crate::benchmark::schedule::WorkloadShape;
use crate::benchmark::schedule::planned;
use crate::error::WorkloadError;

verus! {

/// Something for the caller to do.
#[derive(Clone, Copy, Debug, PartialEq, Eq, Structural)]
pub enum Step {
    /// Create the secondary index of the backend.
    CreateIndex,
    /// Start the sampling process for this run.
    OpenWindow,
    /// Send one operation to the backend.
    Issue(Operation),
    /// Stop the sampling process and wait until it has gone.
    CloseWindow,
}

/// How a run ended.
#[derive(Clone, Copy, Debug, PartialEq, Eq, Structural)]
pub enum Outcome {
    /// Every operation went through and the window was closed.
    Completed,
    /// The backend was not connected: nothing was done.
    Skipped,
    /// This step failed, and the run ended there.
    Failed(Step),
}

/// What the run asks of its caller.
#[derive(Clone, Copy, Debug, PartialEq, Eq, Structural)]
pub enum Directive {
    /// Perform the step, and report how it went.
    Perform(Step),
    /// The run is over.
    Finish(Outcome),
}

/// Where a run stands: which step it has asked for and not heard of yet.
#[derive(Clone, Copy, Debug, PartialEq, Eq, Structural)]
pub enum Phase {
    /// Nothing has been asked for yet.
    Ready,
    /// The index is being created.
    Indexing,
    /// The sampling process is being started.
    Opening,
    /// This operation is on its way.
    Running(Operation),
    /// The sampling process is being stopped; the run will end with the
    /// outcome held here.
    Closing(Outcome),
    /// The run is over.
    Finished(Outcome),
}

/// A run as the proofs see it.
pub struct RunModel {
    /// Where the run stands.
    pub phase: Phase,
    /// A sampling process was started for this run, and the caller has not
    /// been through stopping it yet.
    pub owes_close: bool,
    /// Whether the backend is connected.
    pub connected: bool,
    /// Whether the index is to be created first.
    pub use_index: bool,
    /// The operations that have not been asked for yet.
    pub pending: Seq<Operation>,
}

impl RunModel {
    /// A run before its first step.
    pub open spec fn initial(connected: bool, use_index: bool, pending: Seq<Operation>) -> RunModel {
        RunModel { phase: Phase::Ready, owes_close: false, connected, use_index, pending }
    }

    /// The run ends here.
    pub open spec fn finish(self, outcome: Outcome) -> (RunModel, Directive) {
        (RunModel { phase: Phase::Finished(outcome), ..self }, Directive::Finish(outcome))
    }

    /// With the window open: the next operation, or the end of the window
    /// once there is none left.
    pub open spec fn proceed(self) -> (RunModel, Directive) {
        if self.pending.len() > 0 {
            (
                RunModel {
                    phase: Phase::Running(self.pending[0]),
                    pending: self.pending.skip(1),
                    ..self
                },
                Directive::Perform(Step::Issue(self.pending[0])),
            )
        } else {
            (
                RunModel { phase: Phase::Closing(Outcome::Completed), ..self },
                Directive::Perform(Step::CloseWindow),
            )
        }
    }

    /// What the run does on hearing that the step it asked for went well
    /// (`ok`) or failed. The first call, before any step, disregards `ok`.
    ///
    /// A failed index or a failed start of the sampling process ends the run
    /// at once. A failed operation ends it too, but through closing the
    /// window first. A window that could not be closed is reported only
    /// where nothing had failed before.
    pub open spec fn step(self, ok: bool) -> (RunModel, Directive) {
        match self.phase {
            Phase::Ready => {
                if !self.connected {
                    self.finish(Outcome::Skipped)
                } else if self.use_index {
                    (RunModel { phase: Phase::Indexing, ..self }, Directive::Perform(Step::CreateIndex))
                } else {
                    (RunModel { phase: Phase::Opening, ..self }, Directive::Perform(Step::OpenWindow))
                }
            },
            Phase::Indexing => {
                if ok {
                    (RunModel { phase: Phase::Opening, ..self }, Directive::Perform(Step::OpenWindow))
                } else {
                    self.finish(Outcome::Failed(Step::CreateIndex))
                }
            },
            Phase::Opening => {
                if ok {
                    (RunModel { owes_close: true, ..self }).proceed()
                } else {
                    self.finish(Outcome::Failed(Step::OpenWindow))
                }
            },
            Phase::Running(op) => {
                if ok {
                    self.proceed()
                } else {
                    (
                        RunModel {
                            phase: Phase::Closing(Outcome::Failed(Step::Issue(op))),
                            ..self
                        },
                        Directive::Perform(Step::CloseWindow),
                    )
                }
            },
            Phase::Closing(outcome) => {
                let closed = RunModel { owes_close: false, ..self };
                if ok || outcome != Outcome::Completed {
                    closed.finish(outcome)
                } else {
                    closed.finish(Outcome::Failed(Step::CloseWindow))
                }
            },
            Phase::Finished(outcome) => (self, Directive::Finish(outcome)),
        }
    }

    /// The window is owed its end exactly while operations are running or
    /// the window is being closed.
    pub open spec fn consistent(self) -> bool {
        self.owes_close <==> (self.phase is Running || self.phase is Closing)
    }

    /// The run after it has heard `reports`, one per call.
    pub open spec fn after(self, reports: Seq<bool>) -> RunModel
        decreases reports.len(),
    {
        if reports.len() == 0 {
            self
        } else {
            self.after(reports.drop_last()).step(reports.last()).0
        }
    }

    /// What the run has asked for while hearing `reports`, one directive per
    /// call.
    pub open spec fn directives(self, reports: Seq<bool>) -> Seq<Directive>
        decreases reports.len(),
    {
        if reports.len() == 0 {
            Seq::empty()
        } else {
            self.directives(reports.drop_last()).push(
                self.after(reports.drop_last()).step(reports.last()).1,
            )
        }
    }
}

/// A run against one backend.
#[derive(Debug)]
pub struct WorkloadRun {
    phase: Phase,
    owes_close: bool,
    connected: bool,
    use_index: bool,
    schedule: Schedule,
}

impl View for WorkloadRun {
    type V = RunModel;

    closed spec fn view(&self) -> RunModel {
        RunModel {
            phase: self.phase,
            owes_close: self.owes_close,
            connected: self.connected,
            use_index: self.use_index,
            pending: self.schedule.remaining(),
        }
    }
}

impl WorkloadRun {
    /// The run is in a state that its own steps lead to.
    pub closed spec fn wf(&self) -> bool {
        self.schedule.wf() && self@.consistent()
    }

    /// Prepares a run. A depth of zero and a ratio without denominator are
    /// refused here, before any step is asked for.
    pub fn plan(
        connected: bool,
        depth: u8,
        num_reads: usize,
        num_writes: usize,
        use_index: bool,
    ) -> (r: Result<WorkloadRun, WorkloadError>)
        ensures
            prepared(r, connected, depth, num_reads, num_writes, use_index),
    {
        if depth == 0 {
            return Err(WorkloadError::InvalidDepth);
        }
        match Schedule::new(num_reads, num_writes) {
            Ok(schedule) => Ok(
                WorkloadRun { phase: Phase::Ready, owes_close: false, connected, use_index, schedule },
            ),
            Err(e) => Err(e),
        }
    }

    /// Takes the report on the step that was asked for last and says what
    /// comes next. The first call, before any step, disregards `ok`.
    pub fn advance(&mut self, ok: bool) -> (d: Directive)
        requires
            old(self).wf(),
        ensures
            final(self).wf(),
            final(self)@ == old(self)@.step(ok).0,
            d == old(self)@.step(ok).1,
    {
        match self.phase {
            Phase::Ready => {
                if !self.connected {
                    self.phase = Phase::Finished(Outcome::Skipped);
                    Directive::Finish(Outcome::Skipped)
                } else if self.use_index {
                    self.phase = Phase::Indexing;
                    Directive::Perform(Step::CreateIndex)
                } else {
                    self.phase = Phase::Opening;
                    Directive::Perform(Step::OpenWindow)
                }
            },
            Phase::Indexing => {
                if ok {
                    self.phase = Phase::Opening;
                    Directive::Perform(Step::OpenWindow)
                } else {
                    self.phase = Phase::Finished(Outcome::Failed(Step::CreateIndex));
                    Directive::Finish(Outcome::Failed(Step::CreateIndex))
                }
            },
            Phase::Opening => {
                if ok {
                    self.owes_close = true;
                    self.proceed()
                } else {
                    self.phase = Phase::Finished(Outcome::Failed(Step::OpenWindow));
                    Directive::Finish(Outcome::Failed(Step::OpenWindow))
                }
            },
            Phase::Running(op) => {
                if ok {
                    self.proceed()
                } else {
                    self.phase = Phase::Closing(Outcome::Failed(Step::Issue(op)));
                    Directive::Perform(Step::CloseWindow)
                }
            },
            Phase::Closing(outcome) => {
                let reported = match outcome {
                    Outcome::Completed => if ok {
                        Outcome::Completed
                    } else {
                        Outcome::Failed(Step::CloseWindow)
                    },
                    other => other,
                };
                self.owes_close = false;
                self.phase = Phase::Finished(reported);
                Directive::Finish(reported)
            },
            Phase::Finished(outcome) => Directive::Finish(outcome),
        }
    }

    fn proceed(&mut self) -> (d: Directive)
        requires
            old(self).schedule.wf(),
            old(self).owes_close,
        ensures
            final(self).wf(),
            final(self)@ == old(self)@.proceed().0,
            d == old(self)@.proceed().1,
    {
        match self.schedule.next() {
            Some(op) => {
                self.phase = Phase::Running(op);
                Directive::Perform(Step::Issue(op))
            },
            None => {
                self.phase = Phase::Closing(Outcome::Completed);
                Directive::Perform(Step::CloseWindow)
            },
        }
    }

    /// Whether a sampling process was started for this run and has not been
    /// stopped yet.
    pub fn owes_close(&self) -> (owed: bool)
        ensures
            owed == self@.owes_close,
    {
        self.owes_close
    }

    /// Whether the run is over.
    pub fn is_finished(&self) -> (over: bool)
        ensures
            over == (self@.phase is Finished),
    {
        match self.phase {
            Phase::Finished(_) => true,
            _ => false,
        }
    }
}

/// What preparing a run comes to. A depth of zero is refused first, then a
/// ratio whose denominator is zero. Every other request gives a run that has
/// asked for nothing yet and has the whole workload before it.
pub open spec fn prepared(
    r: Result<WorkloadRun, WorkloadError>,
    connected: bool,
    depth: u8,
    num_reads: usize,
    num_writes: usize,
    use_index: bool,
) -> bool {
    let rounds = WorkloadShape::of(num_reads as nat, num_writes as nat).rounds(
        num_reads as nat,
        num_writes as nat,
    );
    match r {
        Ok(run) => {
            &&& depth >= 1
            &&& rounds > 0
            &&& run.wf()
            &&& run@ == RunModel::initial(
                connected,
                use_index,
                planned(num_reads as nat, num_writes as nat),
            )
        },
        Err(e) => {
            if depth == 0 {
                e == WorkloadError::InvalidDepth
            } else {
                e == WorkloadError::ZeroDenominator && rounds == 0
            }
        },
    }
}

/// No step of a run loses track of the window: after it, the window is owed
/// its end exactly while operations are running or the window is being
/// closed, as before it.
pub proof fn lemma_step_keeps_account(m: RunModel, ok: bool)
    requires
        m.consistent(),
    ensures
        m.step(ok).0.consistent(),
        m.step(ok).1 is Finish ==> !m.step(ok).0.owes_close && m.step(ok).0.phase is Finished,
{
}

/// Whatever is reported to a run, and for however long: once it is over, no
/// sampling process that it started is left running unattended. Each window
/// that was opened has been through its closing step by then.
pub proof fn lemma_window_always_closed(m: RunModel, reports: Seq<bool>)
    requires
        m.phase is Ready,
        !m.owes_close,
    ensures
        m.after(reports).consistent(),
        m.after(reports).phase is Finished ==> !m.after(reports).owes_close,
    decreases reports.len(),
{
    if reports.len() > 0 {
        lemma_window_always_closed(m, reports.drop_last());
        lemma_step_keeps_account(m.after(reports.drop_last()), reports.last());
    }
}

/// A run that is over stays over, with the outcome it had.
pub proof fn lemma_finished_is_final(m: RunModel, ok: bool)
    requires
        m.phase is Finished,
    ensures
        m.step(ok).0 == m,
        m.step(ok).1 == Directive::Finish(m.phase->Finished_0),
{
}

/// `n` reports that all went well.
pub open spec fn all_well(n: nat) -> Seq<bool> {
    Seq::new(n, |i: int| true)
}

/// The requests for `ops`, one after the other.
pub open spec fn issued(ops: Seq<Operation>) -> Seq<Directive> {
    Seq::new(ops.len(), |i: int| Directive::Perform(Step::Issue(ops[i])))
}

/// What comes before the first operation: the index if it is asked for, and
/// the start of the sampling process.
pub open spec fn lead_in(use_index: bool) -> Seq<Directive> {
    if use_index {
        seq![Directive::Perform(Step::CreateIndex), Directive::Perform(Step::OpenWindow)]
    } else {
        seq![Directive::Perform(Step::OpenWindow)]
    }
}

/// Everything that a run asks for when every step goes well.
pub open spec fn smooth(use_index: bool, ops: Seq<Operation>) -> Seq<Directive> {
    lead_in(use_index) + issued(ops) + seq![
        Directive::Perform(Step::CloseWindow),
        Directive::Finish(Outcome::Completed),
    ]
}

/// Hearing one more report is taking one more step.
pub proof fn lemma_hear(m: RunModel, reports: Seq<bool>, ok: bool)
    ensures
        m.after(reports.push(ok)) == m.after(reports).step(ok).0,
        m.directives(reports.push(ok)) == m.directives(reports).push(m.after(reports).step(ok).1),
{
    assert(reports.push(ok).drop_last() =~= reports);
}

proof fn lemma_hear_well(m: RunModel, n: nat)
    ensures
        m.after(all_well(n + 1)) == m.after(all_well(n)).step(true).0,
        m.directives(all_well(n + 1)) == m.directives(all_well(n)).push(
            m.after(all_well(n)).step(true).1,
        ),
{
    assert(all_well(n + 1) =~= all_well(n).push(true));
    lemma_hear(m, all_well(n), true);
}

proof fn lemma_smooth_prefix(use_index: bool, ops: Seq<Operation>, j: nat)
    requires
        j <= ops.len(),
    ensures
        ({
            let m = RunModel::initial(true, use_index, ops);
            let heard = all_well(lead_in(use_index).len() + j);
            let now = m.after(heard);
            &&& m.directives(heard) == lead_in(use_index) + issued(ops.take(j as int))
            &&& now.pending == ops.skip(j as int)
            &&& now.connected
            &&& now.use_index == use_index
            &&& if j == 0 {
                now.phase == Phase::Opening && !now.owes_close
            } else {
                now.phase == Phase::Running(ops[j - 1]) && now.owes_close
            }
        }),
    decreases j,
{
    let m = RunModel::initial(true, use_index, ops);
    let lead = lead_in(use_index).len();
    if j == 0 {
        assert(all_well(0) =~= Seq::<bool>::empty());
        lemma_hear_well(m, 0);
        if use_index {
            lemma_hear_well(m, 1);
        }
        assert(ops.skip(0) =~= ops);
        assert(m.directives(all_well(lead)) =~= lead_in(use_index) + issued(ops.take(0)));
    } else {
        lemma_smooth_prefix(use_index, ops, (j - 1) as nat);
        lemma_hear_well(m, lead + (j - 1) as nat);
        let before = m.after(all_well(lead + (j - 1) as nat));
        assert(before.pending[0] == ops[j - 1]);
        assert(ops.skip(j - 1).skip(1) =~= ops.skip(j as int));
        assert(issued(ops.take(j - 1)).push(Directive::Perform(Step::Issue(ops[j - 1])))
            =~= issued(ops.take(j as int)));
        assert(m.directives(all_well(lead + j)) =~= lead_in(use_index) + issued(
            ops.take(j as int),
        ));
    }
}

/// Where the backend is connected and every step goes well, a run asks for
/// the index if it is wanted, opens the window, issues exactly the planned
/// operations in their order, closes the window and ends as completed.
pub proof fn lemma_smooth_run(use_index: bool, ops: Seq<Operation>)
    ensures
        RunModel::initial(true, use_index, ops).directives(
            all_well(smooth(use_index, ops).len()),
        ) == smooth(use_index, ops),
{
    let m = RunModel::initial(true, use_index, ops);
    let n = lead_in(use_index).len() + ops.len();
    lemma_smooth_prefix(use_index, ops, ops.len());
    lemma_hear_well(m, n);
    lemma_hear_well(m, n + 1);
    assert(ops.take(ops.len() as int) =~= ops);
    assert(ops.skip(ops.len() as int) =~= Seq::<Operation>::empty());
    assert(m.directives(all_well(n + 2)) =~= smooth(use_index, ops));
}

/// Where an operation fails, the run asks for nothing more of the backend:
/// it has the window closed and ends with that operation as the failure,
/// whether or not the window could be closed.
pub proof fn lemma_failed_operation_ends_the_run(
    use_index: bool,
    ops: Seq<Operation>,
    j: nat,
    closed: bool,
)
    requires
        j < ops.len(),
    ensures
        RunModel::initial(true, use_index, ops).directives(
            all_well(lead_in(use_index).len() + j + 1).push(false).push(closed),
        ) == lead_in(use_index) + issued(ops.take(j as int + 1)) + seq![
            Directive::Perform(Step::CloseWindow),
            Directive::Finish(Outcome::Failed(Step::Issue(ops[j as int]))),
        ],
{
    let m = RunModel::initial(true, use_index, ops);
    let heard = all_well(lead_in(use_index).len() + j + 1);
    lemma_smooth_prefix(use_index, ops, j + 1);
    lemma_hear(m, heard, false);
    lemma_hear(m, heard.push(false), closed);
    assert(m.directives(heard.push(false).push(closed)) =~= lead_in(use_index) + issued(
        ops.take(j as int + 1),
    ) + seq![
        Directive::Perform(Step::CloseWindow),
        Directive::Finish(Outcome::Failed(Step::Issue(ops[j as int]))),
    ]);
}

} // verus!
