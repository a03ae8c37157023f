//! The order in which reads and writes are issued.
//!
//! A workload is a number of rounds. Each round issues the dominant operation
//! a fixed number of times and ends with one operation of the other kind. How
//! often the dominant operation runs per round is the requested ratio, cut to
//! a whole number; what the division leaves over is not issued.

use vstd::prelude::*;
use vstd::arithmetic::div_mod::lemma_mod_sub_multiples_vanish;
use vstd::arithmetic::div_mod::lemma_small_mod;
use crate::error::WorkloadError;

verus! {

/// One request to the backend.
#[derive(Clone, Copy, Debug, PartialEq, Eq, Structural)]
pub enum Operation {
    /// Run the prepared read query and drain its result.
    Read,
    /// Run the prepared update on every document that is targetable.
    Write,
}

/// Which of the two operations dominates.
#[derive(Clone, Copy, Debug, PartialEq, Eq, Structural)]
pub enum WorkloadShape {
    /// Many reads to one write.
    ReadHeavy,
    /// Many writes to one read.
    WriteHeavy,
}

impl WorkloadShape {
    /// The shape that a pair of requested counts asks for: read-heavy where
    /// reads outnumber writes, write-heavy otherwise.
    pub open spec fn of(num_reads: nat, num_writes: nat) -> WorkloadShape {
        if num_reads > num_writes {
            WorkloadShape::ReadHeavy
        } else {
            WorkloadShape::WriteHeavy
        }
    }

    /// The operation that fills a round.
    pub open spec fn dominant(self) -> Operation {
        match self {
            WorkloadShape::ReadHeavy => Operation::Read,
            WorkloadShape::WriteHeavy => Operation::Write,
        }
    }

    /// The operation that ends a round.
    pub open spec fn closing(self) -> Operation {
        match self {
            WorkloadShape::ReadHeavy => Operation::Write,
            WorkloadShape::WriteHeavy => Operation::Read,
        }
    }

    /// The number of rounds: the requested count of the closing operation,
    /// which is the denominator of the ratio.
    pub open spec fn rounds(self, num_reads: nat, num_writes: nat) -> nat {
        match self {
            WorkloadShape::ReadHeavy => num_writes,
            WorkloadShape::WriteHeavy => num_reads,
        }
    }

    /// How often the dominant operation runs in each round.
    pub open spec fn per_round(self, num_reads: nat, num_writes: nat) -> nat {
        match self {
            WorkloadShape::ReadHeavy => num_reads / num_writes,
            WorkloadShape::WriteHeavy => num_writes / num_reads,
        }
    }

    /// Chooses the shape for a pair of requested counts.
    pub fn select(num_reads: usize, num_writes: usize) -> (shape: WorkloadShape)
        ensures
            shape == WorkloadShape::of(num_reads as nat, num_writes as nat),
    {
        if num_reads > num_writes {
            WorkloadShape::ReadHeavy
        } else {
            WorkloadShape::WriteHeavy
        }
    }

    /// The operation that fills a round.
    pub fn dominant_operation(&self) -> (op: Operation)
        ensures
            op == self.dominant(),
    {
        match self {
            WorkloadShape::ReadHeavy => Operation::Read,
            WorkloadShape::WriteHeavy => Operation::Write,
        }
    }

    /// The operation that ends a round.
    pub fn closing_operation(&self) -> (op: Operation)
        ensures
            op == self.closing(),
    {
        match self {
            WorkloadShape::ReadHeavy => Operation::Write,
            WorkloadShape::WriteHeavy => Operation::Read,
        }
    }
}

/// `op`, `n` times.
pub open spec fn run_of(op: Operation, n: nat) -> Seq<Operation> {
    Seq::new(n, |i: int| op)
}

/// One round: the dominant operation `per_round` times, then the closing one.
pub open spec fn round(shape: WorkloadShape, per_round: nat) -> Seq<Operation> {
    run_of(shape.dominant(), per_round).push(shape.closing())
}

/// `rounds` rounds, one behind the other.
pub open spec fn interleaved(shape: WorkloadShape, rounds: nat, per_round: nat) -> Seq<Operation>
    decreases rounds,
{
    if rounds == 0 {
        Seq::empty()
    } else {
        round(shape, per_round) + interleaved(shape, (rounds - 1) as nat, per_round)
    }
}

/// Every operation of the workload that a pair of requested counts stands
/// for, in the order of issue.
pub open spec fn planned(num_reads: nat, num_writes: nat) -> Seq<Operation> {
    let shape = WorkloadShape::of(num_reads, num_writes);
    interleaved(
        shape,
        shape.rounds(num_reads, num_writes),
        shape.per_round(num_reads, num_writes),
    )
}

/// How often `op` occurs in `ops`.
pub open spec fn occurrences(ops: Seq<Operation>, op: Operation) -> nat
    decreases ops.len(),
{
    if ops.len() == 0 {
        0
    } else {
        occurrences(ops.drop_last(), op) + if ops.last() == op {
            1nat
        } else {
            0nat
        }
    }
}

/// A position in a workload: how many rounds are over, and how far the
/// current one has come.
#[derive(Debug)]
pub struct Schedule {
    shape: WorkloadShape,
    rounds: usize,
    per_round: usize,
    rounds_done: usize,
    done_in_round: usize,
}

impl Schedule {
    /// The position lies inside the workload, and a finished workload has no
    /// round under way.
    pub closed spec fn wf(&self) -> bool {
        &&& self.rounds_done <= self.rounds
        &&& self.done_in_round <= self.per_round
        &&& self.rounds_done == self.rounds ==> self.done_in_round == 0
    }

    /// The shape of the workload.
    pub closed spec fn shape(&self) -> WorkloadShape {
        self.shape
    }

    /// The operations that are still to be issued, next one first.
    pub closed spec fn remaining(&self) -> Seq<Operation> {
        if self.rounds_done >= self.rounds {
            Seq::empty()
        } else {
            round(self.shape, self.per_round as nat).skip(self.done_in_round as int) + interleaved(
                self.shape,
                (self.rounds - self.rounds_done - 1) as nat,
                self.per_round as nat,
            )
        }
    }

    /// Lays out the workload for the requested counts. The request is refused
    /// where the count of the closing operation, by which the other count is
    /// divided, is zero.
    pub fn new(num_reads: usize, num_writes: usize) -> (r: Result<Schedule, WorkloadError>)
        ensures
            match r {
                Ok(s) => {
                    &&& WorkloadShape::of(num_reads as nat, num_writes as nat).rounds(
                        num_reads as nat,
                        num_writes as nat,
                    ) > 0
                    &&& s.wf()
                    &&& s.shape() == WorkloadShape::of(num_reads as nat, num_writes as nat)
                    &&& s.remaining() == planned(num_reads as nat, num_writes as nat)
                },
                Err(e) => {
                    &&& e == WorkloadError::ZeroDenominator
                    &&& WorkloadShape::of(num_reads as nat, num_writes as nat).rounds(
                        num_reads as nat,
                        num_writes as nat,
                    ) == 0
                },
            },
    {
        let shape = WorkloadShape::select(num_reads, num_writes);
        let (rounds, other): (usize, usize) = match shape {
            WorkloadShape::ReadHeavy => (num_writes, num_reads),
            WorkloadShape::WriteHeavy => (num_reads, num_writes),
        };
        if rounds == 0 {
            return Err(WorkloadError::ZeroDenominator);
        }
        let s = Schedule { shape, rounds, per_round: other / rounds, rounds_done: 0, done_in_round: 0 };
        proof {
            let whole = interleaved(shape, rounds as nat, s.per_round as nat);
            assert(round(shape, s.per_round as nat).skip(0) =~= round(shape, s.per_round as nat));
            assert(s.remaining() =~= whole);
        }
        Ok(s)
    }

    /// Hands out the next operation and moves on; `None` once the workload is
    /// through, after which nothing changes any more.
    pub fn next(&mut self) -> (op: Option<Operation>)
        requires
            old(self).wf(),
        ensures
            final(self).wf(),
            final(self).shape() == old(self).shape(),
            match op {
                Some(o) => {
                    &&& old(self).remaining().len() > 0
                    &&& o == old(self).remaining()[0]
                    &&& final(self).remaining() == old(self).remaining().skip(1)
                },
                None => old(self).remaining().len() == 0 && *final(self) == *old(self),
            },
    {
        if self.rounds_done == self.rounds {
            return None;
        }
        let ghost before = self.remaining();
        let ghost this_round = round(self.shape, self.per_round as nat);
        let ghost rest = interleaved(
            self.shape,
            (self.rounds - self.rounds_done - 1) as nat,
            self.per_round as nat,
        );
        if self.done_in_round < self.per_round {
            self.done_in_round = self.done_in_round + 1;
            proof {
                assert(before[0] == this_round[self.done_in_round - 1]);
                assert(self.remaining() =~= before.skip(1));
            }
            Some(self.shape.dominant_operation())
        } else {
            self.done_in_round = 0;
            self.rounds_done = self.rounds_done + 1;
            proof {
                assert(before[0] == this_round[self.per_round as int]);
                assert(this_round.skip(0) =~= this_round);
                assert(self.remaining() =~= before.skip(1));
            }
            Some(self.shape.closing_operation())
        }
    }

    /// Whether every operation has been handed out.
    pub fn is_done(&self) -> (done: bool)
        requires
            self.wf(),
        ensures
            done == (self.remaining().len() == 0),
    {
        self.rounds_done == self.rounds
    }
}

/// Counting over two sequences laid end to end adds up.
pub proof fn lemma_occurrences_concat(a: Seq<Operation>, b: Seq<Operation>, op: Operation)
    ensures
        occurrences(a + b, op) == occurrences(a, op) + occurrences(b, op),
    decreases b.len(),
{
    if b.len() == 0 {
        assert(a + b =~= a);
    } else {
        lemma_occurrences_concat(a, b.drop_last(), op);
        assert((a + b).drop_last() =~= a + b.drop_last());
    }
}

/// A run of one operation holds that operation as often as it is long, and
/// no other.
pub proof fn lemma_run_occurrences(filler: Operation, n: nat, op: Operation)
    ensures
        occurrences(run_of(filler, n), op) == if filler == op {
            n
        } else {
            0
        },
    decreases n,
{
    if n > 0 {
        lemma_run_occurrences(filler, (n - 1) as nat, op);
        assert(run_of(filler, n).drop_last() =~= run_of(filler, (n - 1) as nat));
    }
}

/// A workload of `rounds` rounds holds `rounds * (per_round + 1)` operations:
/// the dominant one `rounds * per_round` times and the closing one once per
/// round.
pub proof fn lemma_interleaved_counts(shape: WorkloadShape, rounds: nat, per_round: nat)
    ensures
        interleaved(shape, rounds, per_round).len() == rounds * (per_round + 1),
        occurrences(interleaved(shape, rounds, per_round), shape.dominant()) == rounds * per_round,
        occurrences(interleaved(shape, rounds, per_round), shape.closing()) == rounds,
    decreases rounds,
{
    if rounds == 0 {
        assert(rounds * (per_round + 1) == 0) by (nonlinear_arith)
            requires
                rounds == 0,
        ;
        assert(rounds * per_round == 0) by (nonlinear_arith)
            requires
                rounds == 0,
        ;
    } else {
        let first = round(shape, per_round);
        let rest = interleaved(shape, (rounds - 1) as nat, per_round);
        lemma_interleaved_counts(shape, (rounds - 1) as nat, per_round);
        lemma_occurrences_concat(first, rest, shape.dominant());
        lemma_occurrences_concat(first, rest, shape.closing());
        lemma_run_occurrences(shape.dominant(), per_round, shape.dominant());
        lemma_run_occurrences(shape.dominant(), per_round, shape.closing());
        assert(first.drop_last() =~= run_of(shape.dominant(), per_round));
        assert(rounds * (per_round + 1) == (rounds - 1) * (per_round + 1) + (per_round + 1))
            by (nonlinear_arith);
        assert(rounds * per_round == (rounds - 1) * per_round + per_round) by (nonlinear_arith);
    }
}

/// The closing operation stands at the end of each round and nowhere else:
/// each one follows the batch of dominant operations of its round.
pub proof fn lemma_interleaved_positions(
    shape: WorkloadShape,
    rounds: nat,
    per_round: nat,
    k: int,
)
    requires
        0 <= k < rounds * (per_round + 1),
    ensures
        interleaved(shape, rounds, per_round).len() == rounds * (per_round + 1),
        interleaved(shape, rounds, per_round)[k] == if k % (per_round + 1) as int == per_round {
            shape.closing()
        } else {
            shape.dominant()
        },
    decreases rounds,
{
    let m = (per_round + 1) as int;
    lemma_interleaved_counts(shape, rounds, per_round);
    if rounds == 0 {
        assert(rounds * (per_round + 1) == 0) by (nonlinear_arith)
            requires
                rounds == 0,
        ;
    } else {
        lemma_interleaved_counts(shape, (rounds - 1) as nat, per_round);
        if k < m {
            lemma_small_mod(k as nat, m as nat);
        } else {
            assert(k - m < (rounds - 1) * (per_round + 1)) by (nonlinear_arith)
                requires
                    k < rounds * (per_round + 1),
                    m == per_round + 1,
            ;
            lemma_interleaved_positions(shape, (rounds - 1) as nat, per_round, k - m);
            lemma_mod_sub_multiples_vanish(k, m);
        }
    }
}

/// In a read-heavy workload every requested write is issued, and in each
/// round the whole number of reads that the ratio gives. No more reads are
/// issued than were asked for, fewer than one round's worth of them are left
/// out, and none is left out where the writes divide the reads.
pub proof fn lemma_read_heavy_totals(num_reads: nat, num_writes: nat)
    requires
        num_reads > num_writes,
        num_writes > 0,
    ensures
        occurrences(planned(num_reads, num_writes), Operation::Write) == num_writes,
        occurrences(planned(num_reads, num_writes), Operation::Read) == num_writes * (num_reads
            / num_writes),
        num_reads - num_writes < occurrences(planned(num_reads, num_writes), Operation::Read)
            <= num_reads,
        num_reads % num_writes == 0 ==> occurrences(
            planned(num_reads, num_writes),
            Operation::Read,
        ) == num_reads,
{
    lemma_interleaved_counts(WorkloadShape::ReadHeavy, num_writes, num_reads / num_writes);
    lemma_whole_rounds(num_reads, num_writes);
}

/// In a write-heavy workload every requested read is issued, and in each
/// round the whole number of writes that the ratio gives. No more writes are
/// issued than were asked for, fewer than one round's worth of them are left
/// out, and none is left out where the reads divide the writes.
pub proof fn lemma_write_heavy_totals(num_reads: nat, num_writes: nat)
    requires
        num_reads <= num_writes,
        num_reads > 0,
    ensures
        occurrences(planned(num_reads, num_writes), Operation::Read) == num_reads,
        occurrences(planned(num_reads, num_writes), Operation::Write) == num_reads * (num_writes
            / num_reads),
        num_writes - num_reads < occurrences(planned(num_reads, num_writes), Operation::Write)
            <= num_writes,
        num_writes % num_reads == 0 ==> occurrences(
            planned(num_reads, num_writes),
            Operation::Write,
        ) == num_writes,
{
    lemma_interleaved_counts(WorkloadShape::WriteHeavy, num_reads, num_writes / num_reads);
    lemma_whole_rounds(num_writes, num_reads);
}

/// Whole-number division loses less than the divisor.
proof fn lemma_whole_rounds(total: nat, rounds: nat)
    requires
        rounds > 0,
    ensures
        total - rounds < rounds * (total / rounds) <= total,
        total % rounds == 0 ==> rounds * (total / rounds) == total,
{
    assert(total == rounds * (total / rounds) + total % rounds) by (nonlinear_arith)
        requires
            rounds > 0,
    ;
    assert(0 <= total % rounds < rounds) by (nonlinear_arith)
        requires
            rounds > 0,
    ;
}

} // verus!
