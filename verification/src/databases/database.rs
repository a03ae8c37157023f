//! What the harness asks of a backend, whichever it is.

use vstd::prelude::*;
use crate::benchmark::run::WorkloadRun;
use crate::benchmark::run::prepared;
use crate::error::WorkloadError;

verus! {

/// A backend, as far as decisions go. Talking to the store is the caller's
/// part: it reports here when a connection was made or given up, and asks
/// here how a measured run is to proceed.
pub trait Database {
    /// The label of the backend.
    spec fn label(&self) -> Seq<char>;

    /// Whether the backend holds a connection.
    spec fn holds_connection(&self) -> bool;

    /// The label of the backend in reports and file names.
    fn name(&self) -> (text: &'static str)
        ensures
            text@ == self.label(),
    ;

    /// Whether the backend holds a connection.
    fn is_connected(&self) -> (yes: bool)
        ensures
            yes == self.holds_connection(),
    ;

    /// Records that a connection was made.
    fn mark_connected(&mut self)
        ensures
            final(self).holds_connection(),
            final(self).label() == old(self).label(),
    ;

    /// Records that the connection was given up.
    fn mark_disconnected(&mut self)
        ensures
            !final(self).holds_connection(),
            final(self).label() == old(self).label(),
    ;

    /// Prepares a measured run of `num_reads` reads and `num_writes` writes
    /// at the given depth. Without a connection the run will do nothing.
    fn run_queries(
        &self,
        depth: u8,
        num_reads: usize,
        num_writes: usize,
        use_index: bool,
    ) -> (r: Result<WorkloadRun, WorkloadError>)
        ensures
            prepared(r, self.holds_connection(), depth, num_reads, num_writes, use_index),
    ;
}

/// The smaller of two numbers.
pub open spec fn least(a: int, b: int) -> int {
    if a <= b {
        a
    } else {
        b
    }
}

/// The batches in which `total` documents are loaded, `batch_size` at a
/// time: for every batch the position of its first document and the position
/// behind its last. The batches follow one another without a gap, each but
/// the last is full, and none is empty.
pub fn insert_batches(total: usize, batch_size: usize) -> (batches: Vec<(usize, usize)>)
    requires
        batch_size > 0,
    ensures
        batches@.len() * batch_size >= total,
        batches@.len() > 0 ==> (batches@.len() - 1) * batch_size < total,
        forall|k: int|
            0 <= k < batches@.len() ==> {
                &&& (#[trigger] batches@[k]).0 == k * batch_size
                &&& batches@[k].1 == least(total as int, (k + 1) * batch_size)
                &&& batches@[k].0 < batches@[k].1
            },
{
    let mut batches: Vec<(usize, usize)> = Vec::new();
    let mut start: usize = 0;
    assert(batches@.len() * batch_size == 0) by (nonlinear_arith)
        requires
            batches@.len() == 0,
    ;
    while start < total
        invariant
            batch_size > 0,
            start <= total,
            start == least(total as int, batches@.len() * batch_size),
            batches@.len() > 0 ==> (batches@.len() - 1) * batch_size < total,
            forall|k: int|
                0 <= k < batches@.len() ==> {
                    &&& (#[trigger] batches@[k]).0 == k * batch_size
                    &&& batches@[k].1 == least(total as int, (k + 1) * batch_size)
                    &&& batches@[k].0 < batches@[k].1
                },
        decreases total - start,
    {
        let ghost done = batches@.len();
        let ghost before = batches@;
        let end: usize = if total - start < batch_size {
            total
        } else {
            start + batch_size
        };
        proof {
            assert((done + 1) * batch_size == done * batch_size + batch_size) by (nonlinear_arith);
            assert(start == done * batch_size);
            assert(end == least(total as int, (done + 1) * batch_size));
        }
        batches.push((start, end));
        proof {
            assert forall|k: int| 0 <= k < batches@.len() implies {
                &&& (#[trigger] batches@[k]).0 == k * batch_size
                &&& batches@[k].1 == least(total as int, (k + 1) * batch_size)
                &&& batches@[k].0 < batches@[k].1
            } by {
                if k < done {
                    assert(batches@[k] == before[k]);
                }
            }
        }
        start = end;
    }
    batches
}

} // verus!
