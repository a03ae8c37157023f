//! The measurements of the test matrix: what each one is called and what it
//! runs.

use vstd::prelude::*;
use vstd::string::StringExecFns;
use crate::benchmark::run::WorkloadRun;
use crate::benchmark::run::prepared;
use crate::benchmark::schedule::WorkloadShape;
use crate::databases::database::Database;
use crate::error::WorkloadError;
use crate::text::decimal;
use crate::text::decimal_text;

verus! {

/// The reads of a read-heavy measurement.
pub const READ_HEAVY_READS: usize = 1000;

/// The writes of a read-heavy measurement.
pub const READ_HEAVY_WRITES: usize = 200;

/// The reads of a write-heavy measurement.
pub const WRITE_HEAVY_READS: usize = 200;

/// The writes of a write-heavy measurement.
pub const WRITE_HEAVY_WRITES: usize = 1000;

/// How many documents are loaded into a backend at once.
pub const INSERT_BATCH_SIZE: usize = 1000;

/// How long the idle measurement holds its window open, in seconds.
pub const IDLE_SECONDS: u64 = 1800;

/// The part of a measurement's name that tells its shape.
pub open spec fn shape_infix(shape: WorkloadShape) -> Seq<char> {
    match shape {
        WorkloadShape::ReadHeavy => "_read_heavy_depth_"@,
        WorkloadShape::WriteHeavy => "_write_heavy_depth_"@,
    }
}

/// The part of a measurement's name that tells whether the index was there.
pub open spec fn index_suffix(use_index: bool) -> Seq<char> {
    if use_index {
        "_with_index"@
    } else {
        Seq::empty()
    }
}

/// The name of the sample file of a measurement: backend, shape, depth,
/// epoch, and whether the index was there.
pub open spec fn measurement_name_text(
    label: Seq<char>,
    shape: WorkloadShape,
    depth: u8,
    epoch: u8,
    use_index: bool,
) -> Seq<char> {
    label + shape_infix(shape) + decimal(depth as nat) + "_epoch_"@ + decimal(epoch as nat)
        + index_suffix(use_index) + ".csv"@
}

/// The name of the sample file of the idle measurement of an epoch.
pub open spec fn idle_measurement_name_text(epoch: u8) -> Seq<char> {
    "Control Test C1 epoch "@ + decimal(epoch as nat) + ".csv"@
}

/// Writes the name of the sample file of a measurement.
pub fn measurement_name(
    label: &str,
    shape: WorkloadShape,
    depth: u8,
    epoch: u8,
    use_index: bool,
) -> (name: String)
    ensures
        name@ == measurement_name_text(label@, shape, depth, epoch, use_index),
{
    let mut name = String::from_str(label);
    match shape {
        WorkloadShape::ReadHeavy => name.append("_read_heavy_depth_"),
        WorkloadShape::WriteHeavy => name.append("_write_heavy_depth_"),
    }
    name.append(decimal_text(depth).as_str());
    name.append("_epoch_");
    name.append(decimal_text(epoch).as_str());
    if use_index {
        name.append("_with_index");
    }
    name.append(".csv");
    assert(name@ =~= measurement_name_text(label@, shape, depth, epoch, use_index));
    name
}

/// A measurement that is ready to run.
#[derive(Debug)]
pub struct Measurement {
    /// The name of the sample file.
    pub measurement_name: String,
    /// The number of documents in the backend, by which reads are batched.
    pub num_docs: usize,
    /// The run, before its first step.
    pub run: WorkloadRun,
}

/// The idle measurement: a window that is held open while nothing runs.
#[derive(Debug)]
pub struct IdleMeasurement {
    /// The name of the sample file.
    pub measurement_name: String,
    /// How long the window stays open, in seconds.
    pub hold_seconds: u64,
}

/// Prepares the read-heavy measurement of a backend: a thousand reads to two
/// hundred writes.
pub fn run_read_heavy<D: Database>(
    db: &D,
    depth: u8,
    use_index: bool,
    num_docs: usize,
    epoch: u8,
) -> (r: Result<Measurement, WorkloadError>)
    ensures
        match r {
            Ok(m) => {
                &&& m.measurement_name@ == measurement_name_text(
                    db.label(),
                    WorkloadShape::ReadHeavy,
                    depth,
                    epoch,
                    use_index,
                )
                &&& m.num_docs == num_docs
                &&& prepared(
                    Ok(m.run),
                    db.holds_connection(),
                    depth,
                    READ_HEAVY_READS,
                    READ_HEAVY_WRITES,
                    use_index,
                )
            },
            Err(e) => depth == 0 && e == WorkloadError::InvalidDepth,
        },
{
    match db.run_queries(depth, READ_HEAVY_READS, READ_HEAVY_WRITES, use_index) {
        Ok(run) => Ok(
            Measurement {
                measurement_name: measurement_name(
                    db.name(),
                    WorkloadShape::ReadHeavy,
                    depth,
                    epoch,
                    use_index,
                ),
                num_docs,
                run,
            },
        ),
        Err(e) => Err(e),
    }
}

/// Prepares the write-heavy measurement of a backend: two hundred reads to a
/// thousand writes.
pub fn run_write_heavy<D: Database>(
    db: &D,
    depth: u8,
    use_index: bool,
    num_docs: usize,
    epoch: u8,
) -> (r: Result<Measurement, WorkloadError>)
    ensures
        match r {
            Ok(m) => {
                &&& m.measurement_name@ == measurement_name_text(
                    db.label(),
                    WorkloadShape::WriteHeavy,
                    depth,
                    epoch,
                    use_index,
                )
                &&& m.num_docs == num_docs
                &&& prepared(
                    Ok(m.run),
                    db.holds_connection(),
                    depth,
                    WRITE_HEAVY_READS,
                    WRITE_HEAVY_WRITES,
                    use_index,
                )
            },
            Err(e) => depth == 0 && e == WorkloadError::InvalidDepth,
        },
{
    match db.run_queries(depth, WRITE_HEAVY_READS, WRITE_HEAVY_WRITES, use_index) {
        Ok(run) => Ok(
            Measurement {
                measurement_name: measurement_name(
                    db.name(),
                    WorkloadShape::WriteHeavy,
                    depth,
                    epoch,
                    use_index,
                ),
                num_docs,
                run,
            },
        ),
        Err(e) => Err(e),
    }
}

/// Prepares the idle measurement of an epoch: half an hour of sampling with
/// no backend at work.
pub fn measure_idle_energy_consumption(epoch: u8) -> (idle: IdleMeasurement)
    ensures
        idle.measurement_name@ == idle_measurement_name_text(epoch),
        idle.hold_seconds == IDLE_SECONDS,
{
    let mut name = String::from_str("Control Test C1 epoch ");
    name.append(decimal_text(epoch).as_str());
    name.append(".csv");
    IdleMeasurement { measurement_name: name, hold_seconds: IDLE_SECONDS }
}

} // verus!
