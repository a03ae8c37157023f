use energy_benchmark::benchmark::schedule::Operation::{Read, Write};
use energy_benchmark::benchmark::schedule::{Operation, Schedule, WorkloadShape};
use energy_benchmark::error::WorkloadError;

fn operations(num_reads: usize, num_writes: usize) -> Vec<Operation> {
    let mut schedule = Schedule::new(num_reads, num_writes).expect("a valid ratio");
    let mut issued = Vec::new();
    while let Some(op) = schedule.next() {
        issued.push(op);
    }
    issued
}

fn count(ops: &[Operation], wanted: Operation) -> usize {
    ops.iter().filter(|op| **op == wanted).count()
}

#[test]
fn read_heavy_issues_every_read_and_write() {
    let ops = operations(1000, 200);
    assert_eq!(ops.len(), 1200);
    assert_eq!(count(&ops, Operation::Read), 1000);
    assert_eq!(count(&ops, Operation::Write), 200);
}

#[test]
fn read_heavy_writes_follow_their_batch_of_reads() {
    let ops = operations(1000, 200);
    for (position, op) in ops.iter().enumerate() {
        let expected = if position % 6 == 5 { Operation::Write } else { Operation::Read };
        assert_eq!(*op, expected, "position {}", position);
    }
}

#[test]
fn write_heavy_issues_every_read_and_write() {
    let ops = operations(200, 1000);
    assert_eq!(ops.len(), 1200);
    assert_eq!(count(&ops, Operation::Read), 200);
    assert_eq!(count(&ops, Operation::Write), 1000);
}

#[test]
fn write_heavy_reads_follow_their_batch_of_writes() {
    let ops = operations(200, 1000);
    for (position, op) in ops.iter().enumerate() {
        let expected = if position % 6 == 5 { Operation::Read } else { Operation::Write };
        assert_eq!(*op, expected, "position {}", position);
    }
}

#[test]
fn read_heavy_without_writes_is_refused() {
    match Schedule::new(1000, 0) {
        Err(e) => assert_eq!(e, WorkloadError::ZeroDenominator),
        Ok(_) => panic!("a ratio without denominator was accepted"),
    }
}

#[test]
fn write_heavy_without_reads_is_refused() {
    match Schedule::new(0, 1000) {
        Err(e) => assert_eq!(e, WorkloadError::ZeroDenominator),
        Ok(_) => panic!("a ratio without denominator was accepted"),
    }
}

#[test]
fn no_operations_at_all_are_refused() {
    match Schedule::new(0, 0) {
        Err(e) => assert_eq!(e, WorkloadError::ZeroDenominator),
        Ok(_) => panic!("a ratio without denominator was accepted"),
    }
}

#[test]
fn remainder_of_the_ratio_is_dropped() {
    assert_eq!(operations(7, 2), vec![Read, Read, Read, Write, Read, Read, Read, Write]);
    assert_eq!(operations(2, 5), vec![Write, Write, Read, Write, Write, Read]);
}

#[test]
fn equal_counts_run_write_heavy() {
    assert_eq!(WorkloadShape::select(3, 3), WorkloadShape::WriteHeavy);
    assert_eq!(operations(3, 3), vec![Write, Read, Write, Read, Write, Read]);
}

#[test]
fn shape_follows_the_larger_count() {
    assert_eq!(WorkloadShape::select(1000, 200), WorkloadShape::ReadHeavy);
    assert_eq!(WorkloadShape::select(200, 1000), WorkloadShape::WriteHeavy);
    assert_eq!(WorkloadShape::ReadHeavy.dominant_operation(), Operation::Read);
    assert_eq!(WorkloadShape::ReadHeavy.closing_operation(), Operation::Write);
    assert_eq!(WorkloadShape::WriteHeavy.dominant_operation(), Operation::Write);
    assert_eq!(WorkloadShape::WriteHeavy.closing_operation(), Operation::Read);
}

#[test]
fn finished_schedule_stays_finished() {
    let mut schedule = Schedule::new(1, 1).expect("a valid ratio");
    assert!(!schedule.is_done());
    assert_eq!(schedule.next(), Some(Operation::Write));
    assert_eq!(schedule.next(), Some(Operation::Read));
    assert!(schedule.is_done());
    assert_eq!(schedule.next(), None);
    assert_eq!(schedule.next(), None);
    assert!(schedule.is_done());
}
