use dtp::amount::Amount;
use dtp::dispatch::{batch_plan, counter_advance, Batch, DispatchStep, Dispatcher, TaskOutcome};
use dtp::error::{ConfigIssue, DtpError};

fn sizes(plan: &[Batch]) -> Vec<usize> {
    plan.iter().map(|b| b.end - b.start).collect()
}

fn covers_in_order(plan: &[Batch], len: usize) -> bool {
    let mut next = 0;
    for b in plan {
        if b.start != next || b.end <= b.start {
            return false;
        }
        next = b.end;
    }
    next == len
}

#[test]
fn plan_for_various_lengths() {
    let b = 100;
    for (len, count) in [(0, 0), (1, 1), (b, 1), (b + 1, 2), (10 * b, 10)] {
        let plan = batch_plan(len, b).unwrap();
        assert_eq!(plan.len(), count, "len {}", len);
        assert!(covers_in_order(&plan, len));
        let s = sizes(&plan);
        for (i, size) in s.iter().enumerate() {
            if i + 1 < s.len() {
                assert_eq!(*size, b);
            } else {
                assert!(*size >= 1 && *size <= b);
            }
        }
    }
}

#[test]
fn plan_refuses_zero_batch_size() {
    let e = DtpError::Configuration(ConfigIssue::ZeroBatchSize);
    assert_eq!(batch_plan(10, 0), Err(e));
    assert_eq!(Dispatcher::new(10, 0).unwrap_err(), e);
}

#[test]
fn scenario_c_runs_three_batches() {
    let mut d = Dispatcher::new(250, 100).unwrap();
    let mut seen = Vec::new();
    while let DispatchStep::Run(batch) = d.next_step() {
        seen.push(batch.end - batch.start);
        let results = vec![TaskOutcome::Confirmed; batch.end - batch.start];
        d.record_batch(&results);
    }
    assert_eq!(seen, vec![100, 100, 50]);
    assert!(d.is_finished());
    assert_eq!(d.outcomes().len(), 250);
    assert!(d.failed_tasks().is_empty());
    let before = Amount::from_u64(1_000);
    let after = Amount::from_u64(1_250);
    assert_eq!(counter_advance(&before, &after), Some(Amount::from_u64(250)));
}

#[test]
fn failures_are_isolated_and_collected() {
    let mut d = Dispatcher::new(5, 2).unwrap();
    assert_eq!(d.next_step(), DispatchStep::Run(Batch { start: 0, end: 2 }));
    d.record_batch(&vec![TaskOutcome::Confirmed, TaskOutcome::Failed(DtpError::TransactionFailure)]);
    assert_eq!(d.next_step(), DispatchStep::Run(Batch { start: 2, end: 4 }));
    d.record_batch(&vec![TaskOutcome::Failed(DtpError::NetworkError), TaskOutcome::Confirmed]);
    assert_eq!(d.next_step(), DispatchStep::Run(Batch { start: 4, end: 5 }));
    d.record_batch(&vec![TaskOutcome::Confirmed]);
    assert_eq!(d.next_step(), DispatchStep::Finished);
    assert_eq!(d.failed_tasks(), vec![1, 2]);
    assert_eq!(d.outcomes()[2], TaskOutcome::Failed(DtpError::NetworkError));
}

#[test]
fn empty_workload_is_finished_at_once() {
    let d = Dispatcher::new(0, 100).unwrap();
    assert_eq!(d.next_step(), DispatchStep::Finished);
    assert!(d.is_finished());
}

#[test]
fn counter_going_down_is_none() {
    assert_eq!(counter_advance(&Amount::from_u64(5), &Amount::from_u64(4)), None);
}
