use zlink::unix::stream::{after_attempt, after_readiness, Attempt, Readiness, Step, WriteProgress};

fn plan(len: usize, sends: &[usize]) -> Vec<(usize, bool)> {
    let mut progress = WriteProgress::new(len);
    let mut out = Vec::new();
    let mut sends = sends.iter();
    while let Some(next) = progress.next_send() {
        out.push(next);
        let n = *sends.next().unwrap();
        progress.record_sent(n);
    }
    assert!(progress.is_done());
    assert_eq!(progress.position(), len);
    out
}

#[test]
fn whole_buffer_in_one_send_carries_fds() {
    assert_eq!(plan(10, &[10]), vec![(0, true)]);
}

#[test]
fn partial_sends_carry_fds_only_first() {
    assert_eq!(plan(10, &[4, 3, 3]), vec![(0, true), (4, false), (7, false)]);
}

#[test]
fn empty_buffer_is_not_sent() {
    assert_eq!(plan(0, &[]), vec![]);
    assert!(WriteProgress::new(0).is_done());
}

#[test]
fn zero_byte_send_retries_with_fds() {
    assert_eq!(plan(3, &[0, 3]), vec![(0, true), (0, true)]);
}

#[test]
fn would_block_waits_for_readiness() {
    assert_eq!(after_attempt(Attempt::WouldBlock), Step::AwaitReadiness);
    assert_eq!(after_attempt(Attempt::Completed), Step::ReturnOutcome);
}

#[test]
fn readiness_decides_retry() {
    assert_eq!(after_readiness(Readiness::Ready), Step::Retry);
    assert_eq!(after_readiness(Readiness::Pending), Step::ReturnPending);
    assert_eq!(after_readiness(Readiness::Failed), Step::ReturnPollError);
}
