use reve::coordinator::{encode_commit_check, Coordinator};
use reve::errors::{JobError, StageKind};
use reve::planner::Segment;

fn seg(index: u32, size: u32) -> Segment {
    Segment { index, size }
}

#[test]
fn two_segment_job_commits_in_index_order() {
    let mut c = Coordinator::new(vec![seg(0, 1000), seg(1, 500)]);

    let primed = c.prime_export().unwrap();
    assert_eq!(primed, seg(0, 1000));

    // First iteration: export of segment one runs while segment zero is
    // upscaled and encoded.
    let next = c.start_next_export();
    assert_eq!(next, Some(seg(1, 500)));
    c.upscale_done();
    assert!(!c.encode_inflight());
    let popped = c.start_encode();
    assert_eq!(popped, seg(0, 1000));
    assert_eq!(c.remaining(), vec![seg(1, 500)]);

    // Second iteration: join the async export, upscale, join the previous
    // encode, encode the last segment.
    c.export_done();
    assert_eq!(c.start_next_export(), None);
    c.upscale_done();
    assert!(c.encode_inflight());
    assert_eq!(c.commit_encode(), 0);
    let popped = c.start_encode();
    assert_eq!(popped, seg(1, 500));
    assert!(c.remaining().is_empty());

    // Drain the final encode.
    assert_eq!(c.commit_encode(), 1);
    assert!(c.is_done());
    assert_eq!(c.committed, vec![0, 1]);
    assert!(c.committed.windows(2).all(|w| w[0] < w[1]));
}

#[test]
fn empty_queue_is_done_immediately() {
    let mut c = Coordinator::new(Vec::new());
    assert!(c.is_done());
    assert_eq!(c.prime_export(), None);
}

#[test]
fn resumed_job_keeps_plan_suffix_order() {
    // A resume scan left only the middle and last segments; the indexes
    // are not contiguous but still ascending.
    let mut c = Coordinator::try_new(vec![seg(1, 1000), seg(2, 500)]).unwrap();
    let primed = c.prime_export().unwrap();
    assert_eq!(primed.index, 1);
    c.start_next_export();
    c.upscale_done();
    c.start_encode();
    c.export_done();
    c.upscale_done();
    assert_eq!(c.commit_encode(), 1);
    c.start_encode();
    assert_eq!(c.commit_encode(), 2);
    assert!(c.is_done());
    assert_eq!(c.committed, vec![1, 2]);
}

#[test]
fn commit_requires_a_nonempty_artifact() {
    assert_eq!(encode_commit_check(true, 4096), Ok(()));
    assert_eq!(
        encode_commit_check(true, 0),
        Err(JobError::Stage(StageKind::Encode))
    );
    assert_eq!(
        encode_commit_check(false, 0),
        Err(JobError::Stage(StageKind::Encode))
    );
}

#[test]
fn snapshot_out_of_order_is_rejected() {
    assert!(Coordinator::try_new(vec![seg(2, 500), seg(1, 1000)]).is_none());
    assert!(Coordinator::try_new(vec![seg(1, 500), seg(1, 500)]).is_none());
    assert!(Coordinator::try_new(vec![seg(0, 500)]).is_some());
}
