use reve::errors::JobError;
use reve::planner::{get_last_segment_size, plan_segments, Segment};

#[test]
fn plan_covers_every_frame() {
    let plan = plan_segments(2500, 1000).unwrap();
    assert_eq!(
        plan,
        vec![
            Segment { index: 0, size: 1000 },
            Segment { index: 1, size: 1000 },
            Segment { index: 2, size: 500 },
        ]
    );
    let total: u64 = plan.iter().map(|s| s.size as u64).sum();
    assert_eq!(total, 2500);
}

#[test]
fn plan_sum_matches_frame_count_at_edges() {
    let plan = plan_segments(1, 1000).unwrap();
    assert_eq!(plan, vec![Segment { index: 0, size: 1 }]);

    let plan = plan_segments(999, 1000).unwrap();
    assert_eq!(plan, vec![Segment { index: 0, size: 999 }]);

    let plan = plan_segments(1000, 1000).unwrap();
    assert_eq!(plan, vec![Segment { index: 0, size: 1000 }]);

    let plan = plan_segments(1001, 1000).unwrap();
    assert_eq!(
        plan,
        vec![Segment { index: 0, size: 1000 }, Segment { index: 1, size: 1 }]
    );
}

#[test]
fn evenly_divided_plan_ends_with_a_full_segment() {
    let plan = plan_segments(3000, 1000).unwrap();
    assert_eq!(plan.len(), 3);
    assert_eq!(plan.last().unwrap().size, 1000);
    assert_eq!(get_last_segment_size(3000, 1000), 1000);
    assert_eq!(get_last_segment_size(2500, 1000), 500);
    assert_eq!(get_last_segment_size(7, 3), 1);
}

#[test]
fn zero_frames_is_a_probe_failure() {
    assert_eq!(plan_segments(0, 1000), Err(JobError::Probe));
}

#[test]
fn plan_is_deterministic() {
    assert_eq!(plan_segments(2500, 1000), plan_segments(2500, 1000));
}
