use reve::planner::{plan_segments, Segment};
use reve::progress::{contains_marker, resume_seed, sum_frames, ProgressAggregator};

#[test]
fn marker_lines_are_recognized() {
    assert!(contains_marker(
        "[AVIOContext @ 0x55d4] Statistics: 123 bytes written",
        "AVIOContext"
    ));
    assert!(contains_marker("0.00% done", "done"));
    assert!(!contains_marker("frame dropped", "AVIOContext"));
    assert!(contains_marker("anything", ""));
    assert!(!contains_marker("", "done"));
}

#[test]
fn counters_advance_only_on_marker_lines() {
    let mut agg = ProgressAggregator::new(2500, 1000);
    assert_eq!(agg.position, 1000);
    assert!(agg.observe_line("23.1% done", "done"));
    assert!(!agg.observe_line("some diagnostic noise", "done"));
    assert!(agg.observe_line("42.0% done", "done"));
    assert_eq!(agg.position, 1002);
    assert_eq!(agg.segment_units, 2);
    agg.begin_segment();
    assert_eq!(agg.segment_units, 0);
    assert_eq!(agg.position, 1002);
}

#[test]
fn resumed_progress_starts_at_the_done_frames() {
    let plan = plan_segments(2500, 1000).unwrap();
    let unprocessed = vec![Segment { index: 1, size: 1000 }];
    assert_eq!(resume_seed(&plan, &unprocessed), Some(1500));
    assert_eq!(resume_seed(&plan, &plan), Some(0));
    assert_eq!(resume_seed(&plan, &Vec::new()), Some(2500));
}

#[test]
fn frame_sums_are_exact() {
    let plan = plan_segments(2500, 1000).unwrap();
    assert_eq!(sum_frames(&plan), Some(2500));
    assert_eq!(sum_frames(&Vec::new()), Some(0));
}
