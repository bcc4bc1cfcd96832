use reve::planner::{plan_segments, Segment};
use reve::resume::{validate_segments, ArtifactStatus};

#[test]
fn finished_artifacts_leave_nothing_to_do() {
    let plan = plan_segments(2500, 1000).unwrap();
    let artifacts = vec![
        ArtifactStatus::Present(1000),
        ArtifactStatus::Present(1000),
        ArtifactStatus::Present(500),
    ];
    let outcome = validate_segments(&plan, &artifacts);
    assert!(outcome.unprocessed.is_empty());
    assert!(outcome.invalid.is_empty());
}

#[test]
fn missing_artifact_is_requeued_and_others_left_alone() {
    let plan = plan_segments(2500, 1000).unwrap();
    let artifacts = vec![
        ArtifactStatus::Present(1000),
        ArtifactStatus::Missing,
        ArtifactStatus::Present(500),
    ];
    let outcome = validate_segments(&plan, &artifacts);
    assert_eq!(outcome.unprocessed, vec![Segment { index: 1, size: 1000 }]);
    assert!(outcome.invalid.is_empty());
}

#[test]
fn mismatched_artifact_is_deleted_and_requeued() {
    let plan = plan_segments(2500, 1000).unwrap();
    let artifacts = vec![
        ArtifactStatus::Present(1000),
        ArtifactStatus::Present(999),
        ArtifactStatus::Present(500),
    ];
    let outcome = validate_segments(&plan, &artifacts);
    assert_eq!(outcome.unprocessed, vec![Segment { index: 1, size: 1000 }]);
    assert_eq!(outcome.invalid, vec![1]);
}

#[test]
fn fresh_run_requeues_the_whole_plan() {
    let plan = plan_segments(2500, 1000).unwrap();
    let artifacts = vec![
        ArtifactStatus::Missing,
        ArtifactStatus::Missing,
        ArtifactStatus::Missing,
    ];
    let outcome = validate_segments(&plan, &artifacts);
    assert_eq!(outcome.unprocessed, plan);
    assert!(outcome.invalid.is_empty());
}
