use reve::errors::JobError;
use reve::media::FrameRate;
use reve::planner::Segment;
use reve::resume::ArtifactStatus;
use reve::video::{is_same_input, resume_decision, start_job, Video};

#[test]
fn job_setup_copies_configuration_and_plans() {
    let rate = FrameRate { num: 24, den: 1 };
    let video = Video::new("/in/a.mkv", "/out/a.mkv", 2500, rate, 1000, 2).unwrap();
    assert_eq!(video.path, "/in/a.mkv");
    assert_eq!(video.output_path, "/out/a.mkv");
    assert_eq!(video.frame_count, 2500);
    assert_eq!(video.frame_rate, rate);
    assert_eq!(video.segment_size, 1000);
    assert_eq!(video.segment_count, 3);
    assert_eq!(video.upscale_ratio, 2);
    assert_eq!(
        video.segments,
        vec![
            Segment { index: 0, size: 1000 },
            Segment { index: 1, size: 1000 },
            Segment { index: 2, size: 500 },
        ]
    );
}

#[test]
fn unprobeable_video_is_a_probe_error() {
    let rate = FrameRate { num: 24, den: 1 };
    assert!(matches!(
        Video::new("/in/a.mkv", "/out/a.mkv", 0, rate, 1000, 2),
        Err(JobError::Probe)
    ));
}

#[test]
fn resume_detection_matches_by_name_or_path() {
    assert!(is_same_input("/old/place/movie.mkv", "/new/place/movie.mkv"));
    assert!(is_same_input("/in/movie.mkv", "/in/movie.mkv"));
    assert!(!is_same_input("/in/movie.mkv", "/in/other.mkv"));
}

#[test]
fn mismatched_snapshot_is_a_config_mismatch() {
    assert_eq!(resume_decision("/in/movie.mkv", "/new/movie.mkv"), Ok(()));
    assert_eq!(
        resume_decision("/in/movie.mkv", "/in/other.mkv"),
        Err(JobError::ConfigMismatch)
    );
}

#[test]
fn started_job_queues_exactly_the_unfinished_segments() {
    let artifacts = vec![
        ArtifactStatus::Present(1000),
        ArtifactStatus::Present(999),
        ArtifactStatus::Missing,
    ];
    let (plan, invalid, coordinator) = start_job(2500, 1000, &artifacts).unwrap();
    assert_eq!(plan.len(), 3);
    assert_eq!(invalid, vec![1]);
    assert_eq!(
        coordinator.pending,
        vec![Segment { index: 1, size: 1000 }, Segment { index: 2, size: 500 }]
    );
    assert!(coordinator.committed.is_empty());
}

#[test]
fn start_job_rejects_bad_inputs() {
    assert!(matches!(start_job(0, 1000, &Vec::new()), Err(JobError::Probe)));
    assert!(matches!(
        start_job(2500, 1000, &vec![ArtifactStatus::Missing]),
        Err(JobError::Validation)
    ));
}
