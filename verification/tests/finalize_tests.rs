use reve::errors::JobError;
use reve::finalize::{
    build_playlist, concat_retry_step, final_output_ok, remux_excludes_data, ArtifactCheck,
    ConcatStep,
};

#[test]
fn playlist_lists_every_part_ascending() {
    assert_eq!(
        build_playlist(3, "mp4"),
        "file 'video_parts/0.mp4'\nfile 'video_parts/1.mp4'\nfile 'video_parts/2.mp4'"
    );
    assert_eq!(build_playlist(1, "mkv"), "file 'video_parts/0.mkv'");
}

#[test]
fn concat_is_retried_at_most_five_times() {
    assert_eq!(
        concat_retry_step(0, ArtifactCheck::Missing),
        ConcatStep::Invoke
    );
    assert_eq!(concat_retry_step(2, ArtifactCheck::Empty), ConcatStep::Wait);
    assert_eq!(
        concat_retry_step(4, ArtifactCheck::NonEmpty),
        ConcatStep::Done
    );
    assert_eq!(concat_retry_step(5, ArtifactCheck::Missing), ConcatStep::Fail);
    assert_eq!(concat_retry_step(5, ArtifactCheck::Empty), ConcatStep::Fail);
}

#[test]
fn data_streams_are_excluded_only_when_probed() {
    assert!(remux_excludes_data("2\n"));
    assert!(!remux_excludes_data(""));
    assert!(!remux_excludes_data("  \n"));
}

#[test]
fn final_file_must_exist_with_content() {
    assert_eq!(final_output_ok(true, 1024), Ok(()));
    assert_eq!(final_output_ok(true, 0), Err(JobError::Finalize));
    assert_eq!(final_output_ok(false, 0), Err(JobError::Finalize));
}
