use reve::paths::{
    absolute_path, ends_with_str, replace_file_suffix, segment_dir, segment_frame_pattern,
    segment_part_path, Logger,
};

#[test]
fn test_replace_file_suffix_linux() {
    assert_eq!(
        replace_file_suffix("/home/user/image.png"),
        "/home/user/image_upscaled-4x.png"
    );
    assert_eq!(
        replace_file_suffix("/home/user/image.jpg"),
        "/home/user/image_upscaled-4x.jpg"
    );
    assert_eq!(
        replace_file_suffix("/home/user/image.jpeg"),
        "/home/user/image_upscaled-4x.jpeg"
    );
}

#[test]
fn test_replace_file_suffix_windows() {
    assert_eq!(
        replace_file_suffix(r#"C:\Users\user\image.png"#),
        r#"C:\Users\user\image_upscaled-4x.png"#
    );
    assert_eq!(
        replace_file_suffix(r#"C:\Users\user\image.jpg"#),
        r#"C:\Users\user\image_upscaled-4x.jpg"#
    );
    assert_eq!(
        replace_file_suffix(r#"C:\Users\user\image.jpeg"#),
        r#"C:\Users\user\image_upscaled-4x.jpeg"#
    );
}

#[test]
fn test_replace_file_suffix_no_suffix() {
    assert_eq!(
        replace_file_suffix("/home/user/image"),
        "/home/user/image_upscaled-4x.png"
    );
}

#[test]
fn test_replace_file_suffix_suffix_not_implemented() {
    assert_eq!(
        replace_file_suffix("/home/user/image.bmp"),
        "/home/user/image.bmp_upscaled-4x.png"
    );
}

#[test]
fn test_replace_file_suffix_spaces_in_path() {
    assert_eq!(
        replace_file_suffix("/home/user two/image with spaces.png"),
        "/home/user two/image with spaces_upscaled-4x.png"
    );
}

#[test]
fn absolute_path_cleans_rooted_paths() {
    assert_eq!(absolute_path("/a/../b", "/ignored"), "/b");
    assert_eq!(absolute_path("/a/./b//c", "/ignored"), "/a/b/c");
}

#[test]
fn absolute_path_joins_relative_paths() {
    assert_eq!(absolute_path("x/./y", "/cwd"), "/cwd/x/y");
    assert_eq!(absolute_path("video.mp4", "/data/in"), "/data/in/video.mp4");
}

#[test]
fn absolute_path_results_are_rooted_and_stable() {
    let once = absolute_path("x/../y/video.mp4", "/data/in");
    assert!(once.starts_with('/'));
    assert_eq!(absolute_path(&once, "/data/in"), once);
    assert_eq!(absolute_path(&once, "/somewhere/else"), once);
}

#[test]
fn ends_with_matches_suffixes() {
    assert!(ends_with_str("movie.mp4", ".mp4"));
    assert!(!ends_with_str("movie.mp4", ".mkv"));
    assert!(ends_with_str("x", ""));
    assert!(!ends_with_str("", ".png"));
}

#[test]
fn segment_paths_are_partitioned_by_index() {
    assert_eq!(segment_dir("temp/tmp_frames", 0), "temp/tmp_frames/0");
    assert_eq!(segment_dir("temp/out_frames", 17), "temp/out_frames/17");
    assert_eq!(
        segment_frame_pattern("temp/tmp_frames", 2),
        "temp/tmp_frames/2/frame%08d.png"
    );
    assert_eq!(
        segment_part_path("temp/video_parts", 10, "mp4"),
        "temp/video_parts/10.mp4"
    );
}

#[test]
fn logger_reports_its_path() {
    let logger = Logger::new(String::from("/home/user/.config/app/log.txt"));
    assert_eq!(logger.log_file_path(), "/home/user/.config/app/log.txt");
}
