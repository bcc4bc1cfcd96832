use reve::validation::{
    codec_supported, codec_validation, detect_codec_support, extension_of, filter_video_files,
    find_mimetype, format_validation, input_validation, max_resolution_validation,
    output_validation, output_validation_dir, preset_validation, UpscaleTypes,
};

#[test]
fn extensions_split_after_the_last_dot() {
    assert_eq!(extension_of("movie.mkv"), "mkv");
    assert_eq!(extension_of("archive.tar.gz"), "gz");
    assert_eq!(extension_of("noext"), "noext");
    assert_eq!(extension_of("trailing."), "");
}

#[test]
fn mimetypes_follow_the_allow_list() {
    assert_eq!(find_mimetype(&String::from("a.mkv")), "VIDEO");
    assert_eq!(find_mimetype(&String::from("a.webm")), "VIDEO");
    assert_eq!(find_mimetype(&String::from("a.ts")), "VIDEO");
    assert_eq!(find_mimetype(&String::from("a.txt")), "OTHER");
    assert_eq!(find_mimetype(&String::from("noext")), "OTHER");
}

#[test]
fn discovery_keeps_only_videos_in_walk_order() {
    let files = vec![
        String::from("/in/a.mkv"),
        String::from("/in/notes.txt"),
        String::from("/in/b.mp4"),
        String::from("/in/c.wmv"),
    ];
    assert_eq!(
        filter_video_files(&files),
        vec!["/in/a.mkv", "/in/b.mp4", "/in/c.wmv"]
    );
}

#[test]
fn input_paths_are_checked_by_kind() {
    assert_eq!(input_validation("/in", false, true), Ok(String::from("/in")));
    assert_eq!(
        input_validation("/in/a.mkv", false, false),
        Err(String::from("input path not found"))
    );
    assert_eq!(
        input_validation("/in/a.mkv", true, false),
        Ok(String::from("/in/a.mkv"))
    );
    assert_eq!(
        input_validation("/in/a.txt", true, false),
        Err(String::from("valid input formats: mp4/mkv/avi"))
    );
}

#[test]
fn output_paths_must_be_new() {
    assert_eq!(
        output_validation("/out/a.mkv", true),
        Err(String::from("output path already exists"))
    );
    assert_eq!(
        output_validation("/out/a.mkv", false),
        Ok(String::from("/out/a.mkv"))
    );
    assert_eq!(
        output_validation("/out/a.txt", false),
        Err(String::from("valid output formats: mp4/mkv/avi"))
    );
    assert_eq!(
        output_validation_dir("/out/a.mkv", true),
        Ok(String::from("already exists"))
    );
    assert_eq!(
        output_validation_dir("/out/a.mkv", false),
        Ok(String::from("/out/a.mkv"))
    );
}

#[test]
fn formats_presets_and_codecs_are_from_fixed_sets() {
    assert_eq!(format_validation("mkv"), Ok(String::from("mkv")));
    assert!(format_validation("webm").is_err());
    assert_eq!(preset_validation("slow"), Ok(String::from("slow")));
    assert!(preset_validation("glacial").is_err());
    assert_eq!(codec_validation("libx265"), Ok(String::from("libx265")));
    assert!(codec_validation("h264").is_err());
}

#[test]
fn resolution_ceiling_must_be_numeric() {
    assert_eq!(max_resolution_validation("480"), Ok(String::from("480")));
    assert!(max_resolution_validation("tall").is_err());
    assert!(max_resolution_validation("").is_err());
}

#[test]
fn banner_flags_decide_codec_support() {
    let banner = "configuration: --enable-libx265 --enable-libsvtav1";
    let support = detect_codec_support(banner);
    assert!(support.libx265);
    assert!(support.libsvtav1);
    assert!(!support.libsvt_hevc);
    assert!(codec_supported(&support, "libx265"));
    assert!(!codec_supported(&support, "libsvt_hevc"));
    assert!(!codec_supported(&support, "h264"));
}

#[test]
fn upscale_model_name_is_fixed() {
    assert_eq!(
        UpscaleTypes::General.upscale_type_as_str(),
        "realesr-animevideov3"
    );
    assert_eq!(
        UpscaleTypes::Digital.upscale_type_as_str(),
        "realesr-animevideov3"
    );
}
