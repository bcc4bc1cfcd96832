use reve::errors::JobError;
use reve::probe::{
    basename, check_ffprobe_output_i8, height_within_limit, parse_i64_digits, text_as_i64_or_zero,
    work_item_from_fields, work_item_from_probe,
};
use reve::workqueue::WorkStatus;

fn report(height: i64) -> String {
    let mut s = String::from("{\"streams\":[{\"width\":640,\"height\":");
    s.push_str(&height.to_string());
    s.push_str(
        ",\"codec_name\":\"h264\",\"pix_fmt\":\"yuv420p\",\"extradata_hash\":\"SHA256=abc\",\
         \"display_aspect_ratio\":\"4:3\",\"sample_aspect_ratio\":\"1:1\"}],\
         \"format\":{\"filename\":\"/data/in/clip.mkv\",\"size\":\"1024\",\"bit_rate\":\"800000\",\
         \"duration\":\"7.041000\",\"format_name\":\"matroska\"}}",
    );
    s
}

#[test]
fn probe_report_decides_within_ceiling() {
    assert_eq!(check_ffprobe_output_i8(&report(480), "480"), Ok(1));
    assert_eq!(check_ffprobe_output_i8(&report(481), "480"), Ok(0));
    assert_eq!(check_ffprobe_output_i8(&report(360), "480"), Ok(1));
}

#[test]
fn unreadable_probe_reports_are_probe_errors() {
    assert_eq!(
        check_ffprobe_output_i8("not json at all", "480"),
        Err(JobError::Probe)
    );
    assert_eq!(
        check_ffprobe_output_i8("{\"streams\":[]}", "480"),
        Err(JobError::Probe)
    );
    assert_eq!(
        check_ffprobe_output_i8(&report(480), "tall"),
        Err(JobError::Probe)
    );
    assert_eq!(
        check_ffprobe_output_i8(&report(480), "99999999999999999999"),
        Err(JobError::Probe)
    );
}

#[test]
fn field_rows_pin_every_column() {
    let item = work_item_from_fields(
        Some(String::from("/data/in/clip.mkv")),
        Some(640),
        Some(480),
        Some(String::from("7.041000")),
        Some(String::from("yuv420p")),
        Some(String::from("4:3")),
        Some(String::from("1:1")),
        Some(String::from("matroska")),
        Some(String::from("1024")),
        Some(String::from("800000")),
        Some(String::from("h264")),
        Some(String::from("SHA256=abc")),
        480,
        4096,
    )
    .unwrap();
    assert_eq!(item.filename, "clip.mkv");
    assert_eq!(item.filepath, "/data/in/clip.mkv");
    assert_eq!(item.width, 640);
    assert_eq!(item.height, 480);
    assert_eq!(item.duration_ms, 7041);
    assert_eq!(item.size, 1024);
    assert_eq!(item.bitrate, 800000);
    assert_eq!(item.status, WorkStatus::Pending);
}

#[test]
fn absent_fields_enter_with_their_defaults() {
    let item = work_item_from_fields(
        Some(String::from("clip.mkv")),
        None,
        None,
        None,
        None,
        None,
        None,
        None,
        None,
        None,
        None,
        None,
        480,
        0,
    )
    .unwrap();
    assert_eq!(item.width, 0);
    assert_eq!(item.height, 0);
    assert_eq!(item.duration_ms, 0);
    assert_eq!(item.size, 0);
    assert_eq!(item.bitrate, 0);
    assert_eq!(item.pixel_format, "NaN");
    assert_eq!(item.display_aspect_ratio, "NaN");
    assert_eq!(item.sample_aspect_ratio, "NaN");
    assert_eq!(item.container, "NaN");
    assert_eq!(item.codec, "NaN");
    assert_eq!(item.content_hash, "NaN");

    assert!(work_item_from_fields(
        None,
        Some(640),
        Some(480),
        None,
        None,
        None,
        None,
        None,
        None,
        None,
        None,
        None,
        480,
        0,
    )
    .is_none());
}

#[test]
fn probe_report_fills_a_work_row() {
    let value: serde_json::Value = serde_json::from_str(&report(480)).unwrap();
    let item = work_item_from_probe(&value, 480, 4096).unwrap();
    assert_eq!(item.filename, "clip.mkv");
    assert_eq!(item.filepath, "/data/in/clip.mkv");
    assert_eq!(item.width, 640);
    assert_eq!(item.height, 480);
    assert_eq!(item.duration_ms, 7041);
    assert_eq!(item.pixel_format, "yuv420p");
    assert_eq!(item.display_aspect_ratio, "4:3");
    assert_eq!(item.sample_aspect_ratio, "1:1");
    assert_eq!(item.container, "matroska");
    assert_eq!(item.size, 1024);
    assert_eq!(item.folder_size, 4096);
    assert_eq!(item.bitrate, 800000);
    assert_eq!(item.codec, "h264");
    assert_eq!(item.resolution_limit, 480);
    assert_eq!(item.status, WorkStatus::Pending);
    assert_eq!(item.content_hash, "SHA256=abc");
}

#[test]
fn report_without_filename_is_unusable() {
    let value: serde_json::Value = serde_json::from_str("{\"streams\":[]}").unwrap();
    assert!(work_item_from_probe(&value, 480, 0).is_none());
}

#[test]
fn basenames_drop_every_leading_component() {
    assert_eq!(basename("/data/in/clip.mkv"), "clip.mkv");
    assert_eq!(basename("clip.mkv"), "clip.mkv");
    assert_eq!(basename(r#"C:\videos\clip.mkv"#), "clip.mkv");
    assert_eq!(basename("/trailing/"), "");
}

#[test]
fn numeric_probe_texts_parse_or_default() {
    assert_eq!(parse_i64_digits(" 800000\n"), Some(800000));
    assert_eq!(parse_i64_digits("none"), None);
    assert_eq!(text_as_i64_or_zero("1024"), 1024);
    assert_eq!(text_as_i64_or_zero("N/A"), 0);
}

#[test]
fn ceiling_decision_is_exact() {
    assert_eq!(height_within_limit(480, 480), 1);
    assert_eq!(height_within_limit(481, 480), 0);
    assert_eq!(height_within_limit(0, 480), 1);
}
