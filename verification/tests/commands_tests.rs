use reve::commands::{
    concat_invocation, concat_remux_args, copy_streams_args, copy_streams_no_bin_data_args,
    export_frames_args, frame_rate_arg, merge_frames_args, merge_frames_svt_av1_args,
    merge_frames_svt_hevc_args, merge_video_parts_args, merge_video_parts_dar_args,
    upscale_frames_args,
};
use reve::fmt::{millis_to_seconds_text, u64_to_decimal};
use reve::media::FrameRate;

#[test]
fn decimal_rendering_is_plain() {
    assert_eq!(u64_to_decimal(0), "0");
    assert_eq!(u64_to_decimal(7), "7");
    assert_eq!(u64_to_decimal(12345), "12345");
    assert_eq!(u64_to_decimal(u64::MAX), "18446744073709551615");
}

#[test]
fn seek_times_render_with_milliseconds() {
    assert_eq!(millis_to_seconds_text(12_345), "12.345");
    assert_eq!(millis_to_seconds_text(7), "0.007");
    assert_eq!(millis_to_seconds_text(39_960), "39.960");
    assert_eq!(millis_to_seconds_text(0), "0.000");
}

#[test]
fn rates_render_as_fractions() {
    assert_eq!(frame_rate_arg(FrameRate { num: 30000, den: 1001 }), "30000/1001");
    assert_eq!(frame_rate_arg(FrameRate { num: 25, den: 1 }), "25/1");
}

#[test]
fn export_invocation_is_exact() {
    assert_eq!(
        export_frames_args("/in/a.mkv", "temp/tmp_frames/0/frame%08d.png", "0", 1000),
        vec![
            "-v", "verbose", "-ss", "0", "-i", "/in/a.mkv", "-qscale:v", "1", "-qmin", "1",
            "-qmax", "1", "-vsync", "0", "-vframes", "1000", "temp/tmp_frames/0/frame%08d.png",
        ]
    );
}

#[test]
fn upscale_invocation_is_exact() {
    assert_eq!(
        upscale_frames_args("temp/tmp_frames/0", "temp/out_frames/0", 2),
        vec![
            "-i", "temp/tmp_frames/0", "-o", "temp/out_frames/0", "-n",
            "realesr-animevideov3-x2", "-s", "2", "-f", "png", "-v",
        ]
    );
}

#[test]
fn encode_invocations_are_exact() {
    let rate = FrameRate { num: 24, den: 1 };
    assert_eq!(
        merge_frames_args(
            "temp/out_frames/0/frame%08d.png",
            "temp/video_parts/0.mp4",
            "libx265",
            rate,
            15,
            "slow",
            "psy-rd=2",
        ),
        vec![
            "-v", "verbose", "-f", "image2", "-framerate", "24/1", "-i",
            "temp/out_frames/0/frame%08d.png", "-c:v", "libx265", "-pix_fmt", "yuv420p10le",
            "-crf", "15", "-preset", "slow", "-x265-params", "psy-rd=2",
            "temp/video_parts/0.mp4",
        ]
    );
    assert_eq!(
        merge_frames_svt_hevc_args("in/%d.png", "out.mp4", "libsvt_hevc", rate, 15),
        vec![
            "-v", "verbose", "-f", "image2", "-framerate", "24/1", "-i", "in/%d.png", "-c:v",
            "libsvt_hevc", "-rc", "0", "-qp", "15", "-tune", "0", "-pix_fmt", "yuv420p10le",
            "-crf", "15", "out.mp4",
        ]
    );
    assert_eq!(
        merge_frames_svt_av1_args("in/%d.png", "out.mp4", "libsvtav1", rate, 15),
        vec![
            "-v", "verbose", "-f", "image2", "-framerate", "24/1", "-i", "in/%d.png", "-c:v",
            "libsvtav1", "-pix_fmt", "yuv420p10le", "-crf", "15", "out.mp4",
        ]
    );
}

#[test]
fn concat_and_remux_invocations_are_exact() {
    assert_eq!(
        merge_video_parts_args("temp/parts.txt", "temp/temp.mp4"),
        vec!["-f", "concat", "-safe", "0", "-i", "temp/parts.txt", "-c", "copy", "temp/temp.mp4"]
    );
    assert_eq!(
        merge_video_parts_dar_args("temp/parts.txt", "temp/temp.mp4", "4:3"),
        vec![
            "-f", "concat", "-safe", "0", "-i", "temp/parts.txt", "-aspect", "4:3", "-c", "copy",
            "temp/temp.mp4",
        ]
    );
    assert_eq!(
        copy_streams_args("temp/temp.mp4", "/in/a.mkv", "/out/a.mkv"),
        vec![
            "-hide_banner", "-v", "error", "-y", "-i", "temp/temp.mp4", "-i", "/in/a.mkv",
            "-map", "0:v", "-map", "1", "-map", "-1:v", "-c", "copy", "/out/a.mkv",
        ]
    );
    assert_eq!(
        copy_streams_no_bin_data_args("temp/temp.mp4", "/in/a.mkv", "/out/a.mkv"),
        vec![
            "-hide_banner", "-v", "error", "-y", "-i", "temp/temp.mp4", "-i", "/in/a.mkv",
            "-map", "0:v", "-map", "1", "-map", "-1:d", "-map", "-1:v", "-c", "copy",
            "/out/a.mkv",
        ]
    );
    assert_eq!(
        concat_invocation("temp/parts.txt", "temp/temp.mp4", "0"),
        merge_video_parts_args("temp/parts.txt", "temp/temp.mp4")
    );
    assert_eq!(
        concat_invocation("temp/parts.txt", "temp/temp.mp4", "4:3"),
        merge_video_parts_dar_args("temp/parts.txt", "temp/temp.mp4", "4:3")
    );
    assert_eq!(
        concat_remux_args("temp/parts.txt", "/in/a.mkv", "/out/a.mkv"),
        vec![
            "-f", "concat", "-safe", "0", "-i", "temp/parts.txt", "-i", "/in/a.mkv", "-map",
            "0:v", "-map", "1:a?", "-map", "1:s?", "-map_chapters", "1", "-c", "copy",
            "/out/a.mkv",
        ]
    );
}
