//! The exact argument lists handed to the external tools: the frame
//! exporter and segment encoders of the media toolkit, and the
//! neural upscaler.  The shell only spawns what is built here.

use vstd::prelude::*;

use crate::fmt::{spec_decimal, u64_to_decimal};
use crate::media::FrameRate;
use crate::workqueue::str_equal;

verus! {

/// The `numerator/denominator` text of a frame rate.
pub fn frame_rate_arg(rate: FrameRate) -> (r: String)
    ensures
        r@ == spec_decimal(rate.num as int) + seq!['/'] + spec_decimal(rate.den as int),
{
    proof {
        reveal_strlit("/");
    }
    let mut out = u64_to_decimal(rate.num as u64);
    out.append("/");
    out.append(u64_to_decimal(rate.den as u64).as_str());
    proof {
        assert(out@ =~= spec_decimal(rate.num as int) + seq!['/'] + spec_decimal(rate.den as int));
    }
    out
}

/// The exporter invocation: seek to the segment's start, decode exactly
/// its frame count at full quality, and write the numbered frame images.
pub fn export_frames_args(input_path: &str, output_pattern: &str, start_time: &str, frames: u32)
    -> (r: Vec<String>)
    ensures
        r@.map_values(|a: String| a@) == seq![
            "-v"@,
            "verbose"@,
            "-ss"@,
            start_time@,
            "-i"@,
            input_path@,
            "-qscale:v"@,
            "1"@,
            "-qmin"@,
            "1"@,
            "-qmax"@,
            "1"@,
            "-vsync"@,
            "0"@,
            "-vframes"@,
            spec_decimal(frames as int),
            output_pattern@,
        ],
{
    let mut args: Vec<String> = Vec::new();
    args.push("-v".to_owned());
    args.push("verbose".to_owned());
    args.push("-ss".to_owned());
    args.push(start_time.to_owned());
    args.push("-i".to_owned());
    args.push(input_path.to_owned());
    args.push("-qscale:v".to_owned());
    args.push("1".to_owned());
    args.push("-qmin".to_owned());
    args.push("1".to_owned());
    args.push("-qmax".to_owned());
    args.push("1".to_owned());
    args.push("-vsync".to_owned());
    args.push("0".to_owned());
    args.push("-vframes".to_owned());
    args.push(u64_to_decimal(frames as u64));
    args.push(output_pattern.to_owned());
    proof {
        assert(args@.map_values(|a: String| a@) =~= seq![
            "-v"@,
            "verbose"@,
            "-ss"@,
            start_time@,
            "-i"@,
            input_path@,
            "-qscale:v"@,
            "1"@,
            "-qmin"@,
            "1"@,
            "-qmax"@,
            "1"@,
            "-vsync"@,
            "0"@,
            "-vframes"@,
            spec_decimal(frames as int),
            output_pattern@,
        ]);
    }
    args
}

/// The upscaler invocation: read the exported frames, write the upscaled ones with the animation-video model at the configured scale factor.
pub fn upscale_frames_args(input_dir: &str, output_dir: &str, scale: u8) -> (r: Vec<String>)
    ensures
        r@.map_values(|a: String| a@) == seq![
            "-i"@,
            input_dir@,
            "-o"@,
            output_dir@,
            "-n"@,
            "realesr-animevideov3-x2"@,
            "-s"@,
            spec_decimal(scale as int),
            "-f"@,
            "png"@,
            "-v"@,
        ],
{
    let mut args: Vec<String> = Vec::new();
    args.push("-i".to_owned());
    args.push(input_dir.to_owned());
    args.push("-o".to_owned());
    args.push(output_dir.to_owned());
    args.push("-n".to_owned());
    args.push("realesr-animevideov3-x2".to_owned());
    args.push("-s".to_owned());
    args.push(u64_to_decimal(scale as u64));
    args.push("-f".to_owned());
    args.push("png".to_owned());
    args.push("-v".to_owned());
    proof {
        assert(args@.map_values(|a: String| a@) =~= seq![
            "-i"@,
            input_dir@,
            "-o"@,
            output_dir@,
            "-n"@,
            "realesr-animevideov3-x2"@,
            "-s"@,
            spec_decimal(scale as int),
            "-f"@,
            "png"@,
            "-v"@,
        ]);
    }
    args
}

/// The encoder invocation for the default encoder: read the upscaled frame images at the source frame rate and encode one segment file with the configured quality, preset and encoder parameters.
pub fn merge_frames_args(input_pattern: &str, output_path: &str, codec: &str, rate: FrameRate, crf: u8, preset: &str, x265_params: &str) -> (r: Vec<String>)
    ensures
        r@.map_values(|a: String| a@) == seq![
            "-v"@,
            "verbose"@,
            "-f"@,
            "image2"@,
            "-framerate"@,
            spec_decimal(rate.num as int) + seq!['/'] + spec_decimal(rate.den as int),
            "-i"@,
            input_pattern@,
            "-c:v"@,
            codec@,
            "-pix_fmt"@,
            "yuv420p10le"@,
            "-crf"@,
            spec_decimal(crf as int),
            "-preset"@,
            preset@,
            "-x265-params"@,
            x265_params@,
            output_path@,
        ],
{
    let mut args: Vec<String> = Vec::new();
    args.push("-v".to_owned());
    args.push("verbose".to_owned());
    args.push("-f".to_owned());
    args.push("image2".to_owned());
    args.push("-framerate".to_owned());
    args.push(frame_rate_arg(rate));
    args.push("-i".to_owned());
    args.push(input_pattern.to_owned());
    args.push("-c:v".to_owned());
    args.push(codec.to_owned());
    args.push("-pix_fmt".to_owned());
    args.push("yuv420p10le".to_owned());
    args.push("-crf".to_owned());
    args.push(u64_to_decimal(crf as u64));
    args.push("-preset".to_owned());
    args.push(preset.to_owned());
    args.push("-x265-params".to_owned());
    args.push(x265_params.to_owned());
    args.push(output_path.to_owned());
    proof {
        assert(args@.map_values(|a: String| a@) =~= seq![
            "-v"@,
            "verbose"@,
            "-f"@,
            "image2"@,
            "-framerate"@,
            spec_decimal(rate.num as int) + seq!['/'] + spec_decimal(rate.den as int),
            "-i"@,
            input_pattern@,
            "-c:v"@,
            codec@,
            "-pix_fmt"@,
            "yuv420p10le"@,
            "-crf"@,
            spec_decimal(crf as int),
            "-preset"@,
            preset@,
            "-x265-params"@,
            x265_params@,
            output_path@,
        ]);
    }
    args
}

/// The encoder invocation for the SVT HEVC encoder.
pub fn merge_frames_svt_hevc_args(input_pattern: &str, output_path: &str, codec: &str, rate: FrameRate, crf: u8) -> (r: Vec<String>)
    ensures
        r@.map_values(|a: String| a@) == seq![
            "-v"@,
            "verbose"@,
            "-f"@,
            "image2"@,
            "-framerate"@,
            spec_decimal(rate.num as int) + seq!['/'] + spec_decimal(rate.den as int),
            "-i"@,
            input_pattern@,
            "-c:v"@,
            codec@,
            "-rc"@,
            "0"@,
            "-qp"@,
            spec_decimal(crf as int),
            "-tune"@,
            "0"@,
            "-pix_fmt"@,
            "yuv420p10le"@,
            "-crf"@,
            spec_decimal(crf as int),
            output_path@,
        ],
{
    let mut args: Vec<String> = Vec::new();
    args.push("-v".to_owned());
    args.push("verbose".to_owned());
    args.push("-f".to_owned());
    args.push("image2".to_owned());
    args.push("-framerate".to_owned());
    args.push(frame_rate_arg(rate));
    args.push("-i".to_owned());
    args.push(input_pattern.to_owned());
    args.push("-c:v".to_owned());
    args.push(codec.to_owned());
    args.push("-rc".to_owned());
    args.push("0".to_owned());
    args.push("-qp".to_owned());
    args.push(u64_to_decimal(crf as u64));
    args.push("-tune".to_owned());
    args.push("0".to_owned());
    args.push("-pix_fmt".to_owned());
    args.push("yuv420p10le".to_owned());
    args.push("-crf".to_owned());
    args.push(u64_to_decimal(crf as u64));
    args.push(output_path.to_owned());
    proof {
        assert(args@.map_values(|a: String| a@) =~= seq![
            "-v"@,
            "verbose"@,
            "-f"@,
            "image2"@,
            "-framerate"@,
            spec_decimal(rate.num as int) + seq!['/'] + spec_decimal(rate.den as int),
            "-i"@,
            input_pattern@,
            "-c:v"@,
            codec@,
            "-rc"@,
            "0"@,
            "-qp"@,
            spec_decimal(crf as int),
            "-tune"@,
            "0"@,
            "-pix_fmt"@,
            "yuv420p10le"@,
            "-crf"@,
            spec_decimal(crf as int),
            output_path@,
        ]);
    }
    args
}

/// The encoder invocation for the SVT AV1 encoder.
pub fn merge_frames_svt_av1_args(input_pattern: &str, output_path: &str, codec: &str, rate: FrameRate, crf: u8) -> (r: Vec<String>)
    ensures
        r@.map_values(|a: String| a@) == seq![
            "-v"@,
            "verbose"@,
            "-f"@,
            "image2"@,
            "-framerate"@,
            spec_decimal(rate.num as int) + seq!['/'] + spec_decimal(rate.den as int),
            "-i"@,
            input_pattern@,
            "-c:v"@,
            codec@,
            "-pix_fmt"@,
            "yuv420p10le"@,
            "-crf"@,
            spec_decimal(crf as int),
            output_path@,
        ],
{
    let mut args: Vec<String> = Vec::new();
    args.push("-v".to_owned());
    args.push("verbose".to_owned());
    args.push("-f".to_owned());
    args.push("image2".to_owned());
    args.push("-framerate".to_owned());
    args.push(frame_rate_arg(rate));
    args.push("-i".to_owned());
    args.push(input_pattern.to_owned());
    args.push("-c:v".to_owned());
    args.push(codec.to_owned());
    args.push("-pix_fmt".to_owned());
    args.push("yuv420p10le".to_owned());
    args.push("-crf".to_owned());
    args.push(u64_to_decimal(crf as u64));
    args.push(output_path.to_owned());
    proof {
        assert(args@.map_values(|a: String| a@) =~= seq![
            "-v"@,
            "verbose"@,
            "-f"@,
            "image2"@,
            "-framerate"@,
            spec_decimal(rate.num as int) + seq!['/'] + spec_decimal(rate.den as int),
            "-i"@,
            input_pattern@,
            "-c:v"@,
            codec@,
            "-pix_fmt"@,
            "yuv420p10le"@,
            "-crf"@,
            spec_decimal(crf as int),
            output_path@,
        ]);
    }
    args
}

/// The concat invocation: stitch the encoded parts of the playlist into one stream, copying, never re-encoding.
pub fn merge_video_parts_args(list_path: &str, output_path: &str) -> (r: Vec<String>)
    ensures
        r@.map_values(|a: String| a@) == seq![
            "-f"@,
            "concat"@,
            "-safe"@,
            "0"@,
            "-i"@,
            list_path@,
            "-c"@,
            "copy"@,
            output_path@,
        ],
{
    let mut args: Vec<String> = Vec::new();
    args.push("-f".to_owned());
    args.push("concat".to_owned());
    args.push("-safe".to_owned());
    args.push("0".to_owned());
    args.push("-i".to_owned());
    args.push(list_path.to_owned());
    args.push("-c".to_owned());
    args.push("copy".to_owned());
    args.push(output_path.to_owned());
    proof {
        assert(args@.map_values(|a: String| a@) =~= seq![
            "-f"@,
            "concat"@,
            "-safe"@,
            "0"@,
            "-i"@,
            list_path@,
            "-c"@,
            "copy"@,
            output_path@,
        ]);
    }
    args
}

/// The concat invocation for a source declaring a display aspect ratio: the ratio is reasserted on the stitched stream.
pub fn merge_video_parts_dar_args(list_path: &str, output_path: &str, dar: &str) -> (r: Vec<String>)
    ensures
        r@.map_values(|a: String| a@) == seq![
            "-f"@,
            "concat"@,
            "-safe"@,
            "0"@,
            "-i"@,
            list_path@,
            "-aspect"@,
            dar@,
            "-c"@,
            "copy"@,
            output_path@,
        ],
{
    let mut args: Vec<String> = Vec::new();
    args.push("-f".to_owned());
    args.push("concat".to_owned());
    args.push("-safe".to_owned());
    args.push("0".to_owned());
    args.push("-i".to_owned());
    args.push(list_path.to_owned());
    args.push("-aspect".to_owned());
    args.push(dar.to_owned());
    args.push("-c".to_owned());
    args.push("copy".to_owned());
    args.push(output_path.to_owned());
    proof {
        assert(args@.map_values(|a: String| a@) =~= seq![
            "-f"@,
            "concat"@,
            "-safe"@,
            "0"@,
            "-i"@,
            list_path@,
            "-aspect"@,
            dar@,
            "-c"@,
            "copy"@,
            output_path@,
        ]);
    }
    args
}

/// The remux invocation: the new video stream plus every non-video stream of the original, copied onto the output.
pub fn copy_streams_args(video_input_path: &str, copy_input_path: &str, output_path: &str) -> (r: Vec<String>)
    ensures
        r@.map_values(|a: String| a@) == seq![
            "-hide_banner"@,
            "-v"@,
            "error"@,
            "-y"@,
            "-i"@,
            video_input_path@,
            "-i"@,
            copy_input_path@,
            "-map"@,
            "0:v"@,
            "-map"@,
            "1"@,
            "-map"@,
            "-1:v"@,
            "-c"@,
            "copy"@,
            output_path@,
        ],
{
    let mut args: Vec<String> = Vec::new();
    args.push("-hide_banner".to_owned());
    args.push("-v".to_owned());
    args.push("error".to_owned());
    args.push("-y".to_owned());
    args.push("-i".to_owned());
    args.push(video_input_path.to_owned());
    args.push("-i".to_owned());
    args.push(copy_input_path.to_owned());
    args.push("-map".to_owned());
    args.push("0:v".to_owned());
    args.push("-map".to_owned());
    args.push("1".to_owned());
    args.push("-map".to_owned());
    args.push("-1:v".to_owned());
    args.push("-c".to_owned());
    args.push("copy".to_owned());
    args.push(output_path.to_owned());
    proof {
        assert(args@.map_values(|a: String| a@) =~= seq![
            "-hide_banner"@,
            "-v"@,
            "error"@,
            "-y"@,
            "-i"@,
            video_input_path@,
            "-i"@,
            copy_input_path@,
            "-map"@,
            "0:v"@,
            "-map"@,
            "1"@,
            "-map"@,
            "-1:v"@,
            "-c"@,
            "copy"@,
            output_path@,
        ]);
    }
    args
}

/// The remux invocation for an input carrying a binary data stream: data streams are explicitly excluded from the mapping.
pub fn copy_streams_no_bin_data_args(video_input_path: &str, copy_input_path: &str, output_path: &str) -> (r: Vec<String>)
    ensures
        r@.map_values(|a: String| a@) == seq![
            "-hide_banner"@,
            "-v"@,
            "error"@,
            "-y"@,
            "-i"@,
            video_input_path@,
            "-i"@,
            copy_input_path@,
            "-map"@,
            "0:v"@,
            "-map"@,
            "1"@,
            "-map"@,
            "-1:d"@,
            "-map"@,
            "-1:v"@,
            "-c"@,
            "copy"@,
            output_path@,
        ],
{
    let mut args: Vec<String> = Vec::new();
    args.push("-hide_banner".to_owned());
    args.push("-v".to_owned());
    args.push("error".to_owned());
    args.push("-y".to_owned());
    args.push("-i".to_owned());
    args.push(video_input_path.to_owned());
    args.push("-i".to_owned());
    args.push(copy_input_path.to_owned());
    args.push("-map".to_owned());
    args.push("0:v".to_owned());
    args.push("-map".to_owned());
    args.push("1".to_owned());
    args.push("-map".to_owned());
    args.push("-1:d".to_owned());
    args.push("-map".to_owned());
    args.push("-1:v".to_owned());
    args.push("-c".to_owned());
    args.push("copy".to_owned());
    args.push(output_path.to_owned());
    proof {
        assert(args@.map_values(|a: String| a@) =~= seq![
            "-hide_banner"@,
            "-v"@,
            "error"@,
            "-y"@,
            "-i"@,
            video_input_path@,
            "-i"@,
            copy_input_path@,
            "-map"@,
            "0:v"@,
            "-map"@,
            "1"@,
            "-map"@,
            "-1:d"@,
            "-map"@,
            "-1:v"@,
            "-c"@,
            "copy"@,
            output_path@,
        ]);
    }
    args
}

/// The single-pass concat-and-remux invocation: the playlist's parts as the video, with the original's audio, subtitles and chapters carried over.
pub fn concat_remux_args(list_path: &str, input_path: &str, output_path: &str) -> (r: Vec<String>)
    ensures
        r@.map_values(|a: String| a@) == seq![
            "-f"@,
            "concat"@,
            "-safe"@,
            "0"@,
            "-i"@,
            list_path@,
            "-i"@,
            input_path@,
            "-map"@,
            "0:v"@,
            "-map"@,
            "1:a?"@,
            "-map"@,
            "1:s?"@,
            "-map_chapters"@,
            "1"@,
            "-c"@,
            "copy"@,
            output_path@,
        ],
{
    let mut args: Vec<String> = Vec::new();
    args.push("-f".to_owned());
    args.push("concat".to_owned());
    args.push("-safe".to_owned());
    args.push("0".to_owned());
    args.push("-i".to_owned());
    args.push(list_path.to_owned());
    args.push("-i".to_owned());
    args.push(input_path.to_owned());
    args.push("-map".to_owned());
    args.push("0:v".to_owned());
    args.push("-map".to_owned());
    args.push("1:a?".to_owned());
    args.push("-map".to_owned());
    args.push("1:s?".to_owned());
    args.push("-map_chapters".to_owned());
    args.push("1".to_owned());
    args.push("-c".to_owned());
    args.push("copy".to_owned());
    args.push(output_path.to_owned());
    proof {
        assert(args@.map_values(|a: String| a@) =~= seq![
            "-f"@,
            "concat"@,
            "-safe"@,
            "0"@,
            "-i"@,
            list_path@,
            "-i"@,
            input_path@,
            "-map"@,
            "0:v"@,
            "-map"@,
            "1:a?"@,
            "-map"@,
            "1:s?"@,
            "-map_chapters"@,
            "1"@,
            "-c"@,
            "copy"@,
            output_path@,
        ]);
    }
    args
}

/// The concat invocation a job needs: the plain stitch when the source
/// declares no display aspect ratio — probed as the `0` sentinel — and
/// the ratio-reasserting one otherwise.
pub fn concat_invocation(list_path: &str, output_path: &str, dar: &str) -> (r: Vec<String>)
    ensures
        dar@ == "0"@ ==> r@.map_values(|a: String| a@) == seq![
            "-f"@,
            "concat"@,
            "-safe"@,
            "0"@,
            "-i"@,
            list_path@,
            "-c"@,
            "copy"@,
            output_path@,
        ],
        dar@ != "0"@ ==> r@.map_values(|a: String| a@) == seq![
            "-f"@,
            "concat"@,
            "-safe"@,
            "0"@,
            "-i"@,
            list_path@,
            "-aspect"@,
            dar@,
            "-c"@,
            "copy"@,
            output_path@,
        ],
{
    if str_equal(dar, "0") {
        merge_video_parts_args(list_path, output_path)
    } else {
        merge_video_parts_dar_args(list_path, output_path, dar)
    }
}

} // verus!
