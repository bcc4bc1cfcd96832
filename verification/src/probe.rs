//! Reading the probe tool's JSON report: stream and format fields become
//! plain values, and the decisions over them are exact.

use vstd::prelude::*;

use crate::errors::JobError;
use crate::json::{json_as_i64, json_as_string, json_index, json_key};
use crate::media::{
    all_digits, duration_ms_or_zero, parse_u64_digits, spec_digits_value, spec_duration_ms_or_zero,
    spec_trim, trim_str,
};
use crate::workqueue::{WorkItem, WorkStatus};

verus! {

/// A path separator, either direction.
pub open spec fn is_sep(c: char) -> bool {
    c == '/' || c == '\\'
}

/// `name` is the basename of `path`: its suffix after the last separator,
/// itself free of separators.
pub open spec fn spec_is_basename(path: Seq<char>, name: Seq<char>) -> bool {
    exists|k: int|
        {
            &&& 0 <= k <= path.len()
            &&& name == path.skip(k)
            &&& (forall|j: int| k <= j < path.len() ==> !is_sep(path[j]))
            &&& (k == 0 || is_sep(path[k - 1]))
        }
}

/// The final path component.
pub fn basename(path: &str) -> (r: &str)
    ensures
        spec_is_basename(path@, r@),
{
    let len = path.unicode_len();
    let mut k: usize = len;
    while k > 0
        invariant_except_break
            len == path@.len(),
            0 <= k <= len,
            forall|j: int| k as int <= j < len as int ==> !is_sep(path@[j]),
        ensures
            0 <= k <= len,
            forall|j: int| k as int <= j < len as int ==> !is_sep(path@[j]),
            k as int == 0 || is_sep(path@[k as int - 1]),
        decreases k,
    {
        let c = path.get_char(k - 1);
        if c == '/' || c == '\\' {
            break ;
        }
        k = k - 1;
    }
    let r = path.substring_char(k, len);
    proof {
        assert(r@ =~= path@.skip(k as int));
        assert(spec_is_basename(path@, r@)) by {
            assert({
                &&& 0 <= k as int <= path@.len()
                &&& r@ == path@.skip(k as int)
                &&& (forall|j: int| k as int <= j < path@.len() ==> !is_sep(path@[j]))
                &&& (k as int == 0 || is_sep(path@[k as int - 1]))
            });
        }
    }
    r
}

/// The first video stream's height in a probe report text, when the text
/// is JSON and carries one.  The parse and the lookups depend on the
/// characters alone, so the result bears a name.
pub uninterp spec fn probed_height_of(s: Seq<char>) -> Option<i64>;

/// Relies on serde_json::from_str::<Value>, Value::get and Value::as_i64:
/// the integer under `streams[0].height` of the report text, `None` when
/// the text is not JSON or holds no such integer.
#[verifier::external_body]
fn probe_height(data: &str) -> (r: Option<i64>)
    ensures
        r == probed_height_of(data@),
{
    let parsed = match serde_json::from_str::<serde_json::Value>(data) {
        Ok(v) => v,
        Err(_) => return None,
    };
    match parsed.get("streams") {
        Some(streams) => match streams.get(0) {
            Some(stream) => match stream.get("height") {
                Some(h) => h.as_i64(),
                None => None,
            },
            None => None,
        },
        None => None,
    }
}

/// The first video stream's entry under this key, if the report has one.
fn stream_field<'a>(v: &'a serde_json::Value, key: &str) -> Option<&'a serde_json::Value> {
    match json_key(v, "streams") {
        Some(streams) => match json_index(streams, 0) {
            Some(stream) => json_key(stream, key),
            None => None,
        },
        None => None,
    }
}

/// The container format's entry under this key, if the report has one.
fn format_field<'a>(v: &'a serde_json::Value, key: &str) -> Option<&'a serde_json::Value> {
    match json_key(v, "format") {
        Some(format) => json_key(format, key),
        None => None,
    }
}

/// A stream field as an integer, when present as one.
fn stream_i64_opt(v: &serde_json::Value, key: &str) -> Option<i64> {
    match stream_field(v, key) {
        Some(f) => json_as_i64(f),
        None => None,
    }
}

/// A stream field as text, when present as one.
fn stream_text_opt(v: &serde_json::Value, key: &str) -> Option<String> {
    match stream_field(v, key) {
        Some(f) => json_as_string(f),
        None => None,
    }
}

/// A format field as text, when present as one.
fn format_text_opt(v: &serde_json::Value, key: &str) -> Option<String> {
    match format_field(v, key) {
        Some(f) => json_as_string(f),
        None => None,
    }
}

/// Whether a probed height is within the configured ceiling: one when the
/// file is to be processed, zero when it is to be skipped.
pub fn height_within_limit(height: i64, limit: i64) -> (r: i8)
    ensures
        r == 1 <==> limit >= height,
        r == 0 <==> limit < height,
{
    if limit >= height {
        1
    } else {
        0
    }
}

/// Parse a digit-only text as a signed value.  `None` when it is not a
/// plain in-range number.
pub fn parse_i64_digits(s: &str) -> (r: Option<i64>)
    ensures
        r matches Some(v) ==> all_digits(spec_trim(s@)) && v == spec_digits_value(spec_trim(s@)),
        r is None ==> !all_digits(spec_trim(s@)) || spec_digits_value(spec_trim(s@)) > i64::MAX,
{
    let t = trim_str(s);
    match parse_u64_digits(t) {
        Some(v) => {
            if v <= i64::MAX as u64 {
                Some(v as i64)
            } else {
                None
            }
        },
        None => None,
    }
}

/// Decide from a probe report whether a file is within the resolution
/// ceiling: one for "process", zero for "skip".  The report text must
/// carry a first-stream height and the ceiling must be a plain number,
/// else the metadata is undetermined and that is a probe error.
pub fn check_ffprobe_output_i8(data: &str, res: &str) -> (r: Result<i8, JobError>)
    ensures
        !all_digits(spec_trim(res@)) || spec_digits_value(spec_trim(res@)) > i64::MAX ==> r
            == Result::<i8, JobError>::Err(JobError::Probe),
        all_digits(spec_trim(res@)) && spec_digits_value(spec_trim(res@)) <= i64::MAX
            && probed_height_of(data@) is None ==> r == Result::<i8, JobError>::Err(JobError::Probe),
        all_digits(spec_trim(res@)) && spec_digits_value(spec_trim(res@)) <= i64::MAX
            && probed_height_of(data@) is Some ==> r == Result::<i8, JobError>::Ok(
            if spec_digits_value(spec_trim(res@)) >= probed_height_of(data@)->0 {
                1i8
            } else {
                0i8
            },
        ),
{
    let limit = match parse_i64_digits(res) {
        Some(v) => v,
        None => { return Err(JobError::Probe) },
    };
    let height = match probe_height(data) {
        Some(h) => h,
        None => { return Err(JobError::Probe) },
    };
    Ok(height_within_limit(height, limit))
}

/// A numeric probe text denotes its number when it is a plain in-range
/// decimal, and zero otherwise.
pub open spec fn spec_text_i64_or_zero(s: Seq<char>) -> int {
    if all_digits(spec_trim(s)) && spec_digits_value(spec_trim(s)) <= i64::MAX {
        spec_digits_value(spec_trim(s))
    } else {
        0
    }
}

/// A numeric probe text as a signed value, zero when it is not a plain
/// in-range number.
pub fn text_as_i64_or_zero(s: &str) -> (r: i64)
    ensures
        r == spec_text_i64_or_zero(s@),
{
    match parse_i64_digits(s) {
        Some(v) => v,
        None => 0,
    }
}

/// A text field's value, or the probe tool's own "not available" marker
/// when the report omitted it.
fn text_or_nan(o: Option<String>) -> (r: String)
    ensures
        r@ == (match o {
            Some(s) => s@,
            None => "NaN"@,
        }),
{
    match o {
        Some(s) => s,
        None => "NaN".to_owned(),
    }
}

/// Build a work-queue row from the probe report's fields as plain values.
/// A row exists exactly when the report named its file — an unnamed file
/// cannot be keyed.  The filename is the basename of the reported path;
/// an absent numeric field enters as zero, an unparsable duration or
/// size as zero, and an absent text field as the probe's own "not
/// available" marker.  The caller's ceiling and the folder size — summed
/// by the shell — are recorded on the row; the status is decided at
/// insertion.
pub fn work_item_from_fields(
    filepath: Option<String>,
    width: Option<i64>,
    height: Option<i64>,
    duration_text: Option<String>,
    pixel_format: Option<String>,
    display_aspect_ratio: Option<String>,
    sample_aspect_ratio: Option<String>,
    container: Option<String>,
    size_text: Option<String>,
    bitrate_text: Option<String>,
    codec: Option<String>,
    content_hash: Option<String>,
    resolution_limit: i64,
    folder_size: i64,
) -> (r: Option<WorkItem>)
    ensures
        r is Some <==> filepath is Some,
        r matches Some(item) ==> {
            &&& item.filepath == filepath->0
            &&& spec_is_basename(item.filepath@, item.filename@)
            &&& item.width == (match width {
                Some(w) => w,
                None => 0i64,
            })
            &&& item.height == (match height {
                Some(h) => h,
                None => 0i64,
            })
            &&& item.duration_ms == (match duration_text {
                Some(t) => spec_duration_ms_or_zero(t@),
                None => 0int,
            })
            &&& item.pixel_format@ == (match pixel_format {
                Some(s) => s@,
                None => "NaN"@,
            })
            &&& item.display_aspect_ratio@ == (match display_aspect_ratio {
                Some(s) => s@,
                None => "NaN"@,
            })
            &&& item.sample_aspect_ratio@ == (match sample_aspect_ratio {
                Some(s) => s@,
                None => "NaN"@,
            })
            &&& item.container@ == (match container {
                Some(s) => s@,
                None => "NaN"@,
            })
            &&& item.size == (match size_text {
                Some(t) => spec_text_i64_or_zero(t@),
                None => 0int,
            })
            &&& item.bitrate == (match bitrate_text {
                Some(t) => spec_text_i64_or_zero(t@),
                None => 0int,
            })
            &&& item.codec@ == (match codec {
                Some(s) => s@,
                None => "NaN"@,
            })
            &&& item.content_hash@ == (match content_hash {
                Some(s) => s@,
                None => "NaN"@,
            })
            &&& item.resolution_limit == resolution_limit
            &&& item.folder_size == folder_size
            &&& item.status == WorkStatus::Pending
        },
{
    let filepath = match filepath {
        Some(p) => p,
        None => { return None },
    };
    let filename = basename(filepath.as_str()).to_owned();
    let duration_ms = match duration_text {
        Some(t) => duration_ms_or_zero(t.as_str()),
        None => 0,
    };
    let size = match size_text {
        Some(t) => text_as_i64_or_zero(t.as_str()),
        None => 0,
    };
    let bitrate = match bitrate_text {
        Some(t) => text_as_i64_or_zero(t.as_str()),
        None => 0,
    };
    let item = WorkItem {
        filename,
        filepath,
        width: width.unwrap_or(0),
        height: height.unwrap_or(0),
        duration_ms,
        pixel_format: text_or_nan(pixel_format),
        display_aspect_ratio: text_or_nan(display_aspect_ratio),
        sample_aspect_ratio: text_or_nan(sample_aspect_ratio),
        container: text_or_nan(container),
        size,
        folder_size,
        bitrate,
        codec: text_or_nan(codec),
        resolution_limit,
        status: WorkStatus::Pending,
        content_hash: text_or_nan(content_hash),
    };
    Some(item)
}

/// Build a work-queue row straight from a parsed probe report: the
/// report's fields are taken out as plain values and handed to
/// `work_item_from_fields`, which carries the exact contract — a parsed
/// report is opaque here, so nothing more can be promised of it.
pub fn work_item_from_probe(v: &serde_json::Value, resolution_limit: i64, folder_size: i64) -> (r:
    Option<WorkItem>)
    ensures
        r matches Some(item) ==> {
            &&& spec_is_basename(item.filepath@, item.filename@)
            &&& item.resolution_limit == resolution_limit
            &&& item.folder_size == folder_size
            &&& item.status == WorkStatus::Pending
        },
{
    work_item_from_fields(
        format_text_opt(v, "filename"),
        stream_i64_opt(v, "width"),
        stream_i64_opt(v, "height"),
        format_text_opt(v, "duration"),
        stream_text_opt(v, "pix_fmt"),
        stream_text_opt(v, "display_aspect_ratio"),
        stream_text_opt(v, "sample_aspect_ratio"),
        format_text_opt(v, "format_name"),
        format_text_opt(v, "size"),
        format_text_opt(v, "bit_rate"),
        stream_text_opt(v, "codec_name"),
        stream_text_opt(v, "extradata_hash"),
        resolution_limit,
        folder_size,
    )
}

} // verus!
