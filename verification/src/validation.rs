//! Input checks: path extensions, encoder names and presets, the
//! resolution ceiling, and what the encoder binary's banner supports.

use vstd::prelude::*;

use crate::media::{all_digits, spec_trim, trim_str};
use crate::progress::{contains_marker, spec_contains};
use crate::workqueue::str_equal;

verus! {

/// The part of a name after its last dot: the whole name when it has
/// none, empty when it ends in one.
pub open spec fn spec_extension(s: Seq<char>) -> Seq<char>
    decreases s.len(),
{
    if s.len() == 0 {
        s
    } else if s.last() == '.' {
        Seq::empty()
    } else {
        spec_extension(s.drop_last()).push(s.last())
    }
}

proof fn lemma_extension_no_dot(s: Seq<char>)
    requires
        forall|j: int| 0 <= j < s.len() ==> s[j] != '.',
    ensures
        spec_extension(s) == s,
    decreases s.len(),
{
    if s.len() > 0 {
        lemma_extension_no_dot(s.drop_last());
        assert(spec_extension(s) =~= s);
    }
}

proof fn lemma_extension_after_dot(s: Seq<char>, k: int)
    requires
        0 <= k < s.len(),
        s[k] == '.',
        forall|j: int| k < j < s.len() ==> s[j] != '.',
    ensures
        spec_extension(s) == s.skip(k + 1),
    decreases s.len(),
{
    if k == s.len() - 1 {
        assert(spec_extension(s) =~= s.skip(k + 1));
    } else {
        lemma_extension_after_dot(s.drop_last(), k);
        assert(s.drop_last().skip(k + 1).push(s.last()) =~= s.skip(k + 1));
    }
}

/// The text after the last dot of a name.
pub fn extension_of(s: &str) -> (r: &str)
    ensures
        r@ == spec_extension(s@),
{
    let len = s.unicode_len();
    let mut k: usize = len;
    while k > 0
        invariant_except_break
            len == s@.len(),
            0 <= k <= len,
            forall|j: int| k as int <= j < len as int ==> s@[j] != '.',
        ensures
            0 <= k <= len,
            forall|j: int| k as int <= j < len as int ==> s@[j] != '.',
            k as int >= 1 ==> s@[k as int - 1] == '.',
        decreases k,
    {
        if s.get_char(k - 1) == '.' {
            break ;
        }
        k = k - 1;
    }
    let r = s.substring_char(k, len);
    proof {
        assert(r@ =~= s@.skip(k as int));
        if k == 0 {
            lemma_extension_no_dot(s@);
        } else {
            lemma_extension_after_dot(s@, k as int - 1);
        }
    }
    r
}

/// The container extensions the upscaler accepts as its input and
/// output.
pub open spec fn spec_is_io_ext(e: Seq<char>) -> bool {
    e == "mp4"@ || e == "mkv"@ || e == "avi"@
}

/// Every container extension known to hold video, the discovery
/// allow-list of directory mode.
pub open spec fn spec_is_video_ext(e: Seq<char>) -> bool {
    ||| e == "mkv"@
    ||| e == "avi"@
    ||| e == "mp4"@
    ||| e == "divx"@
    ||| e == "flv"@
    ||| e == "m4v"@
    ||| e == "mov"@
    ||| e == "ogv"@
    ||| e == "ts"@
    ||| e == "webm"@
    ||| e == "wmv"@
}

/// Whether an extension is one the job accepts for its input and output
/// files.
fn is_io_ext(e: &str) -> (r: bool)
    ensures
        r == spec_is_io_ext(e@),
{
    str_equal(e, "mp4") || str_equal(e, "mkv") || str_equal(e, "avi")
}

/// Classify a filename by extension: `VIDEO` for the known container
/// formats, `OTHER` for the rest.
pub fn find_mimetype(filename: &String) -> (r: String)
    ensures
        spec_is_video_ext(spec_extension(filename@)) ==> r@ == "VIDEO"@,
        !spec_is_video_ext(spec_extension(filename@)) ==> r@ == "OTHER"@,
{
    let e = extension_of(filename.as_str());
    let video = str_equal(e, "mkv") || str_equal(e, "avi") || str_equal(e, "mp4") || str_equal(
        e,
        "divx",
    ) || str_equal(e, "flv") || str_equal(e, "m4v") || str_equal(e, "mov") || str_equal(e, "ogv")
        || str_equal(e, "ts") || str_equal(e, "webm") || str_equal(e, "wmv");
    if video {
        "VIDEO".to_owned()
    } else {
        "OTHER".to_owned()
    }
}

/// The files of a discovery walk that are videos by extension, in walk
/// order.
pub open spec fn spec_video_files(files: Seq<Seq<char>>) -> Seq<Seq<char>>
    decreases files.len(),
{
    if files.len() == 0 {
        Seq::empty()
    } else {
        let prefix = spec_video_files(files.drop_last());
        if spec_is_video_ext(spec_extension(files.last())) {
            prefix.push(files.last())
        } else {
            prefix
        }
    }
}

/// Keep the video files of a discovery walk, in walk order.
pub fn filter_video_files(files: &Vec<String>) -> (r: Vec<String>)
    ensures
        r@.map_values(|p: String| p@) == spec_video_files(files@.map_values(|p: String| p@)),
{
    let mut out: Vec<String> = Vec::new();
    let mut i: usize = 0;
    while i < files.len()
        invariant
            0 <= i <= files@.len(),
            out@.map_values(|p: String| p@) == spec_video_files(
                files@.take(i as int).map_values(|p: String| p@),
            ),
        decreases files@.len() - i,
    {
        proof {
            assert(files@.take(i as int + 1).map_values(|p: String| p@).drop_last()
                =~= files@.take(i as int).map_values(|p: String| p@));
            assert(files@.take(i as int + 1).map_values(|p: String| p@).last()
                == files@[i as int]@);
        }
        let m = find_mimetype(&files[i]);
        proof {
            reveal_strlit("VIDEO");
            reveal_strlit("OTHER");
            assert("VIDEO"@[0] == 'V');
            assert("OTHER"@[0] == 'O');
            assert("VIDEO"@ != "OTHER"@);
        }
        let ghost prev = out@;
        if str_equal(m.as_str(), "VIDEO") {
            out.push(files[i].clone());
            proof {
                assert(out@.map_values(|p: String| p@) =~= prev.map_values(|p: String| p@).push(
                    files@[i as int]@,
                ));
                assert(out@.map_values(|p: String| p@) =~= spec_video_files(
                    files@.take(i as int + 1).map_values(|p: String| p@),
                ));
            }
        } else {
            proof {
                assert(m@ != "VIDEO"@);
            }
        }
        i = i + 1;
    }
    proof {
        assert(files@.take(files@.len() as int) =~= files@);
    }
    out
}

/// Check a requested input path.  The shell reports whether the path
/// exists and whether it is a directory; a directory is taken whole, a
/// file must exist and carry an accepted extension.
pub fn input_validation(s: &str, path_exists: bool, is_dir: bool) -> (r: Result<String, String>)
    ensures
        is_dir ==> (r matches Ok(v) && v@ == s@),
        !is_dir && !path_exists ==> (r matches Err(e) && e@ == "input path not found"@),
        !is_dir && path_exists && spec_is_io_ext(spec_extension(s@)) ==> (r matches Ok(v) && v@
            == s@),
        !is_dir && path_exists && !spec_is_io_ext(spec_extension(s@)) ==> (r matches Err(e) && e@
            == "valid input formats: mp4/mkv/avi"@),
{
    if is_dir {
        return Ok(s.to_owned());
    }
    if !path_exists {
        return Err("input path not found".to_owned());
    }
    if is_io_ext(extension_of(s)) {
        Ok(s.to_owned())
    } else {
        Err("valid input formats: mp4/mkv/avi".to_owned())
    }
}

/// Check a requested output path: it must not exist yet and must carry
/// an accepted extension.
pub fn output_validation(s: &str, path_exists: bool) -> (r: Result<String, String>)
    ensures
        path_exists ==> (r matches Err(e) && e@ == "output path already exists"@),
        !path_exists && spec_is_io_ext(spec_extension(s@)) ==> (r matches Ok(v) && v@ == s@),
        !path_exists && !spec_is_io_ext(spec_extension(s@)) ==> (r matches Err(e) && e@
            == "valid output formats: mp4/mkv/avi"@),
{
    if path_exists {
        return Err("output path already exists".to_owned());
    }
    if is_io_ext(extension_of(s)) {
        Ok(s.to_owned())
    } else {
        Err("valid output formats: mp4/mkv/avi".to_owned())
    }
}

/// Check a derived output path in directory mode: one that already
/// exists is reported so the file can be skipped rather than refused.
pub fn output_validation_dir(s: &str, path_exists: bool) -> (r: Result<String, String>)
    ensures
        path_exists ==> (r matches Ok(v) && v@ == "already exists"@),
        !path_exists && spec_is_io_ext(spec_extension(s@)) ==> (r matches Ok(v) && v@ == s@),
        !path_exists && !spec_is_io_ext(spec_extension(s@)) ==> (r matches Err(e) && e@
            == "valid input formats: mp4/mkv/avi"@),
{
    if path_exists {
        return Ok("already exists".to_owned());
    }
    if is_io_ext(extension_of(s)) {
        Ok(s.to_owned())
    } else {
        Err("valid input formats: mp4/mkv/avi".to_owned())
    }
}

/// Check a requested output container format.
pub fn format_validation(s: &str) -> (r: Result<String, String>)
    ensures
        spec_is_io_ext(s@) ==> (r matches Ok(v) && v@ == s@),
        !spec_is_io_ext(s@) ==> (r matches Err(e) && e@ == "valid output formats: mp4/mkv/avi"@),
{
    if str_equal(s, "mp4") || str_equal(s, "mkv") || str_equal(s, "avi") {
        Ok(s.to_owned())
    } else {
        Err("valid output formats: mp4/mkv/avi".to_owned())
    }
}

/// The encoder presets the encoder accepts.
pub open spec fn spec_is_preset(s: Seq<char>) -> bool {
    ||| s == "ultrafast"@
    ||| s == "superfast"@
    ||| s == "veryfast"@
    ||| s == "faster"@
    ||| s == "fast"@
    ||| s == "medium"@
    ||| s == "slow"@
    ||| s == "slower"@
    ||| s == "veryslow"@
}

/// Check a requested encoder preset.
pub fn preset_validation(s: &str) -> (r: Result<String, String>)
    ensures
        spec_is_preset(s@) ==> (r matches Ok(v) && v@ == s@),
        !spec_is_preset(s@) ==> (r matches Err(e) && e@
            == "valid: ultrafast/superfast/veryfast/faster/fast/medium/slow/slower/veryslow"@),
{
    if str_equal(s, "ultrafast") || str_equal(s, "superfast") || str_equal(s, "veryfast")
        || str_equal(s, "faster") || str_equal(s, "fast") || str_equal(s, "medium") || str_equal(
        s,
        "slow",
    ) || str_equal(s, "slower") || str_equal(s, "veryslow") {
        Ok(s.to_owned())
    } else {
        Err("valid: ultrafast/superfast/veryfast/faster/fast/medium/slow/slower/veryslow".to_owned())
    }
}

/// The encoders the job can drive.
pub open spec fn spec_is_codec(s: Seq<char>) -> bool {
    s == "libx265"@ || s == "libsvt_hevc"@ || s == "libsvtav1"@
}

/// Check a requested encoder name.
pub fn codec_validation(s: &str) -> (r: Result<String, String>)
    ensures
        spec_is_codec(s@) ==> (r matches Ok(v) && v@ == s@),
        !spec_is_codec(s@) ==> (r matches Err(e) && e@ == "valid: libx265/libsvt_hevc/libsvtav1"@),
{
    if str_equal(s, "libx265") || str_equal(s, "libsvt_hevc") || str_equal(s, "libsvtav1") {
        Ok(s.to_owned())
    } else {
        Err("valid: libx265/libsvt_hevc/libsvtav1".to_owned())
    }
}

/// Check a requested resolution ceiling: it must be a plain number.
pub fn max_resolution_validation(s: &str) -> (r: Result<String, String>)
    ensures
        all_digits(spec_trim(s@)) ==> (r matches Ok(v) && v@ == s@),
        !all_digits(spec_trim(s@)) ==> (r matches Err(e) && e@ == "valid resolution is numeric!"@),
{
    let t = trim_str(s);
    let mut ok = t.unicode_len() > 0;
    let mut i: usize = 0;
    while i < t.unicode_len()
        invariant
            0 <= i <= t@.len(),
            ok == (t@.len() > 0 && forall|j: int| 0 <= j < i as int ==> crate::media::is_digit(
                t@[j],
            )),
        decreases t@.len() - i,
    {
        let code = t.get_char(i) as u32;
        if code < 48 || code > 57 {
            ok = false;
            proof {
                assert(!crate::media::is_digit(t@[i as int]));
            }
        }
        i = i + 1;
    }
    if ok {
        Ok(s.to_owned())
    } else {
        Err("valid resolution is numeric!".to_owned())
    }
}

/// What the encoder binary's banner says it can encode with.
#[derive(Clone, Copy, PartialEq, Eq, Structural, Debug)]
pub struct CodecSupport {
    pub libsvt_hevc: bool,
    pub libsvtav1: bool,
    pub libx265: bool,
}

/// Read the encoder binary's banner: each encoder is supported exactly
/// when its build flag appears in the text.
pub fn detect_codec_support(banner: &str) -> (r: CodecSupport)
    ensures
        r.libsvt_hevc == spec_contains(banner@, "libsvthevc"@),
        r.libsvtav1 == spec_contains(banner@, "libsvtav1"@),
        r.libx265 == spec_contains(banner@, "libx265"@),
{
    CodecSupport {
        libsvt_hevc: contains_marker(banner, "libsvthevc"),
        libsvtav1: contains_marker(banner, "libsvtav1"),
        libx265: contains_marker(banner, "libx265"),
    }
}

/// Whether the chosen encoder is among the supported ones.
pub fn codec_supported(support: &CodecSupport, codec: &str) -> (r: bool)
    ensures
        codec@ == "libsvt_hevc"@ ==> r == support.libsvt_hevc,
        codec@ == "libsvtav1"@ ==> r == support.libsvtav1,
        codec@ == "libx265"@ ==> r == support.libx265,
        codec@ != "libsvt_hevc"@ && codec@ != "libsvtav1"@ && codec@ != "libx265"@ ==> r == false,
{
    proof {
        reveal_strlit("libsvt_hevc");
        reveal_strlit("libsvtav1");
        reveal_strlit("libx265");
        assert("libsvt_hevc"@.len() == 11);
        assert("libsvtav1"@.len() == 9);
        assert("libx265"@.len() == 7);
    }
    if str_equal(codec, "libsvt_hevc") {
        support.libsvt_hevc
    } else if str_equal(codec, "libsvtav1") {
        support.libsvtav1
    } else if str_equal(codec, "libx265") {
        support.libx265
    } else {
        false
    }
}

/// The flavors of the upscaling model.
pub enum UpscaleTypes {
    General,
    Digital,
}

impl UpscaleTypes {
    /// The model name handed to the upscaler; both flavors currently
    /// use the animation-video model.
    pub fn upscale_type_as_str(&self) -> (r: &str)
        ensures
            r@ == "realesr-animevideov3"@,
    {
        match self {
            UpscaleTypes::General => "realesr-animevideov3",
            UpscaleTypes::Digital => "realesr-animevideov3",
        }
    }
}

} // verus!
