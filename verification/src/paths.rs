//! Path text: lexical normalization, derived artifact names, and the
//! per-segment layout of the job's temporary tree.
//!
//! The temporary tree is partitioned by segment index, so concurrent
//! stages of different segments never touch the same files.

use vstd::prelude::*;

use crate::fmt::{spec_decimal, u64_to_decimal};
use crate::workqueue::str_equal;

verus! {

/// The lexically cleaned form of a path: redundant slashes and dot
/// components removed.
pub uninterp spec fn cleaned_of(s: Seq<char>) -> Seq<char>;

/// Relies on path_clean::clean: a purely lexical simplification of the
/// path text, no filesystem touched, so the result depends on the
/// characters alone.  Two facts its fold plainly shows: a rooted path
/// stays rooted (the root is always kept and never popped), and a
/// cleaned path cleans to itself (the output has no dot components, no
/// doubled separators, and no parent steps after a named component).
#[verifier::external_body]
fn clean_path(s: &str) -> (r: String)
    ensures
        r@ == cleaned_of(s@),
        s@.len() > 0 && s@[0] == '/' ==> r@.len() > 0 && r@[0] == '/',
        cleaned_of(r@) == r@,
{
    path_clean::clean(s).to_string_lossy().into_owned()
}

/// Resolve a path against a working directory and clean it: an already
/// rooted path stands alone, any other is joined under the directory.
/// A rooted argument — either one — makes the result rooted, and the
/// result is a fixed point of cleaning, so resolving it a second time
/// returns it unchanged.
pub fn absolute_path(path: &str, cwd: &str) -> (r: String)
    ensures
        path@.len() > 0 && path@[0] == '/' ==> r@ == cleaned_of(path@),
        !(path@.len() > 0 && path@[0] == '/') ==> r@ == cleaned_of(cwd@ + seq!['/'] + path@),
        (path@.len() > 0 && path@[0] == '/') || (cwd@.len() > 0 && cwd@[0] == '/') ==> r@.len() > 0
            && r@[0] == '/',
        cleaned_of(r@) == r@,
{
    if path.unicode_len() > 0 && path.get_char(0) == '/' {
        clean_path(path)
    } else {
        proof {
            reveal_strlit("/");
        }
        let mut joined = cwd.to_owned();
        joined.append("/");
        joined.append(path);
        proof {
            assert(joined@ =~= cwd@ + seq!['/'] + path@);
            if cwd@.len() > 0 {
                assert(joined@[0] == cwd@[0]);
            }
        }
        clean_path(joined.as_str())
    }
}

/// The text ends with the given suffix.
pub open spec fn spec_ends_with(s: Seq<char>, suffix: Seq<char>) -> bool {
    s.len() >= suffix.len() && s.skip(s.len() - suffix.len()) == suffix
}

/// Whether the text ends with the given suffix.
pub fn ends_with_str(s: &str, suffix: &str) -> (r: bool)
    ensures
        r == spec_ends_with(s@, suffix@),
{
    let n = s.unicode_len();
    let m = suffix.unicode_len();
    if m > n {
        return false;
    }
    let tail = s.substring_char(n - m, n);
    proof {
        assert(tail@ =~= s@.skip(s@.len() - suffix@.len()));
    }
    str_equal(tail, suffix)
}

/// The upscaled-image name derived from a source image name: the known
/// image extension is replaced by an upscaled-marker plus the same
/// extension, and an unrecognized name is marked whole and given the
/// default extension.
pub fn replace_file_suffix(path: &str) -> (r: String)
    ensures
        spec_ends_with(path@, ".png"@) ==> r@ == path@.take(path@.len() - ".png"@.len())
            + "_upscaled-4x.png"@,
        !spec_ends_with(path@, ".png"@) && spec_ends_with(path@, ".jpg"@) ==> r@ == path@.take(
            path@.len() - ".jpg"@.len(),
        ) + "_upscaled-4x.jpg"@,
        !spec_ends_with(path@, ".png"@) && !spec_ends_with(path@, ".jpg"@) && spec_ends_with(
            path@,
            ".jpeg"@,
        ) ==> r@ == path@.take(path@.len() - ".jpeg"@.len()) + "_upscaled-4x.jpeg"@,
        !spec_ends_with(path@, ".png"@) && !spec_ends_with(path@, ".jpg"@) && !spec_ends_with(
            path@,
            ".jpeg"@,
        ) ==> r@ == path@ + "_upscaled-4x.png"@,
{
    let n = path.unicode_len();
    if ends_with_str(path, ".png") {
        proof {
            reveal_strlit(".png");
            assert(".png"@.len() == 4);
        }
        let mut out = path.substring_char(0, n - 4).to_owned();
        out.append("_upscaled-4x.png");
        proof {
            assert(out@ =~= path@.take(path@.len() - ".png"@.len()) + "_upscaled-4x.png"@);
        }
        out
    } else if ends_with_str(path, ".jpg") {
        proof {
            reveal_strlit(".jpg");
            assert(".jpg"@.len() == 4);
        }
        let mut out = path.substring_char(0, n - 4).to_owned();
        out.append("_upscaled-4x.jpg");
        proof {
            assert(out@ =~= path@.take(path@.len() - ".jpg"@.len()) + "_upscaled-4x.jpg"@);
        }
        out
    } else if ends_with_str(path, ".jpeg") {
        proof {
            reveal_strlit(".jpeg");
            assert(".jpeg"@.len() == 5);
        }
        let mut out = path.substring_char(0, n - 5).to_owned();
        out.append("_upscaled-4x.jpeg");
        proof {
            assert(out@ =~= path@.take(path@.len() - ".jpeg"@.len()) + "_upscaled-4x.jpeg"@);
        }
        out
    } else {
        let mut out = path.to_owned();
        out.append("_upscaled-4x.png");
        proof {
            assert(out@ =~= path@ + "_upscaled-4x.png"@);
        }
        out
    }
}

/// The application's log sink, at a fixed file the shell chose.
pub struct Logger {
    pub path: String,
}

impl Logger {
    /// A logger writing at the given file path; the shell resolves the
    /// configuration directory and composes the path.
    pub fn new(path: String) -> (r: Logger)
        ensures
            r.path == path,
    {
        Logger { path }
    }

    /// The path to the log file.
    pub fn log_file_path(&self) -> (r: String)
        ensures
            r@ == self.path@,
    {
        self.path.clone()
    }
}

/// The directory holding one segment's files under a stage's tree.
pub fn segment_dir(base: &str, index: u32) -> (r: String)
    ensures
        r@ == base@ + seq!['/'] + spec_decimal(index as int),
{
    proof {
        reveal_strlit("/");
    }
    let mut out = base.to_owned();
    out.append("/");
    let digits = u64_to_decimal(index as u64);
    out.append(digits.as_str());
    proof {
        assert(out@ =~= base@ + seq!['/'] + spec_decimal(index as int));
    }
    out
}

/// The frame-image pattern of one segment's directory, as the exporter
/// and encoder expect it.
pub fn segment_frame_pattern(base: &str, index: u32) -> (r: String)
    ensures
        r@ == base@ + seq!['/'] + spec_decimal(index as int) + "/frame%08d.png"@,
{
    let mut out = segment_dir(base, index);
    out.append("/frame%08d.png");
    proof {
        assert(out@ =~= base@ + seq!['/'] + spec_decimal(index as int) + "/frame%08d.png"@);
    }
    out
}

/// The encoded artifact file of one segment: its index and the output
/// container extension under the video-parts tree.
pub fn segment_part_path(base: &str, index: u32, ext: &str) -> (r: String)
    ensures
        r@ == base@ + seq!['/'] + spec_decimal(index as int) + seq!['.'] + ext@,
{
    proof {
        reveal_strlit(".");
    }
    let mut out = segment_dir(base, index);
    out.append(".");
    out.append(ext);
    proof {
        assert(out@ =~= base@ + seq!['/'] + spec_decimal(index as int) + seq!['.'] + ext@);
    }
    out
}

} // verus!
