//! Final assembly: the concat playlist over the encoded parts, the
//! bounded retry around the concat step, the remux stream choice, and
//! the last check of the produced file.

use vstd::prelude::*;

use crate::errors::JobError;
use crate::fmt::{spec_decimal, u64_to_decimal};
use crate::media::spec_trim;
use crate::workqueue::str_equal;

verus! {

/// One playlist line: the encoded part of a segment, by ascending index.
pub open spec fn spec_playlist_line(i: int, ext: Seq<char>) -> Seq<char> {
    "file 'video_parts/"@ + spec_decimal(i) + seq!['.'] + ext + seq!['\'']
}

/// The whole playlist text: one line per segment, ascending by index,
/// later lines each behind a newline.
pub open spec fn spec_playlist(count: int, ext: Seq<char>) -> Seq<char>
    decreases count,
{
    if count <= 1 {
        spec_playlist_line(0, ext)
    } else {
        spec_playlist(count - 1, ext) + seq!['\n'] + spec_playlist_line(count - 1, ext)
    }
}

/// One playlist line as text.
fn playlist_line(i: u32, ext: &str) -> (r: String)
    ensures
        r@ == spec_playlist_line(i as int, ext@),
{
    proof {
        reveal_strlit(".");
        reveal_strlit("'");
    }
    let mut out = "file 'video_parts/".to_owned();
    out.append(u64_to_decimal(i as u64).as_str());
    out.append(".");
    out.append(ext);
    out.append("'");
    proof {
        assert(out@ =~= spec_playlist_line(i as int, ext@));
    }
    out
}

/// Build the concat playlist over all encoded parts, in ascending index
/// order — the order the coordinator committed them in.
pub fn build_playlist(segment_count: u32, ext: &str) -> (r: String)
    requires
        segment_count >= 1,
    ensures
        r@ == spec_playlist(segment_count as int, ext@),
{
    let mut out = playlist_line(0, ext);
    let mut i: u32 = 1;
    while i < segment_count
        invariant
            1 <= i <= segment_count,
            out@ == spec_playlist(i as int, ext@),
        decreases segment_count - i,
    {
        let ghost prev = out@;
        proof {
            reveal_strlit("\n");
        }
        out.append("\n");
        let line = playlist_line(i, ext);
        out.append(line.as_str());
        proof {
            assert(out@ =~= prev + seq!['\n'] + spec_playlist_line(i as int, ext@));
        }
        i = i + 1;
    }
    out
}

/// What a look at the concat output found: no file, an empty file, or a
/// file with content.
#[derive(Clone, Copy, PartialEq, Eq, Structural, Debug)]
pub enum ArtifactCheck {
    Missing,
    Empty,
    NonEmpty,
}

/// The next move of the concat retry loop.
#[derive(Clone, Copy, PartialEq, Eq, Structural, Debug)]
pub enum ConcatStep {
    Done,
    Invoke,
    Wait,
    Fail,
}

/// One round of the concat retry policy.  The underlying tool has been
/// seen to race against filesystem flushing, so a missing output is
/// reinvoked and an empty one waited out, each round consuming one of
/// the five attempts; a file with content ends the loop, and the sixth
/// round without one is fatal.
pub fn concat_retry_step(attempts: u8, observed: ArtifactCheck) -> (r: ConcatStep)
    requires
        attempts <= 5,
    ensures
        attempts == 5 ==> r == ConcatStep::Fail,
        attempts < 5 && observed == ArtifactCheck::NonEmpty ==> r == ConcatStep::Done,
        attempts < 5 && observed == ArtifactCheck::Missing ==> r == ConcatStep::Invoke,
        attempts < 5 && observed == ArtifactCheck::Empty ==> r == ConcatStep::Wait,
{
    if attempts == 5 {
        ConcatStep::Fail
    } else {
        match observed {
            ArtifactCheck::NonEmpty => ConcatStep::Done,
            ArtifactCheck::Missing => ConcatStep::Invoke,
            ArtifactCheck::Empty => ConcatStep::Wait,
        }
    }
}

/// Whether the remux must exclude data streams: exactly when the probe
/// found a binary data stream in the input — its answer, trimmed, is
/// then the stream's index rather than empty text.
pub fn remux_excludes_data(bin_data_probe: &str) -> (r: bool)
    ensures
        r == (spec_trim(bin_data_probe@).len() != 0),
{
    let t = crate::media::trim_str(bin_data_probe);
    proof {
        reveal_strlit("");
        assert(""@.len() == 0);
        if t@.len() == 0 {
            assert(t@ =~= ""@);
        }
    }
    !str_equal(t, "")
}

/// The last check of a finished job: the output file must exist with
/// content, else the run failed and must be repeated — safe, since every
/// intermediate artifact is still on disk and validated on resume.
pub fn final_output_ok(output_exists: bool, output_len: u64) -> (r: Result<(), JobError>)
    ensures
        r is Ok <==> output_exists && output_len != 0,
        r is Err ==> r == Result::<(), JobError>::Err(JobError::Finalize),
{
    if output_exists && output_len != 0 {
        Ok(())
    } else {
        Err(JobError::Finalize)
    }
}

} // verus!
