//! Segment planning: split a frame count into an ordered list of segments.

use vstd::prelude::*;
use vstd::arithmetic::div_mod::lemma_fundamental_div_mod;

use crate::errors::JobError;

verus! {

/// A contiguous run of frames processed as one unit through
/// export, upscale and encode.  `index` is the processing and
/// concatenation order; `size` is the planned frame count.
#[derive(Clone, Copy, PartialEq, Eq, Structural, Debug)]
pub struct Segment {
    pub index: u32,
    pub size: u32,
}

/// Size of the final segment of a plan: the remainder of the frame count,
/// or a full segment when the frame count divides evenly.
pub open spec fn spec_last_segment_size(frame_count: u32, segment_size: u32) -> int {
    if frame_count as int % segment_size as int == 0 {
        segment_size as int
    } else {
        frame_count as int % segment_size as int
    }
}

/// Number of segments of a plan: the frame count divided by the segment
/// size, rounded up.
pub open spec fn spec_segment_count(frame_count: u32, segment_size: u32) -> int {
    if frame_count as int % segment_size as int == 0 {
        frame_count as int / segment_size as int
    } else {
        frame_count as int / segment_size as int + 1
    }
}

/// The planned segment list: ascending indexes from zero, every segment a
/// full one except the last, whose size is `spec_last_segment_size`.
pub open spec fn spec_plan(frame_count: u32, segment_size: u32) -> Seq<Segment> {
    Seq::new(
        spec_segment_count(frame_count, segment_size) as nat,
        |i: int|
            Segment {
                index: i as u32,
                size: if i == spec_segment_count(frame_count, segment_size) - 1 {
                    spec_last_segment_size(frame_count, segment_size) as u32
                } else {
                    segment_size
                },
            },
    )
}

/// Total number of frames covered by a segment list.
pub open spec fn seg_sizes_sum(s: Seq<Segment>) -> int
    decreases s.len(),
{
    if s.len() == 0 {
        0
    } else {
        seg_sizes_sum(s.drop_last()) + s.last().size
    }
}

proof fn lemma_seg_sizes_sum_push(s: Seq<Segment>, x: Segment)
    ensures
        seg_sizes_sum(s.push(x)) == seg_sizes_sum(s) + x.size,
{
    assert(s.push(x).drop_last() =~= s);
}

/// Every plan covers its frame count exactly: the segment sizes add up to
/// `frame_count`, with no frame lost or duplicated.
pub proof fn lemma_plan_sum(frame_count: u32, segment_size: u32)
    requires
        1 <= frame_count,
        1 <= segment_size,
    ensures
        seg_sizes_sum(spec_plan(frame_count, segment_size)) == frame_count,
{
    let n = spec_segment_count(frame_count, segment_size);
    lemma_fundamental_div_mod(frame_count as int, segment_size as int);
    assert forall|k: int| 0 <= k <= n implies seg_sizes_sum(
        spec_plan(frame_count, segment_size).take(k),
    ) == if k < n {
        k * segment_size as int
    } else {
        (k - 1) * segment_size as int + spec_last_segment_size(frame_count, segment_size)
    } by {
        lemma_plan_partial_sum(frame_count, segment_size, k);
    }
    assert(spec_plan(frame_count, segment_size).take(n) =~= spec_plan(frame_count, segment_size));
    let q = frame_count as int / segment_size as int;
    let r = frame_count as int % segment_size as int;
    if r == 0 {
        assert((q - 1) * segment_size as int + segment_size as int == segment_size as int * q)
            by (nonlinear_arith);
    } else {
        assert((q + 1 - 1) * segment_size as int == segment_size as int * q) by (nonlinear_arith);
    }
}

proof fn lemma_plan_partial_sum(frame_count: u32, segment_size: u32, k: int)
    requires
        1 <= frame_count,
        1 <= segment_size,
        0 <= k <= spec_segment_count(frame_count, segment_size),
    ensures
        seg_sizes_sum(spec_plan(frame_count, segment_size).take(k)) == if k
            < spec_segment_count(frame_count, segment_size) {
            k * segment_size as int
        } else {
            (k - 1) * segment_size as int + spec_last_segment_size(frame_count, segment_size)
        },
    decreases k,
{
    let p = spec_plan(frame_count, segment_size);
    if k == 0 {
        assert(p.take(0) =~= Seq::<Segment>::empty());
    } else {
        lemma_plan_partial_sum(frame_count, segment_size, k - 1);
        assert(p.take(k).drop_last() =~= p.take(k - 1));
        assert(p.take(k).last() == p[k - 1]);
        assert((k - 1) * segment_size as int + segment_size as int == k * segment_size as int)
            by (nonlinear_arith);
    }
}

/// Last-segment-size law: when the frame count divides evenly by the
/// segment size, the final segment is a full one, never an empty one.
pub proof fn lemma_last_segment_full(frame_count: u32, segment_size: u32)
    requires
        1 <= frame_count,
        1 <= segment_size,
        frame_count as int % segment_size as int == 0,
    ensures
        spec_plan(frame_count, segment_size).last().size == segment_size,
{
    lemma_fundamental_div_mod(frame_count as int, segment_size as int);
    assert(spec_segment_count(frame_count, segment_size) >= 1) by (nonlinear_arith)
        requires
            1 <= frame_count,
            1 <= segment_size,
            frame_count as int % segment_size as int == 0,
            frame_count as int == segment_size as int * (frame_count as int / segment_size as int),
    ;
}

/// There are never more segments than frames: every segment holds at
/// least one.
pub proof fn lemma_segment_count_le(frame_count: u32, segment_size: u32)
    requires
        1 <= frame_count,
        1 <= segment_size,
    ensures
        1 <= spec_segment_count(frame_count, segment_size) <= frame_count,
{
    let fc = frame_count as int;
    let ss = segment_size as int;
    lemma_fundamental_div_mod(fc, ss);
    let q = fc / ss;
    let r = fc % ss;
    vstd::arithmetic::div_mod::lemma_mod_bound(fc, ss);
    vstd::arithmetic::div_mod::lemma_div_pos_is_pos(fc, ss);
    if r == 0 {
        assert(1 <= q <= fc) by (nonlinear_arith)
            requires
                1 <= fc,
                1 <= ss,
                0 <= q,
                fc == ss * q,
        ;
    } else {
        assert(1 <= q + 1 <= fc) by (nonlinear_arith)
            requires
                1 <= fc,
                1 <= ss,
                0 <= q,
                1 <= r,
                fc == ss * q + r,
        ;
    }
}

/// A plan's segment indexes are its positions: strictly ascending, the
/// processing and concatenation order.
pub proof fn lemma_plan_ascending(frame_count: u32, segment_size: u32)
    requires
        1 <= frame_count,
        1 <= segment_size,
    ensures
        forall|i: int, j: int|
            0 <= i < j < spec_plan(frame_count, segment_size).len() ==> spec_plan(
                frame_count,
                segment_size,
            )[i].index < spec_plan(frame_count, segment_size)[j].index,
{
    lemma_segment_count_le(frame_count, segment_size);
}

/// Size of the final planned segment: the division remainder, or a full
/// segment when the remainder is zero.
pub fn get_last_segment_size(frame_count: u32, segment_size: u32) -> (r: u32)
    requires
        1 <= segment_size,
    ensures
        r == spec_last_segment_size(frame_count, segment_size),
{
    let last_segment_size = frame_count % segment_size;
    if last_segment_size == 0 {
        segment_size
    } else {
        last_segment_size
    }
}

/// Plan the ordered segment list for a job.
///
/// A frame count of zero means no probing strategy could determine the
/// video's length; the job must not silently plan zero segments, so that is
/// a probe failure.
pub fn plan_segments(frame_count: u32, segment_size: u32) -> (r: Result<Vec<Segment>, JobError>)
    requires
        1 <= segment_size,
    ensures
        frame_count == 0 <==> r is Err,
        r is Err ==> r == Result::<Vec<Segment>, JobError>::Err(JobError::Probe),
        r is Ok ==> r->Ok_0@ == spec_plan(frame_count, segment_size),
{
    if frame_count == 0 {
        return Err(JobError::Probe);
    }
    let ghost n = spec_segment_count(frame_count, segment_size);
    let quotient = frame_count / segment_size;
    let remainder = frame_count % segment_size;
    proof {
        lemma_fundamental_div_mod(frame_count as int, segment_size as int);
        assert(n >= 1) by (nonlinear_arith)
            requires
                1 <= frame_count,
                1 <= segment_size,
                n == spec_segment_count(frame_count, segment_size),
                frame_count as int == segment_size as int * (frame_count as int / segment_size
                    as int) + frame_count as int % segment_size as int,
        ;
        if remainder != 0 {
            assert(2 * (frame_count as int / segment_size as int) <= frame_count as int)
                by (nonlinear_arith)
                requires
                    2 <= segment_size,
                    frame_count as int == segment_size as int * (frame_count as int / segment_size
                        as int) + frame_count as int % segment_size as int,
                    0 <= frame_count as int % segment_size as int,
                    0 <= frame_count as int / segment_size as int,
            ;
        }
    }
    let count: u32 = if remainder == 0 {
        quotient
    } else {
        quotient + 1
    };
    let last = get_last_segment_size(frame_count, segment_size);
    let mut segments: Vec<Segment> = Vec::new();
    let mut i: u32 = 0;
    while i < count
        invariant
            0 <= i <= count,
            count == n,
            n == spec_segment_count(frame_count, segment_size),
            1 <= segment_size,
            1 <= frame_count,
            last == spec_last_segment_size(frame_count, segment_size),
            segments@.len() == i as int,
            forall|j: int|
                0 <= j < i as int ==> segments@[j] == spec_plan(frame_count, segment_size)[j],
        decreases count - i,
    {
        let size = if i == count - 1 {
            last
        } else {
            segment_size
        };
        segments.push(Segment { index: i, size });
        proof {
            let fc = frame_count as int;
            let ss = segment_size as int;
            assert(0 <= fc % ss && fc % ss < ss) by (nonlinear_arith)
                requires
                    1 <= ss,
                    0 <= fc,
            ;
            assert(spec_plan(frame_count, segment_size).len() == n);
            assert(segments@[i as int] == spec_plan(frame_count, segment_size)[i as int]);
        }
        i = i + 1;
    }
    assert(segments@ =~= spec_plan(frame_count, segment_size));
    Ok(segments)
}

} // verus!
