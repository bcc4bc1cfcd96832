//! Progress aggregation: turn the external stages' diagnostic text into
//! segment-level and whole-job frame position counters.
//!
//! The external tools expose no structured progress API; a line of their
//! output that contains a stage-specific marker substring counts as one unit
//! of work done.  This is a best-effort estimator, not a frame-accurate
//! signal; the marker is configuration, not a contract.

use vstd::prelude::*;

use crate::planner::{seg_sizes_sum, Segment};

verus! {

/// The needle occurs in the haystack starting at position `k`.
pub open spec fn is_match_at(hay: Seq<char>, needle: Seq<char>, k: int) -> bool {
    0 <= k && k + needle.len() <= hay.len() && hay.subrange(k, k + needle.len()) == needle
}

/// The needle occurs somewhere in the haystack.
pub open spec fn spec_contains(hay: Seq<char>, needle: Seq<char>) -> bool {
    exists|k: int| is_match_at(hay, needle, k)
}

/// Whether `line` contains the marker substring.
pub fn contains_marker(line: &str, marker: &str) -> (r: bool)
    ensures
        r == spec_contains(line@, marker@),
{
    let hay_len = line.unicode_len();
    let needle_len = marker.unicode_len();
    if needle_len == 0 {
        proof {
            assert(line@.subrange(0, 0) =~= marker@);
            assert(is_match_at(line@, marker@, 0));
        }
        return true;
    }
    if needle_len > hay_len {
        proof {
            assert forall|k: int| !is_match_at(line@, marker@, k) by {}
        }
        return false;
    }
    let mut k: usize = 0;
    while k <= hay_len - needle_len
        invariant
            hay_len == line@.len(),
            needle_len == marker@.len(),
            1 <= needle_len <= hay_len,
            0 <= k <= hay_len - needle_len + 1,
            forall|kk: int| 0 <= kk < k as int ==> !is_match_at(line@, marker@, kk),
        decreases hay_len - k,
    {
        let mut j: usize = 0;
        let mut mismatch = false;
        while j < needle_len
            invariant
                hay_len == line@.len(),
                needle_len == marker@.len(),
                0 <= k <= hay_len - needle_len,
                0 <= j <= needle_len,
                !mismatch ==> forall|jj: int|
                    0 <= jj < j as int ==> line@[k as int + jj] == marker@[jj],
                mismatch ==> !is_match_at(line@, marker@, k as int),
            decreases needle_len - j,
        {
            if line.get_char(k + j) != marker.get_char(j) {
                proof {
                    if is_match_at(line@, marker@, k as int) {
                        assert(line@.subrange(k as int, k as int + needle_len as int)[j as int]
                            == marker@[j as int]);
                    }
                }
                mismatch = true;
                j = needle_len;
            } else {
                j = j + 1;
            }
        }
        if !mismatch {
            proof {
                assert(line@.subrange(k as int, k as int + needle_len as int) =~= marker@);
                assert(is_match_at(line@, marker@, k as int));
            }
            return true;
        }
        k = k + 1;
    }
    proof {
        assert forall|kk: int| !is_match_at(line@, marker@, kk) by {
            if 0 <= kk && kk + marker@.len() <= line@.len() {
                assert(kk < k as int);
            }
        }
    }
    false
}

/// Total frames of a segment list, or `None` when it exceeds the counter's
/// range.
pub fn sum_frames(segs: &Vec<Segment>) -> (r: Option<u64>)
    ensures
        r matches Some(s) ==> s == seg_sizes_sum(segs@),
        r is None ==> seg_sizes_sum(segs@) > u64::MAX,
{
    let mut sum: u64 = 0;
    let mut i: usize = 0;
    while i < segs.len()
        invariant
            0 <= i <= segs@.len(),
            sum == seg_sizes_sum(segs@.take(i as int)),
        decreases segs@.len() - i,
    {
        proof {
            assert(segs@.take(i as int + 1).drop_last() =~= segs@.take(i as int));
            assert(segs@.take(i as int + 1).last() == segs@[i as int]);
            lemma_seg_sum_mono(segs@, i as int + 1);
        }
        let size = segs[i].size;
        if sum > u64::MAX - size as u64 {
            return None;
        }
        sum = sum + size as u64;
        i = i + 1;
    }
    proof {
        assert(segs@.take(segs@.len() as int) =~= segs@);
    }
    Some(sum)
}

/// A prefix of a segment list never covers more frames than a longer one:
/// sizes are nonnegative.
proof fn lemma_seg_sum_mono(s: Seq<Segment>, k: int)
    requires
        0 <= k <= s.len(),
    ensures
        seg_sizes_sum(s.take(k)) <= seg_sizes_sum(s),
    decreases s.len() - k,
{
    if k < s.len() {
        lemma_seg_sum_mono(s, k + 1);
        assert(s.take(k + 1).drop_last() =~= s.take(k));
        assert(s.take(k + 1).last() == s[k]);
    } else {
        assert(s.take(k) =~= s);
    }
}

/// The frame position a resumed job starts from: the frames of the
/// segments the resume scan found already done.  `None` when the lists are
/// inconsistent (more frames unprocessed than planned) or out of range.
pub fn resume_seed(plan: &Vec<Segment>, unprocessed: &Vec<Segment>) -> (r: Option<u64>)
    ensures
        r matches Some(d) ==> d == seg_sizes_sum(plan@) - seg_sizes_sum(unprocessed@),
        r is None ==> seg_sizes_sum(plan@) > u64::MAX || seg_sizes_sum(unprocessed@)
            > seg_sizes_sum(plan@),
{
    let plan_sum = match sum_frames(plan) {
        Some(s) => s,
        None => { return None },
    };
    let todo_sum = match sum_frames(unprocessed) {
        Some(s) => s,
        None => {
            proof {
                lemma_seg_sum_nonneg(plan@);
            }
            return None;
        },
    };
    if todo_sum > plan_sum {
        return None;
    }
    Some(plan_sum - todo_sum)
}

proof fn lemma_seg_sum_nonneg(s: Seq<Segment>)
    ensures
        0 <= seg_sizes_sum(s),
    decreases s.len(),
{
    if s.len() > 0 {
        lemma_seg_sum_nonneg(s.drop_last());
    }
}

/// Whole-job and per-segment progress counters.  `position` is seeded, at
/// job start, with the frames of the segments already done, so a resumed
/// job's displayed progress starts at the right offset rather than at zero.
pub struct ProgressAggregator {
    pub total: u64,
    pub position: u64,
    pub segment_units: u64,
}

impl ProgressAggregator {
    /// Open the counters for a job of `total` frames, `seed` of them
    /// already done by an earlier run.
    pub fn new(total: u64, seed: u64) -> (r: ProgressAggregator)
        requires
            seed <= total,
        ensures
            r.total == total,
            r.position == seed,
            r.segment_units == 0,
    {
        ProgressAggregator { total, position: seed, segment_units: 0 }
    }

    /// A new segment's pacing stage begins: its unit counter restarts.
    pub fn begin_segment(&mut self)
        ensures
            final(self).segment_units == 0,
            final(self).total == old(self).total,
            final(self).position == old(self).position,
    {
        self.segment_units = 0;
    }

    /// One line of stage output observed.  A line containing the marker is
    /// one unit of work done and advances both counters (saturating at
    /// their range); any other line changes nothing.
    pub fn observe_line(&mut self, line: &str, marker: &str) -> (r: bool)
        ensures
            r == spec_contains(line@, marker@),
            final(self).total == old(self).total,
            !r ==> *final(self) == *old(self),
            r ==> final(self).position == if old(self).position < u64::MAX {
                old(self).position + 1
            } else {
                old(self).position as int
            },
            r ==> final(self).segment_units == if old(self).segment_units < u64::MAX {
                old(self).segment_units + 1
            } else {
                old(self).segment_units as int
            },
    {
        let matched = contains_marker(line, marker);
        if matched {
            if self.position < u64::MAX {
                self.position = self.position + 1;
            }
            if self.segment_units < u64::MAX {
                self.segment_units = self.segment_units + 1;
            }
        }
        matched
    }
}

} // verus!
