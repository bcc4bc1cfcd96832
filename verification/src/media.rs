//! Probed media metadata as plain values, and the parsing of the probe
//! tool's textual output.
//!
//! The shell runs the probe processes; what they print is handed here as
//! text and turned into numbers.  A frame rate is kept as a rational pair,
//! exactly as the probe reports it.

use vstd::prelude::*;

verus! {

/// ASCII whitespace, the characters the probe output is padded with.
pub open spec fn is_ws(c: char) -> bool {
    c == ' ' || c == '\n' || c == '\t' || c == '\r'
}

/// A decimal digit.
pub open spec fn is_digit(c: char) -> bool {
    48 <= c as int && c as int <= 57
}

/// The numeric value of a digit character.
pub open spec fn digit_val(c: char) -> int {
    c as int - 48
}

/// The text with leading whitespace removed.
pub open spec fn spec_trim_front(s: Seq<char>) -> Seq<char>
    decreases s.len(),
{
    if s.len() > 0 && is_ws(s[0]) {
        spec_trim_front(s.skip(1))
    } else {
        s
    }
}

/// The text with trailing whitespace removed.
pub open spec fn spec_trim_back(s: Seq<char>) -> Seq<char>
    decreases s.len(),
{
    if s.len() > 0 && is_ws(s.last()) {
        spec_trim_back(s.drop_last())
    } else {
        s
    }
}

/// The text with surrounding whitespace removed.
pub open spec fn spec_trim(s: Seq<char>) -> Seq<char> {
    spec_trim_back(spec_trim_front(s))
}

/// Every character is a digit and there is at least one.
pub open spec fn all_digits(s: Seq<char>) -> bool {
    s.len() > 0 && forall|i: int| 0 <= i < s.len() ==> is_digit(s[i])
}

/// The number a digit string denotes.
pub open spec fn spec_digits_value(s: Seq<char>) -> int
    decreases s.len(),
{
    if s.len() == 0 {
        0
    } else {
        spec_digits_value(s.drop_last()) * 10 + digit_val(s.last())
    }
}

proof fn lemma_digits_value_nonneg(s: Seq<char>)
    requires
        forall|i: int| 0 <= i < s.len() ==> is_digit(s[i]),
    ensures
        0 <= spec_digits_value(s),
    decreases s.len(),
{
    if s.len() > 0 {
        lemma_digits_value_nonneg(s.drop_last());
        assert(0 <= spec_digits_value(s.drop_last()) * 10) by (nonlinear_arith)
            requires
                0 <= spec_digits_value(s.drop_last()),
        ;
    }
}

/// Whether a character is ASCII whitespace.
fn is_ws_char(c: char) -> (r: bool)
    ensures
        r == is_ws(c),
{
    c == ' ' || c == '\n' || c == '\t' || c == '\r'
}

/// Strip surrounding whitespace.
pub fn trim_str(s: &str) -> (r: &str)
    ensures
        r@ == spec_trim(s@),
{
    let len = s.unicode_len();
    let mut lo: usize = 0;
    proof {
        assert(s@.skip(0) =~= s@);
    }
    while lo < len && is_ws_char(s.get_char(lo))
        invariant
            len == s@.len(),
            0 <= lo <= len,
            spec_trim_front(s@) == spec_trim_front(s@.skip(lo as int)),
        decreases len - lo,
    {
        proof {
            assert(s@.skip(lo as int).skip(1) =~= s@.skip(lo as int + 1));
        }
        lo = lo + 1;
    }
    proof {
        assert(spec_trim_front(s@) == s@.skip(lo as int));
    }
    let mut hi: usize = len;
    while hi > lo && is_ws_char(s.get_char(hi - 1))
        invariant
            len == s@.len(),
            0 <= lo <= hi <= len,
            spec_trim_front(s@) == s@.skip(lo as int),
            spec_trim_back(s@.skip(lo as int)) == spec_trim_back(
                s@.subrange(lo as int, hi as int),
            ),
        decreases hi,
    {
        proof {
            assert(s@.subrange(lo as int, hi as int).drop_last() =~= s@.subrange(
                lo as int,
                hi as int - 1,
            ));
            assert(s@.subrange(lo as int, hi as int).last() == s@[hi as int - 1]);
        }
        hi = hi - 1;
    }
    proof {
        assert(s@.skip(lo as int) =~= s@.subrange(lo as int, len as int));
        assert(spec_trim_back(s@.subrange(lo as int, hi as int)) == s@.subrange(
            lo as int,
            hi as int,
        ));
    }
    s.substring_char(lo, hi)
}

/// Parse a digit-only string.  `None` when the text is empty, holds any
/// non-digit, or denotes a number above the counter's range.
pub fn parse_u64_digits(s: &str) -> (r: Option<u64>)
    ensures
        r matches Some(v) ==> all_digits(s@) && v == spec_digits_value(s@),
        r is None ==> !all_digits(s@) || spec_digits_value(s@) > u64::MAX,
{
    let len = s.unicode_len();
    if len == 0 {
        return None;
    }
    let mut value: u64 = 0;
    let mut i: usize = 0;
    while i < len
        invariant
            len == s@.len(),
            0 <= i <= len,
            forall|j: int| 0 <= j < i as int ==> is_digit(s@[j]),
            value == spec_digits_value(s@.take(i as int)),
        decreases len - i,
    {
        let c = s.get_char(i);
        let code = c as u32;
        if code < 48 || code > 57 {
            return None;
        }
        let d = (code - 48) as u64;
        proof {
            assert(s@.take(i as int + 1).drop_last() =~= s@.take(i as int));
            assert(s@.take(i as int + 1).last() == s@[i as int]);
            lemma_digits_value_nonneg(s@.take(i as int));
        }
        if value > (u64::MAX - d) / 10 {
            proof {
                let m = (u64::MAX - d) as int;
                vstd::arithmetic::div_mod::lemma_fundamental_div_mod(m, 10);
                assert(value as int * 10 >= (m / 10 + 1) * 10) by (nonlinear_arith)
                    requires
                        value as int >= m / 10 + 1,
                ;
                assert(0 <= m % 10 < 10) by (nonlinear_arith);
                assert(spec_digits_value(s@.take(i as int + 1)) > u64::MAX);
                if all_digits(s@) {
                    lemma_digits_prefix_overflow(s@, i as int + 1);
                }
            }
            return None;
        }
        value = value * 10 + d;
        i = i + 1;
    }
    proof {
        assert(s@.take(len as int) =~= s@);
    }
    Some(value)
}

/// A digit string grows with every digit: once a prefix passes the
/// counter's range, the whole string is past it too.
proof fn lemma_digits_prefix_overflow(s: Seq<char>, k: int)
    requires
        0 <= k <= s.len(),
        forall|i: int| 0 <= i < s.len() ==> is_digit(s[i]),
        spec_digits_value(s.take(k)) > u64::MAX,
    ensures
        spec_digits_value(s) > u64::MAX,
    decreases s.len() - k,
{
    if k < s.len() {
        assert(s.take(k + 1).drop_last() =~= s.take(k));
        assert(s.take(k + 1).last() == s[k]);
        assert(is_digit(s[k]));
        assert(spec_digits_value(s.take(k + 1)) == spec_digits_value(s.take(k)) * 10 + digit_val(
            s[k],
        ));
        assert(spec_digits_value(s.take(k)) * 10 > u64::MAX * 10) by (nonlinear_arith)
            requires
                spec_digits_value(s.take(k)) > u64::MAX,
        ;
        lemma_digits_prefix_overflow(s, k + 1);
    } else {
        assert(s.take(k) =~= s);
    }
}

/// What a probed frame-count text denotes: the number, when the trimmed
/// text is a plain decimal within range, and zero otherwise — the probe
/// prints nothing, `N/A`, or garbage when a stream carries no count.
pub open spec fn spec_count_or_zero(s: Seq<char>) -> int {
    if all_digits(spec_trim(s)) && spec_digits_value(spec_trim(s)) <= u32::MAX {
        spec_digits_value(spec_trim(s))
    } else {
        0
    }
}

/// Parse one probe strategy's frame-count output; anything but a plain
/// in-range number counts as "no answer", which is zero.
pub fn parse_frame_count(s: &str) -> (r: u32)
    ensures
        r == spec_count_or_zero(s@),
{
    let t = trim_str(s);
    match parse_u64_digits(t) {
        Some(v) => {
            if v <= u32::MAX as u64 {
                v as u32
            } else {
                0
            }
        },
        None => {
            proof {
                if all_digits(t@) {
                    lemma_digits_value_nonneg(t@);
                }
            }
            0
        },
    }
}

/// The three-tier frame-count fallback: the direct stream metadata, then
/// the container tag, then an estimate from the duration at an assumed
/// fixed frame rate.  Each strategy answers zero for "unknown"; the first
/// nonzero answer wins, and zero survives only when all three failed.
pub fn resolve_frame_count(direct: u32, tag: u32, duration_estimate: u32) -> (r: u32)
    ensures
        direct != 0 ==> r == direct,
        direct == 0 && tag != 0 ==> r == tag,
        direct == 0 && tag == 0 ==> r == duration_estimate,
{
    if direct != 0 {
        direct
    } else if tag != 0 {
        tag
    } else {
        duration_estimate
    }
}

/// The fixed frame rate the duration estimate assumes, in frames per
/// second.  A last-resort approximation: the source's true rate may
/// differ.
pub const ASSUMED_FRAME_RATE: u64 = 25;

/// Estimate a frame count from a duration in milliseconds at the assumed
/// fixed rate, saturating at the counter's range.
pub fn frames_from_duration(duration_ms: u64) -> (r: u32)
    ensures
        duration_ms * ASSUMED_FRAME_RATE / 1000 <= u32::MAX ==> r == duration_ms
            * ASSUMED_FRAME_RATE / 1000,
        duration_ms * ASSUMED_FRAME_RATE / 1000 > u32::MAX ==> r == u32::MAX,
{
    proof {
        assert(duration_ms as int * ASSUMED_FRAME_RATE as int <= u64::MAX as int * 25)
            by (nonlinear_arith)
            requires
                duration_ms <= u64::MAX,
                ASSUMED_FRAME_RATE == 25,
        ;
    }
    let wide: u128 = duration_ms as u128 * ASSUMED_FRAME_RATE as u128 / 1000;
    if wide > u32::MAX as u128 {
        u32::MAX
    } else {
        wide as u32
    }
}

/// A frame rate as the probe reports it: a rational number of frames per
/// second, such as thirty thousand over one thousand and one.
#[derive(Clone, Copy, PartialEq, Eq, Structural, Debug)]
pub struct FrameRate {
    pub num: u32,
    pub den: u32,
}

/// The trimmed text is `<digits>/<digits>` split at position `k`, and the
/// two sides denote the rate's terms, both in range and the numerator
/// nonzero.
pub open spec fn is_rate_split(t: Seq<char>, k: int, fr: FrameRate) -> bool {
    &&& 0 <= k < t.len()
    &&& t[k] == '/'
    &&& all_digits(t.take(k))
    &&& all_digits(t.skip(k + 1))
    &&& spec_digits_value(t.take(k)) == fr.num
    &&& spec_digits_value(t.skip(k + 1)) == fr.den
    &&& fr.num != 0
    &&& fr.den != 0
}

/// The text denotes this frame rate: it splits at some slash into the
/// rate's two terms.
pub open spec fn spec_is_rate_of(t: Seq<char>, fr: FrameRate) -> bool {
    exists|k: int| is_rate_split(t, k, fr)
}

/// Parse a probed `numerator/denominator` frame rate.  `None` when the
/// text is not of that shape, a side is out of range, or a side is zero —
/// a zero rate is no rate.
pub fn parse_frame_rate(s: &str) -> (r: Option<FrameRate>)
    ensures
        r is Some ==> spec_is_rate_of(spec_trim(s@), r->0),
        r is None ==> forall|fr: FrameRate| !spec_is_rate_of(spec_trim(s@), fr),
{
    let t = trim_str(s);
    let len = t.unicode_len();
    let mut slash: usize = 0;
    let mut found = false;
    let mut i: usize = 0;
    while i < len
        invariant_except_break
            len == t@.len(),
            0 <= i <= len,
            !found,
            forall|j: int| 0 <= j < i as int ==> t@[j] != '/',
        ensures
            len == t@.len(),
            found ==> slash < len && t@[slash as int] == '/' && (forall|j: int|
                0 <= j < slash as int ==> t@[j] != '/'),
            !found ==> forall|j: int| 0 <= j < len as int ==> t@[j] != '/',
        decreases len - i,
    {
        if t.get_char(i) == '/' {
            slash = i;
            found = true;
            break ;
        }
        i = i + 1;
    }
    if !found {
        proof {
            assert forall|fr: FrameRate| !spec_is_rate_of(t@, fr) by {
                if spec_is_rate_of(t@, fr) {
                    let k = choose|k: int| is_rate_split(t@, k, fr);
                    assert(t@[k] == '/');
                }
            }
        }
        return None;
    }
    proof {
        assert forall|fr: FrameRate, k: int|
            k != slash as int implies !is_rate_split(t@, k, fr) by {
            if 0 <= k < t@.len() && t@[k] == '/' {
                if k < slash as int {
                    assert(t@[k] != '/');
                } else {
                    if all_digits(t@.take(k)) {
                        assert(is_digit(t@.take(k)[slash as int]));
                    }
                }
            }
        }
    }
    let head = t.substring_char(0, slash);
    let tail = t.substring_char(slash + 1, len);
    proof {
        assert(head@ =~= t@.take(slash as int));
        assert(tail@ =~= t@.skip(slash as int + 1));
    }
    let num = match parse_u64_digits(head) {
        Some(v) => v,
        None => {
            proof {
                lemma_no_rate_at(t@, slash as int);
            }
            return None;
        },
    };
    let den = match parse_u64_digits(tail) {
        Some(v) => v,
        None => {
            proof {
                lemma_no_rate_at(t@, slash as int);
            }
            return None;
        },
    };
    if num == 0 || den == 0 || num > u32::MAX as u64 || den > u32::MAX as u64 {
        proof {
            lemma_no_rate_at(t@, slash as int);
        }
        return None;
    }
    let fr = FrameRate { num: num as u32, den: den as u32 };
    proof {
        assert(is_rate_split(t@, slash as int, fr));
        assert(is_rate_split(spec_trim(s@), slash as int, fr));
        assert(spec_is_rate_of(spec_trim(s@), fr));
    }
    Some(fr)
}

/// A rate can only split at its one slash; when the sides there do not
/// denote a nonzero in-range rate, no rate is denoted at all.
proof fn lemma_no_rate_at(t: Seq<char>, slash: int)
    requires
        0 <= slash < t.len(),
        t[slash] == '/',
        forall|fr: FrameRate, k: int| k != slash ==> !is_rate_split(t, k, fr),
        !all_digits(t.take(slash)) || !all_digits(t.skip(slash + 1)) || spec_digits_value(
            t.take(slash),
        ) == 0 || spec_digits_value(t.skip(slash + 1)) == 0 || spec_digits_value(t.take(slash))
            > u32::MAX || spec_digits_value(t.skip(slash + 1)) > u32::MAX,
    ensures
        forall|fr: FrameRate| !spec_is_rate_of(t, fr),
{
    assert forall|fr: FrameRate| !spec_is_rate_of(t, fr) by {
        if spec_is_rate_of(t, fr) {
            let k = choose|k: int| is_rate_split(t, k, fr);
            assert(k == slash);
        }
    }
}

/// The seek position, in milliseconds, at which a segment's export
/// starts: one frame before the segment boundary, converted to time by
/// the rational frame rate; the first segment starts at zero.  `None`
/// when the time does not fit the counter.
pub fn export_start_millis(index: u32, segment_size: u32, rate: FrameRate) -> (r: Option<u64>)
    requires
        rate.num >= 1,
    ensures
        index == 0 ==> r == Some(0u64),
        index >= 1 && segment_size >= 1 ==> {
            let ms = (index * segment_size - 1) * 1000 * rate.den as int / rate.num as int;
            ms <= u64::MAX ==> r == Some(ms as u64)
        },
        r matches Some(v) ==> index == 0 || (segment_size >= 1 && v == (index * segment_size - 1)
            * 1000 * rate.den as int / rate.num as int),
    {
    if index == 0 {
        return Some(0);
    }
    if segment_size == 0 {
        return None;
    }
    proof {
        assert(1 <= index as int * segment_size as int <= 0xffff_ffff_0000_0001)
            by (nonlinear_arith)
            requires
                1 <= index <= 0xffff_ffff,
                1 <= segment_size <= 0xffff_ffff,
        ;
    }
    let frames: u128 = index as u128 * segment_size as u128 - 1;
    proof {
        assert(frames as int * 1000 * rate.den as int <= 0xffff_ffff_0000_0001 * 1000
            * 0xffff_ffff) by (nonlinear_arith)
            requires
                0 <= frames as int <= 0xffff_ffff_0000_0001,
                rate.den <= 0xffff_ffff,
        ;
    }
    let wide: u128 = frames * 1000 * rate.den as u128 / rate.num as u128;
    proof {
        let f = index as int * segment_size as int - 1;
        assert(f * 1000 * rate.den as int >= 0) by (nonlinear_arith)
            requires
                f >= 0,
                rate.den as int >= 0,
        ;
        assert(f * 1000 * rate.den as int / rate.num as int <= f * 1000 * rate.den as int)
            by (nonlinear_arith)
            requires
                rate.num as int >= 1,
                f * 1000 * rate.den as int >= 0,
        ;
    }
    if wide > u64::MAX as u128 {
        None
    } else {
        Some(wide as u64)
    }
}

/// The text splits at a decimal point at position `k`: digits before it,
/// digits after it.
pub open spec fn is_dot_split(t: Seq<char>, k: int) -> bool {
    &&& 0 <= k < t.len()
    &&& t[k] == '.'
    &&& all_digits(t.take(k))
    &&& forall|j: int| k < j < t.len() ==> is_digit(t[j])
}

/// Milliseconds denoted by a fractional-seconds digit string, truncated
/// below one millisecond.
pub open spec fn spec_frac_ms(f: Seq<char>) -> int {
    if f.len() == 0 {
        0
    } else if f.len() == 1 {
        digit_val(f[0]) * 100
    } else if f.len() == 2 {
        digit_val(f[0]) * 100 + digit_val(f[1]) * 10
    } else {
        digit_val(f[0]) * 100 + digit_val(f[1]) * 10 + digit_val(f[2])
    }
}

/// The milliseconds a probed duration text denotes: plain seconds, or
/// seconds and a decimal fraction; anything else denotes nothing.
pub open spec fn spec_duration_ms(t: Seq<char>) -> Option<int> {
    if all_digits(t) {
        Some(spec_digits_value(t) * 1000)
    } else if exists|k: int| is_dot_split(t, k) {
        let k = choose|k: int| is_dot_split(t, k);
        Some(spec_digits_value(t.take(k)) * 1000 + spec_frac_ms(t.skip(k + 1)))
    } else {
        None
    }
}

/// Parse a probed duration as milliseconds.  `None` when the trimmed
/// text is not a decimal number of seconds or lies beyond the counter.
pub fn parse_duration_ms(s: &str) -> (r: Option<u64>)
    ensures
        r matches Some(v) ==> spec_duration_ms(spec_trim(s@)) == Some(v as int),
        r is None ==> spec_duration_ms(spec_trim(s@)) is None || spec_duration_ms(spec_trim(s@))->0
            > u64::MAX,
{
    let t = trim_str(s);
    let len = t.unicode_len();
    let mut dot: usize = 0;
    let mut found = false;
    let mut i: usize = 0;
    while i < len
        invariant_except_break
            len == t@.len(),
            0 <= i <= len,
            !found,
            forall|j: int| 0 <= j < i as int ==> t@[j] != '.',
        ensures
            found ==> dot < len && t@[dot as int] == '.' && (forall|j: int|
                0 <= j < dot as int ==> t@[j] != '.'),
            !found ==> forall|j: int| 0 <= j < len as int ==> t@[j] != '.',
            len == t@.len(),
        decreases len - i,
    {
        if t.get_char(i) == '.' {
            dot = i;
            found = true;
            break ;
        }
        i = i + 1;
    }
    if !found {
        proof {
            assert forall|k: int| !is_dot_split(t@, k) by {
                if 0 <= k < t@.len() {
                    assert(t@[k] != '.');
                }
            }
        }
        match parse_u64_digits(t) {
            Some(v) => {
                if v <= u64::MAX / 1000 {
                    proof {
                        lemma_mul_div_le(v as int, 1000, u64::MAX as int);
                    }
                    Some(v * 1000)
                } else {
                    proof {
                        lemma_mul_div_gt(v as int, 1000, u64::MAX as int);
                    }
                    None
                }
            },
            None => {
                proof {
                    if all_digits(t@) {
                        lemma_digits_value_nonneg(t@);
                        assert(spec_digits_value(t@) * 1000 > u64::MAX) by (nonlinear_arith)
                            requires
                                spec_digits_value(t@) > u64::MAX,
                        ;
                    }
                }
                None
            },
        }
    } else {
        proof {
            assert(!is_digit(t@[dot as int]));
            assert(!all_digits(t@));
            assert forall|k: int| k != dot as int implies !is_dot_split(t@, k) by {
                if 0 <= k < t@.len() {
                    if k < dot as int {
                        assert(t@[k] != '.');
                    } else if k > dot as int {
                        if all_digits(t@.take(k)) {
                            assert(is_digit(t@.take(k)[dot as int]));
                        }
                    }
                }
            }
        }
        let head = t.substring_char(0, dot);
        proof {
            assert(head@ =~= t@.take(dot as int));
        }
        let secs = match parse_u64_digits(head) {
            Some(v) => v,
            None => {
                proof {
                    if spec_digits_value(t@.take(dot as int)) <= u64::MAX {
                        assert(!all_digits(t@.take(dot as int)));
                        assert(!is_dot_split(t@, dot as int));
                        assert(spec_duration_ms(t@) is None);
                    } else {
                        if is_dot_split(t@, dot as int) {
                            let kc = choose|k: int| is_dot_split(t@, k);
                            assert(kc == dot as int);
                            lemma_frac_ms_bounds(t@.skip(dot as int + 1));
                            assert(spec_digits_value(t@.take(dot as int)) * 1000 > u64::MAX)
                                by (nonlinear_arith)
                                requires
                                    spec_digits_value(t@.take(dot as int)) > u64::MAX,
                            ;
                        } else {
                            assert(spec_duration_ms(t@) is None);
                        }
                    }
                }
                return None;
            },
        };
        let mut j: usize = dot + 1;
        while j < len
            invariant
                len == t@.len(),
                t@ == spec_trim(s@),
                dot < len,
                dot as int + 1 <= j <= len,
                t@[dot as int] == '.',
                !all_digits(t@),
                all_digits(t@.take(dot as int)),
                forall|k: int| k != dot as int ==> !is_dot_split(t@, k),
                forall|jj: int| (dot as int) < jj && jj < j as int ==> is_digit(t@[jj]),
            decreases len - j,
        {
            let code = t.get_char(j) as u32;
            if code < 48 || code > 57 {
                proof {
                    assert(!is_digit(t@[j as int]));
                    assert(!is_dot_split(t@, dot as int));
                    assert(spec_duration_ms(t@) is None);
                }
                return None;
            }
            j = j + 1;
        }
        proof {
            assert(is_dot_split(t@, dot as int));
        }
        let frac_len = len - (dot + 1);
        let mut frac: u64 = 0;
        if frac_len >= 1 {
            frac = frac + (t.get_char(dot + 1) as u32 as u64 - 48) * 100;
        }
        if frac_len >= 2 {
            frac = frac + (t.get_char(dot + 2) as u32 as u64 - 48) * 10;
        }
        if frac_len >= 3 {
            frac = frac + (t.get_char(dot + 3) as u32 as u64 - 48);
        }
        proof {
            let f = t@.skip(dot as int + 1);
            assert(f.len() == frac_len);
            if frac_len >= 1 {
                assert(f[0] == t@[dot as int + 1]);
                assert(is_digit(f[0]));
            }
            if frac_len >= 2 {
                assert(f[1] == t@[dot as int + 2]);
                assert(is_digit(f[1]));
            }
            if frac_len >= 3 {
                assert(f[2] == t@[dot as int + 3]);
                assert(is_digit(f[2]));
            }
            assert(frac == spec_frac_ms(f));
        }
        if secs > (u64::MAX - frac) / 1000 {
            proof {
                lemma_mul_div_gt(secs as int, 1000, (u64::MAX - frac) as int);
                let kc = choose|k: int| is_dot_split(t@, k);
                assert(kc == dot as int);
            }
            return None;
        }
        proof {
            lemma_mul_div_le(secs as int, 1000, (u64::MAX - frac) as int);
            let kc = choose|k: int| is_dot_split(t@, k);
            assert(kc == dot as int);
        }
        Some(secs * 1000 + frac)
    }
}

/// A number at most a capacity's quotient by a factor, scaled back by
/// the factor, stays within the capacity.
proof fn lemma_mul_div_le(v: int, f: int, cap: int)
    requires
        f >= 1,
        0 <= cap,
        0 <= v <= cap / f,
    ensures
        v * f <= cap,
{
    vstd::arithmetic::div_mod::lemma_fundamental_div_mod(cap, f);
    assert(v * f <= (cap / f) * f) by (nonlinear_arith)
        requires
            v <= cap / f,
            f >= 1,
    ;
    assert((cap / f) * f == f * (cap / f)) by (nonlinear_arith);
    assert(0 <= cap % f) by (nonlinear_arith)
        requires
            f >= 1,
            0 <= cap,
    ;
}

/// A number past a capacity's quotient by a factor, scaled back by the
/// factor, lies past the capacity.
proof fn lemma_mul_div_gt(v: int, f: int, cap: int)
    requires
        f >= 1,
        0 <= cap,
        v > cap / f,
    ensures
        v * f > cap,
{
    vstd::arithmetic::div_mod::lemma_fundamental_div_mod(cap, f);
    assert(v * f >= (cap / f + 1) * f) by (nonlinear_arith)
        requires
            v >= cap / f + 1,
            f >= 1,
    ;
    assert((cap / f + 1) * f == f * (cap / f) + f) by (nonlinear_arith);
    assert((cap % f) < f) by (nonlinear_arith)
        requires
            f >= 1,
    ;
}

/// A fractional part is under one second.
proof fn lemma_frac_ms_bounds(f: Seq<char>)
    requires
        forall|i: int| 0 <= i < f.len() ==> is_digit(f[i]),
    ensures
        0 <= spec_frac_ms(f) < 1000,
{
}


/// The milliseconds a duration text denotes, when it denotes an
/// in-range duration, and zero otherwise.
pub open spec fn spec_duration_ms_or_zero(s: Seq<char>) -> int {
    if spec_duration_ms(spec_trim(s)) is Some && spec_duration_ms(spec_trim(s))->0 <= u64::MAX {
        spec_duration_ms(spec_trim(s))->0
    } else {
        0
    }
}

/// A probed duration as milliseconds, zero when the text denotes none.
pub fn duration_ms_or_zero(s: &str) -> (r: u64)
    ensures
        r == spec_duration_ms_or_zero(s@),
{
    match parse_duration_ms(s) {
        Some(ms) => ms,
        None => 0,
    }
}

/// The tier-three estimate from a probed duration text: frames at the
/// assumed fixed rate, or zero when the text denotes no duration.
pub fn duration_frame_estimate(s: &str) -> (r: u32)
    ensures
        spec_duration_ms(spec_trim(s@)) is Some && spec_duration_ms(spec_trim(s@))->0 <= u64::MAX
            ==> r == (if spec_duration_ms(spec_trim(s@))->0 * ASSUMED_FRAME_RATE as int / 1000
            <= u32::MAX {
            spec_duration_ms(spec_trim(s@))->0 * ASSUMED_FRAME_RATE as int / 1000
        } else {
            u32::MAX as int
        }),
        spec_duration_ms(spec_trim(s@)) is None || spec_duration_ms(spec_trim(s@))->0 > u64::MAX
            ==> r == 0,
{
    match parse_duration_ms(s) {
        Some(ms) => frames_from_duration(ms),
        None => 0,
    }
}

/// A probed display aspect ratio, trimmed; an empty answer means the
/// stream declares none, reported as `0` so callers can test it.
pub fn normalize_probe_text(s: &str) -> (r: String)
    ensures
        spec_trim(s@).len() > 0 ==> r@ == spec_trim(s@),
        spec_trim(s@).len() == 0 ==> r@ == seq!['0'],
{
    let t = trim_str(s);
    if t.unicode_len() == 0 {
        proof {
            reveal_strlit("0");
        }
        let zero = "0";
        assert(zero@ =~= seq!['0']);
        zero.to_owned()
    } else {
        t.to_owned()
    }
}

} // verus!
