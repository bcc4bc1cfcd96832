//! Decimal rendering of counters: segment indexes in artifact names and
//! playlists, and millisecond timestamps for the exporter's seek argument.

use vstd::prelude::*;

verus! {

/// The decimal digit character for a value below ten.
pub open spec fn spec_digit_char(d: int) -> char {
    if d == 0 {
        '0'
    } else if d == 1 {
        '1'
    } else if d == 2 {
        '2'
    } else if d == 3 {
        '3'
    } else if d == 4 {
        '4'
    } else if d == 5 {
        '5'
    } else if d == 6 {
        '6'
    } else if d == 7 {
        '7'
    } else if d == 8 {
        '8'
    } else {
        '9'
    }
}

/// The usual decimal rendering of a nonnegative number: no sign, no
/// leading zero except on zero itself.
pub open spec fn spec_decimal(n: int) -> Seq<char>
    decreases n,
{
    if n <= 9 {
        seq![spec_digit_char(if n < 0 { 0 } else { n })]
    } else {
        spec_decimal(n / 10).push(spec_digit_char(n % 10))
    }
}

/// One decimal digit as text.
pub fn digit_str(d: u64) -> (r: &'static str)
    requires
        d <= 9,
    ensures
        r@ =~= seq![spec_digit_char(d as int)],
{
    proof {
        reveal_strlit("0");
        reveal_strlit("1");
        reveal_strlit("2");
        reveal_strlit("3");
        reveal_strlit("4");
        reveal_strlit("5");
        reveal_strlit("6");
        reveal_strlit("7");
        reveal_strlit("8");
        reveal_strlit("9");
    }
    if d == 0 {
        "0"
    } else if d == 1 {
        "1"
    } else if d == 2 {
        "2"
    } else if d == 3 {
        "3"
    } else if d == 4 {
        "4"
    } else if d == 5 {
        "5"
    } else if d == 6 {
        "6"
    } else if d == 7 {
        "7"
    } else if d == 8 {
        "8"
    } else {
        "9"
    }
}

/// Render a number in decimal.
pub fn u64_to_decimal(n: u64) -> (r: String)
    ensures
        r@ == spec_decimal(n as int),
{
    let mut digits: Vec<u64> = Vec::new();
    let mut rest: u64 = n;
    loop
        invariant_except_break
            rest <= n,
            spec_decimal(n as int) == spec_decimal(rest as int) + digits_suffix(digits@),
            forall|i: int| 0 <= i < digits@.len() ==> #[trigger] digits@[i] <= 9,
        ensures
            spec_decimal(n as int) == digits_suffix(digits@),
            forall|i: int| 0 <= i < digits@.len() ==> #[trigger] digits@[i] <= 9,
        decreases rest,
    {
        let d = rest % 10;
        let next = rest / 10;
        proof {
            assert(digits@.push(d).drop_last() =~= digits@);
            assert(digits_suffix(digits@.push(d)) =~= seq![
                spec_digit_char(d as int),
            ] + digits_suffix(digits@));
            if rest <= 9 {
                assert(spec_decimal(rest as int) + digits_suffix(digits@) =~= digits_suffix(
                    digits@.push(d),
                ));
            } else {
                assert(spec_decimal(rest as int) =~= spec_decimal(next as int) + seq![
                    spec_digit_char(d as int),
                ]);
                assert(spec_decimal(rest as int) + digits_suffix(digits@) =~= spec_decimal(
                    next as int,
                ) + digits_suffix(digits@.push(d)));
            }
        }
        digits.push(d);
        if next == 0 {
            break ;
        }
        rest = next;
    }
    let mut out = String::new();
    let mut i: usize = digits.len();
    proof {
        assert(digits@.take(i as int) =~= digits@);
        assert(out@ + digits_suffix(digits@) =~= digits_suffix(digits@));
    }
    while i > 0
        invariant
            i <= digits@.len(),
            forall|k: int| 0 <= k < digits@.len() ==> #[trigger] digits@[k] <= 9,
            spec_decimal(n as int) == out@ + digits_suffix(digits@.take(i as int)),
        decreases i,
    {
        i = i - 1;
        let d = digits[i];
        let ghost prev = out@;
        out.append(digit_str(d));
        proof {
            assert(digits@.take(i as int + 1).drop_last() =~= digits@.take(i as int));
            assert(digits@.take(i as int + 1).last() == digits@[i as int]);
            assert(digits_suffix(digits@.take(i as int + 1)) =~= seq![
                spec_digit_char(digits@[i as int] as int),
            ] + digits_suffix(digits@.take(i as int)));
            assert(prev + digits_suffix(digits@.take(i as int + 1)) =~= out@ + digits_suffix(
                digits@.take(i as int),
            ));
        }
    }
    proof {
        assert(digits_suffix(digits@.take(0)) =~= Seq::<char>::empty());
        assert(out@ + digits_suffix(digits@.take(0)) =~= out@);
    }
    out
}

/// The digit characters of a reversed digit list, least significant
/// first in the list, most significant first in the text.
spec fn digits_suffix(ds: Seq<u64>) -> Seq<char>
    decreases ds.len(),
{
    if ds.len() == 0 {
        Seq::empty()
    } else {
        seq![spec_digit_char(ds.last() as int)] + digits_suffix(ds.drop_last())
    }
}

/// Seconds-and-milliseconds rendering of a millisecond count, the form
/// the exporter's seek argument takes.
pub open spec fn spec_seconds_text(ms: int) -> Seq<char> {
    spec_decimal(ms / 1000) + seq!['.'] + seq![
        spec_digit_char((ms % 1000) / 100),
        spec_digit_char((ms % 1000) / 10 % 10),
        spec_digit_char(ms % 10),
    ]
}

/// Render a millisecond count as decimal seconds, always with three
/// fractional digits.
pub fn millis_to_seconds_text(ms: u64) -> (r: String)
    ensures
        r@ == spec_seconds_text(ms as int),
{
    let mut out = u64_to_decimal(ms / 1000);
    proof {
        reveal_strlit(".");
    }
    out.append(".");
    let frac = ms % 1000;
    out.append(digit_str(frac / 100));
    out.append(digit_str(frac / 10 % 10));
    out.append(digit_str(frac % 10));
    proof {
        assert((ms % 1000) as int % 10 == ms as int % 10) by (nonlinear_arith);
        assert(out@ =~= spec_seconds_text(ms as int));
    }
    out
}

} // verus!
