//! Decimal rendering of the numeric gauge values.
//!
//! Gauges hold either a plain whole number, a signed whole number (a Unix
//! timestamp), or a duration counted in nanoseconds that is exposed in
//! fractional seconds.  Each is rendered to the character sequence that the
//! exposition format prints after the metric name.

use vstd::prelude::*;
use vstd::string::StrSliceExecFns;
use vstd::string::StringExecFns;

verus! {

/// The character for one decimal digit.
pub open spec fn spec_digit(d: int) -> char {
    if d == 0 {
        '0'
    } else if d == 1 {
        '1'
    } else if d == 2 {
        '2'
    } else if d == 3 {
        '3'
    } else if d == 4 {
        '4'
    } else if d == 5 {
        '5'
    } else if d == 6 {
        '6'
    } else if d == 7 {
        '7'
    } else if d == 8 {
        '8'
    } else {
        '9'
    }
}

/// The decimal notation of a natural number, most significant digit first,
/// with no leading zero except for the number zero itself.
pub open spec fn spec_dec(n: nat) -> Seq<char>
    decreases n,
{
    if n < 10 {
        seq![spec_digit(n as int)]
    } else {
        spec_dec(n / 10) + seq![spec_digit((n % 10) as int)]
    }
}

/// The decimal notation of an integer: a minus sign before the magnitude
/// when the number is negative.
pub open spec fn spec_dec_int(n: int) -> Seq<char> {
    if n < 0 {
        seq!['-'] + spec_dec((-n) as nat)
    } else {
        spec_dec(n as nat)
    }
}

/// A run of `k` zero characters.
pub open spec fn spec_zeroes(k: nat) -> Seq<char> {
    Seq::new(k, |i: int| '0')
}

/// `s` filled with zeroes on the left up to nine characters.
pub open spec fn spec_pad9(s: Seq<char>) -> Seq<char> {
    if s.len() >= 9 {
        s
    } else {
        spec_zeroes((9 - s.len()) as nat) + s
    }
}

/// A non-negative count of nanoseconds rendered in seconds: the whole
/// seconds, then, only when the sub-second part is non-zero, a point and
/// nine digits of the nanosecond remainder.
pub open spec fn spec_seconds_nn(n: nat) -> Seq<char> {
    if n % 1000000000 == 0 {
        spec_dec(n / 1000000000)
    } else {
        spec_dec(n / 1000000000) + seq!['.'] + spec_pad9(spec_dec(n % 1000000000))
    }
}

/// A signed count of nanoseconds rendered in seconds.
pub open spec fn spec_seconds(n: int) -> Seq<char> {
    if n < 0 {
        seq!['-'] + spec_seconds_nn((-n) as nat)
    } else {
        spec_seconds_nn(n as nat)
    }
}

/// One decimal digit as a string slice.
fn digit_str(d: u128) -> (s: &'static str)
    requires
        d < 10,
    ensures
        s@ =~= seq![spec_digit(d as int)],
{
    proof {
        reveal_strlit("0");
        reveal_strlit("1");
        reveal_strlit("2");
        reveal_strlit("3");
        reveal_strlit("4");
        reveal_strlit("5");
        reveal_strlit("6");
        reveal_strlit("7");
        reveal_strlit("8");
        reveal_strlit("9");
    }
    if d == 0 {
        "0"
    } else if d == 1 {
        "1"
    } else if d == 2 {
        "2"
    } else if d == 3 {
        "3"
    } else if d == 4 {
        "4"
    } else if d == 5 {
        "5"
    } else if d == 6 {
        "6"
    } else if d == 7 {
        "7"
    } else if d == 8 {
        "8"
    } else {
        "9"
    }
}

/// The decimal notation of `n`.
pub fn u128_string(n: u128) -> (s: String)
    ensures
        s@ == spec_dec(n as nat),
    decreases n,
{
    if n < 10 {
        String::from_str(digit_str(n))
    } else {
        let mut s = u128_string(n / 10);
        s.append(digit_str(n % 10));
        proof {
            assert(s@ =~= spec_dec(n as nat));
        }
        s
    }
}

/// The magnitude of `n` as an unsigned number.
fn magnitude(n: i128) -> (m: u128)
    ensures
        n >= 0 ==> m == n,
        n < 0 ==> m == -(n as int),
{
    if n >= 0 {
        n as u128
    } else {
        ((-(n + 1)) as u128) + 1
    }
}

/// The decimal notation of `n`, with a leading minus sign when negative.
pub fn i128_string(n: i128) -> (s: String)
    ensures
        s@ == spec_dec_int(n as int),
{
    let m: u128 = magnitude(n);
    let digits = u128_string(m);
    if n < 0 {
        let mut s = String::from_str("-");
        proof {
            reveal_strlit("-");
        }
        s.append(digits.as_str());
        proof {
            assert(s@ =~= spec_dec_int(n as int));
        }
        s
    } else {
        digits
    }
}

/// `nanos` nanoseconds rendered in seconds, fractional part included only
/// when it is non-zero.
pub fn seconds_string(nanos: i128) -> (s: String)
    ensures
        s@ == spec_seconds(nanos as int),
{
    let m: u128 = magnitude(nanos);
    let whole: u128 = m / 1000000000;
    let frac: u128 = m % 1000000000;
    let mut s = if nanos < 0 {
        proof {
            reveal_strlit("-");
        }
        String::from_str("-")
    } else {
        String::new()
    };
    let whole_digits = u128_string(whole);
    s.append(whole_digits.as_str());
    if frac == 0 {
        proof {
            assert(s@ =~= spec_seconds(nanos as int));
        }
        s
    } else {
        s.append(".");
        proof {
            reveal_strlit(".");
        }
        let frac_digits = u128_string(frac);
        let len: usize = frac_digits.as_str().unicode_len();
        let mut pad: usize = 0;
        let ghost before: Seq<char> = s@;
        while pad + len < 9
            invariant
                len as nat == spec_dec(frac as nat).len(),
                len >= 9 ==> pad == 0,
                len < 9 ==> pad + len <= 9,
                s@ == before + spec_zeroes(pad as nat),
            decreases 9 - pad,
        {
            s.append("0");
            proof {
                reveal_strlit("0");
                assert(s@ =~= before + spec_zeroes((pad + 1) as nat));
            }
            pad += 1;
        }
        s.append(frac_digits.as_str());
        proof {
            assert(s@ =~= spec_seconds(nanos as int));
        }
        s
    }
}

} // verus!
