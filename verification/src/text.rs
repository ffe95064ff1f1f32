//! Verified construction of the textual values the pipeline hands to the
//! outside world: decimal renderings of times and counters. Appending to a
//! `String` goes through two trusted wrappers around `std`.
use vstd::prelude::*;

verus! {

/// Relies on String::push_str: appends exactly the characters of `t`.
#[verifier::external_body]
pub fn push_str(s: &mut String, t: &str)
    ensures
        final(s)@ == old(s)@ + t@,
{
    s.push_str(t)
}

/// Relies on String::push: appends exactly the character `c`.
#[verifier::external_body]
pub fn push_char(s: &mut String, c: char)
    ensures
        final(s)@ == old(s)@.push(c),
{
    s.push(c)
}

/// The character for one decimal digit.
pub open spec fn digit_char(d: int) -> char {
    ((0x30 + d) as u8) as char
}

/// Decimal rendering of a non-negative integer, most significant digit
/// first, without leading zeros (zero renders as "0").
pub open spec fn dec_chars(n: int) -> Seq<char>
    decreases n,
{
    if n < 10 {
        seq![digit_char(n)]
    } else {
        dec_chars(n / 10).push(digit_char(n % 10))
    }
}

/// Decimal rendering of a possibly negative integer.
pub open spec fn int_chars(n: int) -> Seq<char> {
    if n < 0 {
        seq!['-'] + dec_chars(-n)
    } else {
        dec_chars(n)
    }
}

/// A millisecond count rendered as seconds with exactly three fraction
/// digits, e.g. "12.345".
pub open spec fn sec_chars(ms: int) -> Seq<char> {
    dec_chars(ms / 1000).push('.').push(digit_char((ms / 100) % 10)).push(
        digit_char((ms / 10) % 10),
    ).push(digit_char(ms % 10))
}

fn digit_of(d: u64) -> (c: char)
    requires
        d < 10,
    ensures
        c == digit_char(d as int),
{
    ((0x30 + d as u8)) as char
}

/// Append the decimal rendering of `n`.
pub fn push_u64(s: &mut String, n: u64)
    ensures
        final(s)@ == old(s)@ + dec_chars(n as int),
    decreases n,
{
    if n < 10 {
        push_char(s, digit_of(n));
        proof {
            assert(old(s)@.push(digit_char(n as int)) =~= old(s)@ + dec_chars(n as int));
        }
    } else {
        push_u64(s, n / 10);
        push_char(s, digit_of(n % 10));
        proof {
            assert((old(s)@ + dec_chars(n as int / 10)).push(digit_char(n as int % 10))
                =~= old(s)@ + dec_chars(n as int));
        }
    }
}

/// Append the decimal rendering of `n`, with a leading minus sign when it
/// is negative.
pub fn push_i64(s: &mut String, n: i64)
    requires
        n > i64::MIN,
    ensures
        final(s)@ == old(s)@ + int_chars(n as int),
{
    if n < 0 {
        push_char(s, '-');
        push_u64(s, (-n) as u64);
        proof {
            assert(old(s)@.push('-') + dec_chars(-(n as int)) =~= old(s)@ + int_chars(
                n as int,
            ));
        }
    } else {
        push_u64(s, n as u64);
    }
}

/// Append a millisecond count rendered as decimal seconds, e.g. "12.345".
pub fn push_ms_as_secs(s: &mut String, ms: i64)
    requires
        0 <= ms,
    ensures
        final(s)@ == old(s)@ + sec_chars(ms as int),
{
    push_u64(s, (ms / 1000) as u64);
    push_char(s, '.');
    push_char(s, digit_of(((ms / 100) % 10) as u64));
    push_char(s, digit_of(((ms / 10) % 10) as u64));
    push_char(s, digit_of((ms % 10) as u64));
    proof {
        assert((old(s)@ + dec_chars(ms as int / 1000)).push('.').push(
            digit_char((ms as int / 100) % 10),
        ).push(digit_char((ms as int / 10) % 10)).push(digit_char(ms as int % 10))
            =~= old(s)@ + sec_chars(ms as int));
    }
}

/// A millisecond count as decimal seconds text.
pub fn ms_to_secs_string(ms: i64) -> (r: String)
    requires
        0 <= ms,
    ensures
        r@ == sec_chars(ms as int),
{
    let mut s = String::new();
    push_ms_as_secs(&mut s, ms);
    proof {
        assert(Seq::<char>::empty() + sec_chars(ms as int) =~= sec_chars(ms as int));
    }
    s
}

} // verus!
