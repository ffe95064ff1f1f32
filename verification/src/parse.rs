//! Byte-level text scanning: decimal timestamps, byte search, substring
//! search and whitespace trimming over `&[u8]`, each proved against a
//! spec-level definition on `Seq<u8>`.
use vstd::prelude::*;
use crate::TIME_MAX_MS;

verus! {

/// ASCII whitespace, as the trimming of diagnostic fields understands it.
pub open spec fn is_ws(b: u8) -> bool {
    b == 0x20 || (0x09 <= b && b <= 0x0d)
}

/// ASCII decimal digit.
pub open spec fn is_digit(b: u8) -> bool {
    0x30 <= b && b <= 0x39
}

pub open spec fn all_digits(s: Seq<u8>) -> bool {
    forall|i: int| 0 <= i < s.len() ==> is_digit(#[trigger] s[i])
}

/// Value of a string of decimal digits, most significant first.
pub open spec fn digits_val(s: Seq<u8>) -> int
    decreases s.len(),
{
    if s.len() == 0 {
        0
    } else {
        digits_val(s.drop_last()) * 10 + (s.last() - 0x30)
    }
}

pub open spec fn pow10(n: nat) -> int
    decreases n,
{
    if n == 0 {
        1
    } else {
        10 * pow10((n - 1) as nat)
    }
}

proof fn lemma_pow10_pos(n: nat)
    ensures
        pow10(n) >= 1,
    decreases n,
{
    if n > 0 {
        lemma_pow10_pos((n - 1) as nat);
    }
}

proof fn lemma_pow10_mono(a: nat, b: nat)
    requires
        a <= b,
    ensures
        0 < pow10(a) <= pow10(b),
    decreases b,
{
    lemma_pow10_pos(a);
    if a < b {
        lemma_pow10_mono(a, (b - 1) as nat);
    }
}

proof fn lemma_digits_val_bound(s: Seq<u8>)
    requires
        all_digits(s),
    ensures
        0 <= digits_val(s) < pow10(s.len() as nat),
    decreases s.len(),
{
    if s.len() == 0 {
    } else {
        assert(all_digits(s.drop_last()));
        lemma_digits_val_bound(s.drop_last());
        assert(is_digit(s.last()));
    }
}

/// Index of the first occurrence of `b` at or after `i`, or `s.len()`.
pub open spec fn find_from(s: Seq<u8>, i: int, b: u8) -> int
    decreases s.len() - i,
{
    if i < 0 || i >= s.len() {
        s.len() as int
    } else if s[i] == b {
        i
    } else {
        find_from(s, i + 1, b)
    }
}

pub proof fn lemma_find_from(s: Seq<u8>, i: int, b: u8)
    requires
        0 <= i <= s.len(),
    ensures
        i <= find_from(s, i, b) <= s.len(),
        find_from(s, i, b) < s.len() ==> s[find_from(s, i, b)] == b,
        forall|j: int| i <= j < find_from(s, i, b) ==> s[j] != b,
    decreases s.len() - i,
{
    if i < s.len() && s[i] != b {
        lemma_find_from(s, i + 1, b);
    }
}

pub fn find_byte_from(s: &[u8], start: usize, b: u8) -> (r: usize)
    requires
        start <= s@.len(),
    ensures
        r == find_from(s@, start as int, b),
        start <= r <= s@.len(),
        r < s@.len() ==> s@[r as int] == b,
{
    let mut i: usize = start;
    while i < s.len()
        invariant
            start <= i <= s@.len(),
            find_from(s@, start as int, b) == find_from(s@, i as int, b),
        decreases s@.len() - i,
    {
        if s[i] == b {
            proof {
                lemma_find_from(s@, start as int, b);
            }
            return i;
        }
        i = i + 1;
    }
    proof {
        lemma_find_from(s@, start as int, b);
    }
    i
}

/// First index at or after `i` where `pat` occurs as a contiguous
/// subsequence of `s`, if any.
pub open spec fn find_sub_from(s: Seq<u8>, pat: Seq<u8>, i: int) -> Option<int>
    decreases s.len() - i,
{
    if i < 0 || pat.len() == 0 || i + pat.len() > s.len() {
        None
    } else if s.subrange(i, i + pat.len() as int) == pat {
        Some(i)
    } else {
        find_sub_from(s, pat, i + 1)
    }
}

pub proof fn lemma_find_sub_from(s: Seq<u8>, pat: Seq<u8>, i: int)
    requires
        0 <= i,
    ensures
        find_sub_from(s, pat, i) matches Some(j) ==>
            i <= j && j + pat.len() <= s.len() && s.subrange(j, j + pat.len() as int) == pat,
    decreases s.len() - i,
{
    if pat.len() > 0 && i + pat.len() <= s.len() && s.subrange(i, i + pat.len() as int)
        != pat {
        lemma_find_sub_from(s, pat, i + 1);
    }
}

pub fn find_sub(s: &[u8], pat: &[u8]) -> (r: Option<usize>)
    requires
        pat@.len() >= 1,
    ensures
        match r {
            Some(j) => Some(j as int) == find_sub_from(s@, pat@, 0)
                && j + pat@.len() <= s@.len(),
            None => find_sub_from(s@, pat@, 0) is None,
        },
{
    let m: usize = pat.len();
    if m > s.len() {
        return None;
    }
    let mut i: usize = 0;
    while i <= s.len() - m
        invariant
            m == pat@.len(),
            1 <= m <= s@.len(),
            0 <= i,
            i + m <= s@.len() + 1,
            find_sub_from(s@, pat@, 0) == find_sub_from(s@, pat@, i as int),
        decreases s@.len() - i,
    {
        let mut j: usize = 0;
        let mut matched: bool = true;
        while j < m
            invariant
                m == pat@.len(),
                i + m <= s@.len(),
                s@.len() <= usize::MAX,
                0 <= j <= m,
                matched ==> forall|k: int| 0 <= k < j ==> s@[i + k] == pat@[k],
                !matched ==> s@.subrange(i as int, i + m) != pat@,
            decreases m - j,
        {
            if s[i + j] != pat[j] {
                proof {
                    assert(s@.subrange(i as int, i + m)[j as int] == s@[i + j]);
                }
                matched = false;
                j = m;
            } else {
                j = j + 1;
            }
        }
        if matched {
            proof {
                assert(s@.subrange(i as int, i + m) =~= pat@);
            }
            return Some(i);
        }
        i = i + 1;
    }
    None
}

/// `s` with leading whitespace removed.
pub open spec fn trim_front(s: Seq<u8>) -> Seq<u8>
    decreases s.len(),
{
    if s.len() > 0 && is_ws(s[0]) {
        trim_front(s.skip(1))
    } else {
        s
    }
}

/// `s` with trailing whitespace removed.
pub open spec fn trim_back(s: Seq<u8>) -> Seq<u8>
    decreases s.len(),
{
    if s.len() > 0 && is_ws(s.last()) {
        trim_back(s.drop_last())
    } else {
        s
    }
}

/// `s` with whitespace removed on both sides.
pub open spec fn trimmed(s: Seq<u8>) -> Seq<u8> {
    trim_back(trim_front(s))
}

fn first_non_ws(s: &[u8]) -> (a: usize)
    ensures
        0 <= a <= s@.len(),
        trim_front(s@) == s@.skip(a as int),
        a < s@.len() ==> !is_ws(s@[a as int]),
{
    let mut a: usize = 0;
    proof {
        assert(s@.skip(0) =~= s@);
    }
    while a < s.len()
        invariant
            0 <= a <= s@.len(),
            trim_front(s@) == trim_front(s@.skip(a as int)),
        decreases s@.len() - a,
    {
        if !is_ws_byte(s[a]) {
            proof {
                assert(s@.skip(a as int)[0] == s@[a as int]);
            }
            return a;
        }
        proof {
            assert(s@.skip(a as int)[0] == s@[a as int]);
            assert(s@.skip(a as int).skip(1) =~= s@.skip(a + 1));
        }
        a = a + 1;
    }
    proof {
        assert(s@.skip(a as int) =~= Seq::<u8>::empty());
    }
    a
}

pub fn trim(s: &[u8]) -> (r: &[u8])
    ensures
        r@ == trimmed(s@),
{
    let a: usize = first_non_ws(s);
    let mut b: usize = s.len();
    proof {
        assert(s@.subrange(a as int, b as int) =~= s@.skip(a as int));
    }
    while b > a
        invariant
            0 <= a <= b <= s@.len(),
            trim_front(s@) == s@.skip(a as int),
            trim_back(s@.skip(a as int)) == trim_back(s@.subrange(a as int, b as int)),
        decreases b,
    {
        proof {
            assert(s@.subrange(a as int, b as int).last() == s@[b - 1]);
        }
        if !is_ws_byte(s[b - 1]) {
            return vstd::slice::slice_subrange(s, a, b);
        }
        proof {
            assert(s@.subrange(a as int, b as int).drop_last() =~= s@.subrange(
                a as int,
                b - 1,
            ));
        }
        b = b - 1;
    }
    proof {
        assert(s@.subrange(a as int, b as int) =~= Seq::<u8>::empty());
    }
    vstd::slice::slice_subrange(s, a, b)
}

fn is_ws_byte(b: u8) -> (r: bool)
    ensures
        r == is_ws(b),
{
    b == 0x20 || (0x09 <= b && b <= 0x0d)
}

/// The integer digits of a decimal timestamp: everything before the first
/// dot (or the whole string when there is no dot).
pub open spec fn int_part(s: Seq<u8>) -> Seq<u8> {
    s.take(find_from(s, 0, 0x2e))
}

/// The fraction digits of a decimal timestamp: everything after the first
/// dot, empty when there is no dot.
pub open spec fn frac_part(s: Seq<u8>) -> Seq<u8> {
    if find_from(s, 0, 0x2e) < s.len() {
        s.skip(find_from(s, 0, 0x2e) + 1)
    } else {
        Seq::empty()
    }
}

/// The timestamp grammar the scanner accepts: one to twelve integer
/// digits, optionally followed by a dot and any number of fraction digits.
pub open spec fn parseable(s: Seq<u8>) -> bool {
    &&& 1 <= int_part(s).len() <= 12
    &&& all_digits(int_part(s))
    &&& all_digits(frac_part(s))
}

/// Value in milliseconds of a parseable timestamp; fraction digits beyond
/// the third are ignored.
pub open spec fn frac_ms(f: Seq<u8>) -> int {
    (if f.len() >= 1 { (f[0] - 0x30) * 100 } else { 0 }) + (if f.len() >= 2 {
        (f[1] - 0x30) * 10
    } else {
        0
    }) + (if f.len() >= 3 {
        (f[2] - 0x30) as int
    } else {
        0
    })
}

pub open spec fn ms_val(s: Seq<u8>) -> int {
    digits_val(int_part(s)) * 1000 + frac_ms(frac_part(s))
}

proof fn lemma_ms_val_bound(s: Seq<u8>)
    requires
        parseable(s),
    ensures
        0 <= ms_val(s) < TIME_MAX_MS,
{
    lemma_digits_val_bound(int_part(s));
    lemma_pow10_mono(int_part(s).len() as nat, 12);
    proof_pow10_12();
    if frac_part(s).len() >= 1 {
        assert(is_digit(frac_part(s)[0]));
    }
    if frac_part(s).len() >= 2 {
        assert(is_digit(frac_part(s)[1]));
    }
    if frac_part(s).len() >= 3 {
        assert(is_digit(frac_part(s)[2]));
    }
}

proof fn proof_pow10_12()
    ensures
        pow10(12) == 1_000_000_000_000,
{
    reveal_with_fuel(pow10, 13);
}

/// Parse a decimal timestamp into milliseconds; `None` exactly when the
/// text is outside the grammar.
pub fn parse_ms(s: &[u8]) -> (r: Option<i64>)
    ensures
        parseable(s@) <==> r is Some,
        r matches Some(v) ==> v == ms_val(s@) && 0 <= v < TIME_MAX_MS,
{
    let dot: usize = find_byte_from(s, 0, 0x2e);
    if dot < 1 || dot > 12 {
        return None;
    }
    proof {
        lemma_find_from(s@, 0, 0x2e);
    }
    let mut acc: u64 = 0;
    let mut i: usize = 0;
    while i < dot
        invariant
            0 <= i <= dot <= 12,
            dot == find_from(s@, 0, 0x2e),
            dot <= s@.len(),
            all_digits(s@.take(dot as int).take(i as int)),
            acc == digits_val(s@.take(dot as int).take(i as int)),
            acc < 1_000_000_000_000,
        decreases dot - i,
    {
        let c: u8 = s[i];
        if c < 0x30 || c > 0x39 {
            proof {
                assert(int_part(s@)[i as int] == s@[i as int]);
                assert(!parseable(s@));
            }
            return None;
        }
        proof {
            let p = s@.take(dot as int);
            assert(p.take(i + 1).drop_last() =~= p.take(i as int));
            assert(p.take(i + 1).last() == s@[i as int]);
            assert(all_digits(p.take(i + 1)));
            lemma_digits_val_bound(p.take(i + 1));
            lemma_pow10_mono(p.take(i + 1).len() as nat, 12);
            proof_pow10_12();
        }
        acc = acc * 10 + ((c - 0x30) as u64);
        i = i + 1;
    }
    proof {
        assert(s@.take(dot as int).take(dot as int) =~= s@.take(dot as int));
    }
    let mut frac: u64 = 0;
    if dot < s.len() {
        let mut j: usize = dot + 1;
        while j < s.len()
            invariant
                dot + 1 <= j <= s@.len(),
                dot == find_from(s@, 0, 0x2e),
                dot < s@.len(),
                all_digits(s@.skip(dot + 1).take(j - dot - 1)),
                frac == frac_ms(s@.skip(dot + 1).take(j - dot - 1)),
                frac <= 999,
            decreases s@.len() - j,
        {
            let c: u8 = s[j];
            if c < 0x30 || c > 0x39 {
                proof {
                    assert(frac_part(s@)[j - dot - 1] == s@[j as int]);
                    assert(!all_digits(frac_part(s@)));
                }
                return None;
            }
            proof {
                let f = s@.skip(dot + 1);
                assert(f.take(j - dot) =~= f.take(j - dot - 1).push(s@[j as int]));
                assert(all_digits(f.take(j - dot)));
                assert(is_digit(s@[j as int]));
            }
            let k: usize = j - dot - 1;
            if k == 0 {
                frac = ((c - 0x30) as u64) * 100;
            } else if k == 1 {
                frac = frac + ((c - 0x30) as u64) * 10;
            } else if k == 2 {
                frac = frac + ((c - 0x30) as u64);
            }
            j = j + 1;
        }
        proof {
            assert(s@.skip(dot + 1).take(j - dot - 1) =~= s@.skip(dot + 1));
        }
    }
    proof {
        assert(parseable(s@));
        lemma_ms_val_bound(s@);
    }
    Some((acc * 1000 + frac) as i64)
}

} // verus!
