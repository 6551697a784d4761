//! String building helpers: appending single characters and rendering
//! unsigned numbers in decimal.

use vstd::prelude::*;

verus! {

/// Relies on String::push: appends exactly one character.
#[verifier::external_body]
pub(crate) fn push_char(s: &mut String, c: char)
    ensures
        final(s)@ == old(s)@.push(c),
{
    s.push(c);
}

/// The character for one decimal digit.
pub open spec fn spec_digit_char(d: nat) -> char {
    (((d + 48) as u8) as char)
}

/// Decimal rendering of `n`, most significant digit first, no leading
/// zeros (except for `n == 0`, which is the single digit `0`).
pub open spec fn spec_decimal(n: nat) -> Seq<char>
    decreases n,
{
    if n < 10 {
        seq![spec_digit_char(n)]
    } else {
        spec_decimal(n / 10).push(spec_digit_char(n % 10))
    }
}

/// Append the decimal rendering of `n` to `s`.
pub fn push_decimal(s: &mut String, n: u64)
    ensures
        final(s)@ == old(s)@ + spec_decimal(n as nat),
    decreases n,
{
    if n < 10 {
        let d: u8 = (n as u8) + 48;
        push_char(s, d as char);
        proof {
            assert(old(s)@.push(spec_digit_char(n as nat)) =~= old(s)@ + spec_decimal(n as nat));
        }
    } else {
        push_decimal(s, n / 10);
        let ghost mid = s@;
        let d: u8 = ((n % 10) as u8) + 48;
        push_char(s, d as char);
        proof {
            assert(mid.push(spec_digit_char((n % 10) as nat)) =~= old(s)@ + spec_decimal(n as nat));
        }
    }
}

/// Decimal rendering of a signed number: a minus sign before the digits
/// of the magnitude.
pub open spec fn spec_i64_decimal(n: i64) -> Seq<char> {
    if n >= 0 {
        spec_decimal(n as nat)
    } else {
        seq!['-'] + spec_decimal((-(n as int)) as nat)
    }
}

/// The decimal rendering of a signed number as a fresh string.
pub fn i64_to_string(n: i64) -> (r: String)
    ensures
        r@ == spec_i64_decimal(n),
{
    let mut s = String::new();
    if n >= 0 {
        push_decimal(&mut s, n as u64);
        proof {
            assert(Seq::<char>::empty() + spec_decimal(n as nat) =~= spec_decimal(n as nat));
        }
    } else {
        push_char(&mut s, '-');
        let mag: u64 = ((-(n + 1)) as u64) + 1;
        proof {
            assert(mag as int == -(n as int));
        }
        push_decimal(&mut s, mag);
        proof {
            assert(Seq::<char>::empty().push('-') + spec_decimal(mag as nat) =~= seq!['-']
                + spec_decimal((-(n as int)) as nat));
        }
    }
    s
}

/// Whether two string slices hold the same characters.
pub fn str_eq(a: &str, b: &str) -> (r: bool)
    ensures
        r == (a@ == b@),
{
    let na = a.unicode_len();
    let nb = b.unicode_len();
    if na != nb {
        return false;
    }
    let mut i: usize = 0;
    while i < na
        invariant
            i <= na,
            na == a@.len(),
            na == b@.len(),
            forall|j: int| 0 <= j < i ==> a@[j] == b@[j],
        decreases na - i,
    {
        if a.get_char(i) != b.get_char(i) {
            return false;
        }
        i = i + 1;
    }
    proof {
        assert(a@ =~= b@);
    }
    true
}

/// Whether `needle` occurs contiguously somewhere in `hay`.
pub open spec fn spec_contains_sub(hay: Seq<char>, needle: Seq<char>) -> bool {
    exists|k: int|
        0 <= k && k + needle.len() <= hay.len() && #[trigger] hay.subrange(k, k + needle.len())
            == needle
}

/// Substring search: whether `needle` occurs contiguously in `hay`.
pub fn contains_sub(hay: &Vec<char>, needle: &Vec<char>) -> (r: bool)
    ensures
        r == spec_contains_sub(hay@, needle@),
{
    let nh = hay.len();
    let nn = needle.len();
    if nn > nh {
        proof {
            assert(!spec_contains_sub(hay@, needle@));
        }
        return false;
    }
    if nn == 0 {
        proof {
            assert(hay@.subrange(0int, 0int + needle@.len()) =~= needle@);
        }
        return true;
    }
    let mut k: usize = 0;
    while k <= nh - nn
        invariant
            nn <= nh,
            nh == hay@.len(),
            nn == needle@.len(),
            1 <= nn,
            k <= nh - nn + 1,
            forall|k2: int|
                0 <= k2 < k ==> #[trigger] hay@.subrange(k2, k2 + needle@.len()) != needle@,
        decreases nh - k,
    {
        let mut m: usize = 0;
        let mut matched = true;
        while m < nn
            invariant_except_break
                matched,
                forall|j: int| 0 <= j < m ==> hay@[k + j] == needle@[j],
            invariant
                k + nn <= nh,
                1 <= nn,
                nh == hay@.len(),
                nn == needle@.len(),
                m <= nn,
            ensures
                matched ==> forall|j: int| 0 <= j < nn ==> hay@[k + j] == needle@[j],
                !matched ==> hay@.subrange(k as int, k + needle@.len()) != needle@,
            decreases nn - m,
        {
            if hay[k + m] != needle[m] {
                proof {
                    assert(hay@.subrange(k as int, k + needle@.len())[m as int] == hay@[k + m]);
                }
                matched = false;
                break ;
            }
            m = m + 1;
        }
        if matched {
            proof {
                assert(hay@.subrange(k as int, (k as int) + needle@.len()) =~= needle@);
            }
            return true;
        }
        k = k + 1;
    }
    proof {
        assert forall|k2: int|
            0 <= k2 && k2 + needle@.len() <= hay@.len() implies #[trigger] hay@.subrange(
            k2,
            k2 + needle@.len(),
        ) != needle@ by {
            assert(k2 < k);
        }
    }
    false
}

/// The decimal rendering of `n` as a fresh string.
pub fn u64_to_string(n: u64) -> (r: String)
    ensures
        r@ == spec_decimal(n as nat),
{
    let mut s = String::new();
    push_decimal(&mut s, n);
    proof {
        assert(Seq::<char>::empty() + spec_decimal(n as nat) =~= spec_decimal(n as nat));
    }
    s
}

} // verus!
