//! Character-level helpers shared by the parsers.

use vstd::prelude::*;
use vstd::std_specs::iter::IteratorSpec;
use vstd::string::StringSliceAdditionalSpecFns;

verus! {

broadcast use vstd::string::group_string_axioms;

/// True for the Unicode scalar values, the exact set of values a `char` may hold.
pub open spec fn is_unicode_scalar(v: u32) -> bool {
    v < 0xD800 || (0xE000 <= v && v <= 0x10FFFF)
}

/// Relies on `char::from_u32`: the documentation states that it returns
/// `Some` exactly for the Unicode scalar values, and then the `char` with
/// that code point.
pub assume_specification[ char::from_u32 ](v: u32) -> (r: Option<char>)
    ensures
        match r {
            Some(c) => is_unicode_scalar(v) && c == v as char,
            None => !is_unicode_scalar(v),
        },
;

/// Relies on `String::push`: appends one character at the end.
#[verifier::external_body]
pub fn push_char(s: &mut String, c: char)
    ensures
        final(s)@ == old(s)@.push(c),
{
    s.push(c);
}

/// The characters of `s`, one `Vec` element per `char`.
pub fn str_to_chars(s: &str) -> (r: Vec<char>)
    ensures
        r@ == s@,
{
    let mut out: Vec<char> = Vec::new();
    let mut it = s.chars();
    loop
        invariant
            it.obeys_prophetic_iter_laws(),
            it.decrease() is Some,
            out@ + it.remaining() == s@,
        decreases it.decrease()->0,
    {
        match it.next() {
            Some(c) => {
                out.push(c);
                proof {
                    assert(out@ + it.remaining() =~= s@);
                }
            },
            None => {
                proof {
                    assert(out@ =~= s@);
                }
                return out;
            },
        }
    }
}

/// The string holding exactly the characters of `v`.
pub fn chars_to_string(v: &Vec<char>) -> (s: String)
    ensures
        s@ == v@,
{
    let mut s = String::new();
    let n = v.len();
    for i in 0..n
        invariant
            n == v.len(),
            s@ == v@.take(i as int),
    {
        push_char(&mut s, v[i]);
        proof {
            assert(v@.take(i + 1) =~= v@.take(i as int).push(v@[i as int]));
        }
    }
    proof {
        assert(v@.take(n as int) =~= v@);
    }
    s
}

/// Character-for-character equality of two string slices.
pub fn str_eq(a: &str, b: &str) -> (r: bool)
    ensures
        r == (a@ == b@),
{
    broadcast use vstd::utf8::encode_utf8_decode_utf8;

    let ab = a.as_bytes();
    let bb = b.as_bytes();
    if ab.len() != bb.len() {
        return false;
    }
    let n = ab.len();
    for i in 0..n
        invariant
            n == ab@.len() == bb@.len(),
            ab@ == a.spec_bytes(),
            bb@ == b.spec_bytes(),
            ab@.take(i as int) == bb@.take(i as int),
    {
        if ab[i] != bb[i] {
            proof {
                assert(ab@ != bb@);
            }
            return false;
        }
        proof {
            assert(ab@.take(i + 1) =~= ab@.take(i as int).push(ab@[i as int]));
            assert(bb@.take(i + 1) =~= bb@.take(i as int).push(bb@[i as int]));
        }
    }
    proof {
        assert(ab@.take(n as int) =~= ab@);
        assert(bb@.take(n as int) =~= bb@);
        vstd::utf8::encode_utf8_decode_utf8(a@);
        vstd::utf8::encode_utf8_decode_utf8(b@);
        assert(a@ == b@);
    }
    true
}

/// One decimal digit.
pub open spec fn is_digit(c: char) -> bool {
    '0' <= c && c <= '9'
}

/// The lower-case form of an ASCII letter; other characters stay themselves.
pub open spec fn lower_char(c: char) -> char {
    if 'A' <= c && c <= 'Z' {
        ((c as u8) + 32) as char
    } else {
        c
    }
}

/// How many consecutive digits stand at position `i`.
pub open spec fn digit_run_len(s: Seq<char>, i: int) -> int
    decreases s.len() - i when 0 <= i <= s.len()
{
    if i < s.len() && is_digit(s[i]) {
        1 + digit_run_len(s, i + 1)
    } else {
        0
    }
}

/// The value of the `k` digits that start at position `i`.
pub open spec fn run_value(s: Seq<char>, i: int, k: int) -> int
    decreases k,
{
    if k <= 0 {
        0
    } else {
        run_value(s, i, k - 1) * 10 + (s[i + k - 1] as int - 48)
    }
}

/// Ten to the given power.
pub open spec fn pow10(k: int) -> int
    decreases k,
{
    if k <= 0 {
        1
    } else {
        10 * pow10(k - 1)
    }
}

pub proof fn lemma_pow10_le(a: int, b: int)
    requires
        0 <= a <= b,
    ensures
        1 <= pow10(a) <= pow10(b),
    decreases b,
{
    if a < b {
        lemma_pow10_le(a, b - 1);
    } else if a > 0 {
        lemma_pow10_le(a - 1, a - 1);
    }
}

/// The lower-case form of an ASCII letter, executably.
pub fn lower(c: char) -> (r: char)
    ensures
        r == lower_char(c),
{
    if 'A' <= c && c <= 'Z' {
        ((c as u8) + 32) as char
    } else {
        c
    }
}

/// The length of the digit run that starts at `i`.
pub fn digit_run(chars: &Vec<char>, i: usize) -> (r: usize)
    requires
        i <= chars@.len(),
    ensures
        r == digit_run_len(chars@, i as int),
        i + r <= chars@.len(),
        forall|j: int| i <= j < i + r ==> is_digit(#[trigger] chars@[j]),
{
    let mut j = i;
    while j < chars.len() && '0' <= chars[j] && chars[j] <= '9'
        invariant
            i <= j <= chars@.len(),
            digit_run_len(chars@, i as int) == (j - i) + digit_run_len(chars@, j as int),
            forall|j2: int| i <= j2 < j ==> is_digit(#[trigger] chars@[j2]),
        decreases chars@.len() - j,
    {
        j += 1;
    }
    j - i
}

/// The value of the `k` digits that start at `i`.
pub fn run_val(chars: &Vec<char>, i: usize, k: usize) -> (r: u32)
    requires
        k <= 9,
        i + k <= chars@.len(),
        forall|j: int| i <= j < i + k ==> is_digit(#[trigger] chars@[j]),
    ensures
        r == run_value(chars@, i as int, k as int),
        r < 1000000000,
{
    let mut acc: u32 = 0;
    let n = chars.len();
    for j in 0..k
        invariant
            k <= 9,
            n == chars@.len(),
            i + k <= chars@.len(),
            forall|j2: int| i <= j2 < i + k ==> is_digit(#[trigger] chars@[j2]),
            acc == run_value(chars@, i as int, j as int),
            acc < pow10(j as int),
    {
        proof {
            reveal_with_fuel(pow10, 11);
            lemma_pow10_le(j as int, 8);
            assert(is_digit(chars@[i + j]));
        }
        acc = acc * 10 + (chars[i + j] as u32 - 48);
    }
    proof {
        reveal_with_fuel(pow10, 11);
        lemma_pow10_le(k as int, 9);
    }
    acc
}

} // verus!
