//! Character-level text helpers. Layout arithmetic is done over `Vec<char>`
//! so that padding counts display characters, never bytes, and multi-byte
//! glyphs cannot desynchronize the box borders.

use vstd::prelude::*;
use vstd::string::StrSliceExecFns;

verus! {

/// The characters of `s`, in order.
pub fn str_to_chars(s: &str) -> (r: Vec<char>)
    ensures
        r@ == s@,
{
    let n = s.unicode_len();
    let mut r: Vec<char> = Vec::new();
    let mut i: usize = 0;
    while i < n
        invariant
            i <= n,
            n == s@.len(),
            r@ == s@.subrange(0, i as int),
        decreases n - i,
    {
        let c = s.get_char(i);
        r.push(c);
        proof {
            assert(s@.subrange(0, i as int).push(s@[i as int]) =~= s@.subrange(0, i as int + 1));
        }
        i = i + 1;
    }
    proof {
        assert(r@ =~= s@);
    }
    r
}

/// Relies on `String: FromIterator<char>`: collecting characters yields the
/// string of exactly those characters, in order.
#[verifier::external_body]
pub fn chars_to_string(v: &Vec<char>) -> (r: String)
    ensures
        r@ == v@,
{
    v.iter().collect()
}

/// The uppercase equivalent of a character sequence, as
/// `str::to_uppercase` computes it.
pub uninterp spec fn upper_of(s: Seq<char>) -> Seq<char>;

/// Relies on `str::to_uppercase`: the uppercase equivalent of the string,
/// a function of its characters alone.
#[verifier::external_body]
pub fn to_upper(s: &String) -> (r: String)
    ensures
        r@ == upper_of(s@),
{
    s.to_uppercase()
}

/// The decimal digit character for `n` in `0..10`.
pub open spec fn spec_digit_char(n: int) -> char {
    ((48 + n) as u8) as char
}

/// The decimal text of a nonnegative integer, without sign or leading
/// zeros (empty for a negative argument).
pub open spec fn spec_nat_text(n: int) -> Seq<char>
    decreases n,
{
    if n < 0 {
        Seq::<char>::empty()
    } else if n < 10 {
        seq![spec_digit_char(n)]
    } else {
        spec_nat_text(n / 10) + seq![spec_digit_char(n % 10)]
    }
}

/// The decimal text of an integer: a minus sign for a negative value,
/// then its magnitude's digits.
pub open spec fn spec_int_text(n: int) -> Seq<char> {
    if n < 0 {
        seq!['-'] + spec_nat_text(-n)
    } else {
        spec_nat_text(n)
    }
}

/// The decimal digits of `n`.
pub(crate) fn u64_to_chars(n: u64) -> (r: Vec<char>)
    ensures
        r@ == spec_nat_text(n as int),
    decreases n,
{
    let d: u8 = (n % 10) as u8;
    let c: char = (48 + d) as char;
    if n < 10 {
        let mut r: Vec<char> = Vec::new();
        r.push(c);
        proof {
            assert(r@ =~= seq![spec_digit_char(n as int)]);
        }
        r
    } else {
        let mut r = u64_to_chars(n / 10);
        r.push(c);
        proof {
            assert(r@ =~= spec_nat_text(n as int / 10) + seq![spec_digit_char(n as int % 10)]);
        }
        r
    }
}

/// The decimal text of `n`, as the report renders integer fields.
pub fn i64_to_string(n: i64) -> (r: String)
    ensures
        r@ == spec_int_text(n as int),
{
    if n >= 0 {
        let v = u64_to_chars(n as u64);
        chars_to_string(&v)
    } else {
        let m: u64 = if n == i64::MIN {
            9223372036854775808u64
        } else {
            (-n) as u64
        };
        let mut digits = u64_to_chars(m);
        let ghost d0 = digits@;
        let mut v: Vec<char> = Vec::new();
        v.push('-');
        v.append(&mut digits);
        proof {
            assert(v@ =~= seq!['-'] + d0);
        }
        chars_to_string(&v)
    }
}

/// The characters of `t[i..j]`.
pub(crate) fn copy_range(t: &Vec<char>, i: usize, j: usize) -> (r: Vec<char>)
    requires
        i <= j <= t@.len(),
    ensures
        r@ == t@.subrange(i as int, j as int),
{
    let mut r: Vec<char> = Vec::new();
    let mut k: usize = i;
    while k < j
        invariant
            i <= k <= j <= t@.len(),
            r@ == t@.subrange(i as int, k as int),
        decreases j - k,
    {
        r.push(t[k]);
        proof {
            assert(t@.subrange(i as int, k as int).push(t@[k as int]) =~= t@.subrange(
                i as int,
                k as int + 1,
            ));
        }
        k = k + 1;
    }
    r
}

/// Relies on `char::from_u32`: `Some` exactly for code points that are
/// valid scalar values (not surrogates, not beyond the maximum), carrying
/// that code point.
#[verifier::external_body]
pub(crate) fn char_from_code(code: u32) -> (r: Option<char>)
    ensures
        (code < 0xD800 || (0xE000 <= code && code <= 0x10FFFF)) ==> r == Some::<char>(
            code as char,
        ),
        !(code < 0xD800 || (0xE000 <= code && code <= 0x10FFFF)) ==> r is None,
{
    char::from_u32(code)
}

/// True when the two character vectors hold the same characters.
pub fn chars_eq(a: &Vec<char>, b: &Vec<char>) -> (r: bool)
    ensures
        r == (a@ == b@),
{
    if a.len() != b.len() {
        proof {
            assert(a@.len() != b@.len());
        }
        return false;
    }
    let n = a.len();
    let mut i: usize = 0;
    while i < n
        invariant
            i <= n,
            n == a@.len(),
            n == b@.len(),
            forall|k: int| 0 <= k < i ==> a@[k] == b@[k],
        decreases n - i,
    {
        if a[i] != b[i] {
            return false;
        }
        i = i + 1;
    }
    proof {
        assert(a@ =~= b@);
    }
    true
}

} // verus!
