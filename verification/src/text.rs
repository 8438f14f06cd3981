//! Verified character-level string utilities.
//!
//! Property keys and values arrive from the daemon as UTF-8 strings. The
//! mirror orders, compares and scans them; everything here is stated over the
//! character sequences (`Seq<char>`) that Verus gives as the view of `str`.

use vstd::prelude::*;
use vstd::std_specs::iter::IteratorSpec;

verus! {

broadcast use vstd::string::axiom_spec_iter, vstd::string::next_postcondition;

/// Two characters with the same scalar value are the same character.
pub proof fn lemma_char_cast_inj(c1: char, c2: char)
    requires
        c1 as u32 == c2 as u32,
    ensures
        c1 == c2,
{
    vstd::utf8::char_u32_cast(c1, c1 as u32);
    vstd::utf8::char_u32_cast(c2, c2 as u32);
}

/// Collects the characters of a string slice into a vector, so that later
/// loops can index them freely.
pub fn chars_vec(s: &str) -> (v: Vec<char>)
    ensures
        v@ == s@,
{
    let mut it = s.chars();
    let mut v: Vec<char> = Vec::new();
    loop
        invariant
            it.obeys_prophetic_iter_laws(),
            it.decrease() is Some,
            v@ + it.remaining() == s@,
        ensures
            v@ + it.remaining() == s@,
            it.remaining().len() == 0,
        decreases it.decrease()->0,
    {
        match it.next() {
            Some(c) => {
                v.push(c);
            },
            None => {
                break ;
            },
        }
    }
    assert(v@ =~= s@);
    v
}

/// Strict lexicographic order on character sequences, by Unicode scalar
/// value. This is the order in which a sorted string map keeps its keys.
pub open spec fn chars_lt(a: Seq<char>, b: Seq<char>) -> bool
    decreases a.len(),
{
    if b.len() == 0 {
        false
    } else if a.len() == 0 {
        true
    } else if (a[0] as u32) < (b[0] as u32) {
        true
    } else if (b[0] as u32) < (a[0] as u32) {
        false
    } else {
        chars_lt(a.drop_first(), b.drop_first())
    }
}

/// `chars_lt` never relates a sequence to itself.
pub proof fn lemma_chars_lt_irrefl(a: Seq<char>)
    ensures
        !chars_lt(a, a),
    decreases a.len(),
{
    if a.len() > 0 {
        lemma_chars_lt_irrefl(a.drop_first());
    }
}

/// `chars_lt` is asymmetric, and related sequences are distinct.
pub proof fn lemma_chars_lt_asym(a: Seq<char>, b: Seq<char>)
    requires
        chars_lt(a, b),
    ensures
        !chars_lt(b, a),
        a != b,
    decreases a.len(),
{
    if a.len() > 0 && b.len() > 0 && a[0] as u32 == b[0] as u32 {
        lemma_chars_lt_asym(a.drop_first(), b.drop_first());
        assert(a != b) by {
            if a == b {
                assert(a.drop_first() == b.drop_first());
            }
        }
    }
}

/// `chars_lt` is transitive.
pub proof fn lemma_chars_lt_trans(a: Seq<char>, b: Seq<char>, c: Seq<char>)
    requires
        chars_lt(a, b),
        chars_lt(b, c),
    ensures
        chars_lt(a, c),
    decreases a.len(),
{
    if a.len() > 0 && b.len() > 0 && c.len() > 0 && a[0] as u32 == b[0] as u32 && b[0] as u32
        == c[0] as u32 {
        lemma_chars_lt_trans(a.drop_first(), b.drop_first(), c.drop_first());
    }
}

/// A shared proper prefix followed by a smaller character (or by the end of
/// the shorter sequence) witnesses `chars_lt`.
pub proof fn lemma_chars_lt_from_prefix(a: Seq<char>, b: Seq<char>, i: int)
    requires
        0 <= i <= a.len(),
        i < b.len(),
        forall|j: int| 0 <= j < i ==> a[j] == b[j],
        i == a.len() || (a[i] as u32) < (b[i] as u32),
    ensures
        chars_lt(a, b),
    decreases i,
{
    if i == 0 {
        if a.len() == 0 {
        } else {
            assert((a[0] as u32) < (b[0] as u32));
        }
    } else {
        lemma_chars_lt_from_prefix(a.drop_first(), b.drop_first(), i - 1);
    }
}

/// Result of a three-way comparison of two character sequences.
#[derive(Clone, Copy, PartialEq, Eq, Structural, Debug)]
pub enum CharsOrder {
    Less,
    Equal,
    Greater,
}

/// Three-way comparison of two character vectors under `chars_lt`.
pub fn cmp_chars(a: &Vec<char>, b: &Vec<char>) -> (o: CharsOrder)
    ensures
        (o is Less) <==> chars_lt(a@, b@),
        (o is Greater) <==> chars_lt(b@, a@),
        (o is Equal) <==> a@ == b@,
{
    let mut i: usize = 0;
    while i < a.len() && i < b.len()
        invariant
            i <= a.len(),
            i <= b.len(),
            forall|j: int| 0 <= j < i ==> a@[j] == b@[j],
        decreases a.len() - i,
    {
        let x = a[i] as u32;
        let y = b[i] as u32;
        if x < y {
            proof {
                lemma_chars_lt_from_prefix(a@, b@, i as int);
                lemma_chars_lt_asym(a@, b@);
            }
            return CharsOrder::Less;
        }
        if y < x {
            proof {
                lemma_chars_lt_from_prefix(b@, a@, i as int);
                lemma_chars_lt_asym(b@, a@);
            }
            return CharsOrder::Greater;
        }
        proof {
            lemma_char_cast_inj(a@[i as int], b@[i as int]);
        }
        i = i + 1;
    }
    if a.len() < b.len() {
        proof {
            lemma_chars_lt_from_prefix(a@, b@, a@.len() as int);
            lemma_chars_lt_asym(a@, b@);
        }
        CharsOrder::Less
    } else if b.len() < a.len() {
        proof {
            lemma_chars_lt_from_prefix(b@, a@, b@.len() as int);
            lemma_chars_lt_asym(b@, a@);
        }
        CharsOrder::Greater
    } else {
        proof {
            assert(a@ =~= b@);
            lemma_chars_lt_irrefl(a@);
        }
        CharsOrder::Equal
    }
}

/// Whether two string slices hold the same characters.
pub fn str_eq(a: &str, b: &str) -> (r: bool)
    ensures
        r == (a@ == b@),
{
    let av = chars_vec(a);
    let bv = chars_vec(b);
    matches!(cmp_chars(&av, &bv), CharsOrder::Equal)
}

/// `p` stands at the front of `s`.
pub open spec fn has_prefix(s: Seq<char>, p: Seq<char>) -> bool {
    p.len() <= s.len() && s.subrange(0, p.len() as int) == p
}

/// `p` stands at the end of `s`.
pub open spec fn has_suffix(s: Seq<char>, p: Seq<char>) -> bool {
    p.len() <= s.len() && s.subrange(s.len() - p.len(), s.len() as int) == p
}

/// `p` occurs somewhere inside `s`.
pub open spec fn has_substring(s: Seq<char>, p: Seq<char>) -> bool {
    exists|i: int| 0 <= i && i + p.len() <= s.len() && #[trigger] s.subrange(i, i + p.len()) == p
}

/// Whether `p` matches `s` at position `at`.
fn chars_match_at(s: &Vec<char>, p: &Vec<char>, at: usize) -> (r: bool)
    requires
        at + p.len() <= s.len(),
    ensures
        r == (s@.subrange(at as int, at + p@.len()) == p@),
{
    let mut j: usize = 0;
    while j < p.len()
        invariant
            at + p.len() <= s.len(),
            j <= p.len(),
            forall|k: int| 0 <= k < j ==> s@[at + k] == p@[k],
        decreases p.len() - j,
    {
        if (s[at + j] as u32) != (p[j] as u32) {
            proof {
                assert(s@.subrange(at as int, at + p@.len())[j as int] == s@[at + j]);
            }
            return false;
        }
        proof {
            lemma_char_cast_inj(s@[at + j], p@[j as int]);
        }
        j = j + 1;
    }
    proof {
        assert(s@.subrange(at as int, at + p@.len()) =~= p@);
    }
    true
}

/// Whether the characters of `p` stand at the front of `s`.
pub fn chars_have_prefix(s: &Vec<char>, p: &Vec<char>) -> (r: bool)
    ensures
        r == has_prefix(s@, p@),
{
    if p.len() > s.len() {
        return false;
    }
    chars_match_at(s, p, 0)
}

/// Whether the characters of `p` stand at the end of `s`.
pub fn chars_have_suffix(s: &Vec<char>, p: &Vec<char>) -> (r: bool)
    ensures
        r == has_suffix(s@, p@),
{
    if p.len() > s.len() {
        return false;
    }
    chars_match_at(s, p, s.len() - p.len())
}

/// Whether the characters of `p` occur inside `s`.
pub fn chars_have_substring(s: &Vec<char>, p: &Vec<char>) -> (r: bool)
    ensures
        r == has_substring(s@, p@),
{
    if p.len() > s.len() {
        assert(!has_substring(s@, p@));
        return false;
    }
    let end = s.len() - p.len();
    let mut i: usize = 0;
    loop
        invariant
            p.len() <= s.len(),
            end == s.len() - p.len(),
            i <= end,
            forall|k: int| 0 <= k < i ==> #[trigger] s@.subrange(k, k + p@.len()) != p@,
        ensures
            forall|k: int| 0 <= k <= end ==> #[trigger] s@.subrange(k, k + p@.len()) != p@,
        decreases end - i,
    {
        if chars_match_at(s, p, i) {
            assert(has_substring(s@, p@));
            return true;
        }
        if i == end {
            break ;
        }
        i = i + 1;
    }
    assert(!has_substring(s@, p@));
    false
}

/// String-slice forms of the scans above, for callers that hold `&str`.
pub fn str_has_prefix(s: &str, p: &str) -> (r: bool)
    ensures
        r == has_prefix(s@, p@),
{
    chars_have_prefix(&chars_vec(s), &chars_vec(p))
}

/// See `str_has_prefix`.
pub fn str_has_suffix(s: &str, p: &str) -> (r: bool)
    ensures
        r == has_suffix(s@, p@),
{
    chars_have_suffix(&chars_vec(s), &chars_vec(p))
}

/// See `str_has_prefix`.
pub fn str_has_substring(s: &str, p: &str) -> (r: bool)
    ensures
        r == has_substring(s@, p@),
{
    chars_have_substring(&chars_vec(s), &chars_vec(p))
}

/// A decimal digit.
pub open spec fn is_digit(c: char) -> bool {
    48 <= c as u32 <= 57
}

/// The value of a sequence of decimal digits, most significant first.
pub open spec fn dec_value(digits: Seq<char>) -> int
    decreases digits.len(),
{
    if digits.len() == 0 {
        0
    } else {
        dec_value(digits.drop_last()) * 10 + (digits.last() as u32 - 48)
    }
}

proof fn lemma_dec_value_nonneg(digits: Seq<char>)
    requires
        forall|i: int| 0 <= i < digits.len() ==> is_digit(#[trigger] digits[i]),
    ensures
        dec_value(digits) >= 0,
    decreases digits.len(),
{
    if digits.len() > 0 {
        lemma_dec_value_nonneg(digits.drop_last());
    }
}

proof fn lemma_dec_value_monotonic(digits: Seq<char>, i: int)
    requires
        0 <= i <= digits.len(),
        forall|j: int| 0 <= j < digits.len() ==> is_digit(#[trigger] digits[j]),
    ensures
        dec_value(digits.take(i)) <= dec_value(digits),
    decreases digits.len() - i,
{
    if i < digits.len() {
        lemma_dec_value_monotonic(digits, i + 1);
        assert(digits.take(i + 1).drop_last() =~= digits.take(i));
        lemma_dec_value_nonneg(digits.take(i));
        assert(dec_value(digits.take(i + 1)) == dec_value(digits.take(i)) * 10 + (digits[i] as u32
            - 48));
    } else {
        assert(digits.take(i) =~= digits);
    }
}

/// The numeric reading of a string, matching the standard decimal parse for
/// `u32`: an optional leading `+`, then one or more digits, rejecting
/// anything else and any value above `u32::MAX`.
pub open spec fn spec_digits_of(s: Seq<char>) -> Seq<char> {
    if s.len() > 0 && s[0] == '+' {
        s.drop_first()
    } else {
        s
    }
}

pub open spec fn spec_parse_u32(s: Seq<char>) -> Option<u32> {
    let digits = spec_digits_of(s);
    if digits.len() > 0 && (forall|i: int| 0 <= i < digits.len() ==> is_digit(#[trigger] digits[i]))
        && dec_value(digits) <= u32::MAX {
        Some(dec_value(digits) as u32)
    } else {
        None
    }
}

/// Reads a `u32` from decimal text; `None` on empty input, a stray
/// character, or overflow.
pub fn parse_u32(s: &str) -> (r: Option<u32>)
    ensures
        r == spec_parse_u32(s@),
{
    let cs = chars_vec(s);
    let start: usize = if cs.len() > 0 && cs[0] as u32 == 43 {
        proof {
            lemma_char_cast_inj(cs@[0], '+');
        }
        1
    } else {
        proof {
            assert('+' as u32 == 43);
            if cs@.len() > 0 {
                assert(cs@[0] != '+');
            }
        }
        0
    };
    let ghost digits: Seq<char> = spec_digits_of(s@);
    proof {
        assert(digits =~= cs@.subrange(start as int, cs@.len() as int));
    }
    if cs.len() == start {
        return None;
    }
    let mut i: usize = start;
    let mut acc: u64 = 0;
    let mut overflow = false;
    while i < cs.len()
        invariant
            start <= i <= cs.len(),
            cs@ == s@,
            digits == spec_digits_of(s@),
            digits =~= cs@.subrange(start as int, cs@.len() as int),
            forall|j: int| 0 <= j < i - start ==> is_digit(#[trigger] digits[j]),
            !overflow ==> acc == dec_value(digits.take(i - start)) && acc <= u32::MAX,
            overflow ==> dec_value(digits.take(i - start)) > u32::MAX,
        decreases cs.len() - i,
    {
        let u = cs[i] as u32;
        if u < 48 || u > 57 {
            proof {
                assert(digits[i - start] == cs@[i as int]);
                assert(!is_digit(digits[i - start]));
                assert(!(forall|j: int|
                    0 <= j < digits.len() ==> is_digit(#[trigger] digits[j])));
            }
            return None;
        }
        proof {
            assert(digits[i - start] == cs@[i as int]);
            assert(digits.take(i - start + 1).drop_last() =~= digits.take(i - start));
            lemma_dec_value_nonneg(digits.take(i - start));
        }
        if !overflow {
            acc = acc * 10 + (u - 48) as u64;
            if acc > u32::MAX as u64 {
                overflow = true;
            }
        }
        i = i + 1;
    }
    proof {
        assert(digits.take(i - start) =~= digits);
    }
    if overflow {
        proof {
            if forall|j: int| 0 <= j < digits.len() ==> is_digit(#[trigger] digits[j]) {
                lemma_dec_value_monotonic(digits, digits.len() as int);
            }
        }
        None
    } else {
        Some(acc as u32)
    }
}

} // verus!
