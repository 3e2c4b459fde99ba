//! Character-level helpers shared by the rest of the library, and the few
//! standard-library string operations that the library relies on.

use vstd::prelude::*;

verus! {

/// The characters of a string slice, in order.
pub fn chars_of(s: &str) -> (v: Vec<char>)
    ensures
        v@ == s@,
{
    broadcast use vstd::string::axiom_spec_iter;

    let mut v: Vec<char> = Vec::new();
    for c in it: s.chars()
        invariant
            v@ == it.seq().take(it.index() as int),
            it.seq() == s@,
    {
        v.push(c);
    }
    v
}

/// A string holding exactly the given characters.
pub fn string_of(v: &[char]) -> (s: String)
    ensures
        s@ == v@,
{
    let mut s = String::new();
    let mut i: usize = 0;
    while i < v.len()
        invariant
            i <= v.len(),
            s@ == v@.take(i as int),
        decreases v.len() - i,
    {
        push_char(&mut s, v[i]);
        assert(v@.take(i + 1) =~= v@.take(i as int).push(v@[i as int]));
        i = i + 1;
    }
    assert(v@.take(i as int) =~= v@);
    s
}

/// Whether two string slices hold the same characters.
pub fn same_text(a: &str, b: &str) -> (r: bool)
    ensures
        r == (a@ == b@),
{
    let x = chars_of(a);
    let y = chars_of(b);
    if x.len() != y.len() {
        return false;
    }
    let mut i: usize = 0;
    while i < x.len()
        invariant
            i <= x.len(),
            x.len() == y.len(),
            x@ == a@,
            y@ == b@,
            x@.take(i as int) == y@.take(i as int),
        decreases x.len() - i,
    {
        if x[i] != y[i] {
            assert(x@[i as int] != y@[i as int]);
            assert(a@ != b@) by {
                if a@ == b@ {
                    assert(x@[i as int] == y@[i as int]);
                }
            }
            return false;
        }
        assert(x@.take(i + 1) =~= x@.take(i as int).push(x@[i as int]));
        assert(y@.take(i + 1) =~= y@.take(i as int).push(y@[i as int]));
        i = i + 1;
    }
    assert(x@.take(i as int) =~= x@);
    assert(y@.take(i as int) =~= y@);
    true
}

/// What `str::to_uppercase` makes of a sequence of characters: the Unicode
/// uppercase mapping, which can change the length of the text.
pub uninterp spec fn upper_case(s: Seq<char>) -> Seq<char>;

/// What `str::to_lowercase` makes of a sequence of characters: the Unicode
/// lowercase mapping, which can change the length of the text.
pub uninterp spec fn lower_case(s: Seq<char>) -> Seq<char>;

/// `str::to_uppercase`: the result is the Unicode uppercase mapping of the
/// whole text, a function of the text alone; empty text stays empty. The
/// mapping itself is not stated.
#[verifier::external_body]
pub(crate) fn to_upper(s: &str) -> (r: String)
    ensures
        r@ == upper_case(s@),
        s@.len() == 0 ==> r@ == Seq::<char>::empty(),
{
    s.to_uppercase()
}

/// `str::to_lowercase`: the result is the Unicode lowercase mapping of the
/// whole text, a function of the text alone; empty text stays empty. The
/// mapping itself is not stated.
#[verifier::external_body]
pub(crate) fn to_lower(s: &str) -> (r: String)
    ensures
        r@ == lower_case(s@),
        s@.len() == 0 ==> r@ == Seq::<char>::empty(),
{
    s.to_lowercase()
}

/// `String::push`: appends one character.
#[verifier::external_body]
pub(crate) fn push_char(s: &mut String, c: char)
    ensures
        final(s)@ == old(s)@.push(c),
{
    s.push(c)
}

/// Appends the characters of a string slice.
pub fn push_text(s: &mut String, t: &str)
    ensures
        final(s)@ == old(s)@ + t@,
{
    let chars = chars_of(t);
    let ghost start = s@;
    let mut i: usize = 0;
    while i < chars.len()
        invariant
            i <= chars.len(),
            s@ == start + chars@.take(i as int),
        decreases chars.len() - i,
    {
        push_char(s, chars[i]);
        assert(start + chars@.take(i + 1) =~= (start + chars@.take(i as int)).push(chars@[i as int]));
        i = i + 1;
    }
    assert(chars@.take(i as int) =~= chars@);
}

pub open spec fn is_ascii_digit(c: char) -> bool {
    '0' <= c && c <= '9'
}

pub open spec fn is_ascii_alphanumeric(c: char) -> bool {
    ||| is_ascii_digit(c)
    ||| ('a' <= c && c <= 'z')
    ||| ('A' <= c && c <= 'Z')
}

/// The number written by a sequence of decimal digits.
pub open spec fn digits_value(s: Seq<char>) -> int
    decreases s.len(),
{
    if s.len() == 0 {
        0
    } else {
        digits_value(s.drop_last()) * 10 + (s.last() as int - '0' as int)
    }
}

pub open spec fn all_digits(s: Seq<char>) -> bool {
    forall|i: int| 0 <= i < s.len() ==> is_ascii_digit(#[trigger] s[i])
}

/// What `str::parse::<u8>` accepts: an optional `+`, then at least one
/// decimal digit, with a value that fits in a byte.
pub open spec fn parse_u8(s: Seq<char>) -> Option<int> {
    let digits = if s.len() > 0 && s[0] == '+' { s.drop_first() } else { s };
    if digits.len() > 0 && all_digits(digits) && digits_value(digits) <= 255 {
        Some(digits_value(digits))
    } else {
        None
    }
}

pub proof fn lemma_digits_value_nonneg(s: Seq<char>)
    requires
        all_digits(s),
    ensures
        digits_value(s) >= 0,
    decreases s.len(),
{
    if s.len() > 0 {
        lemma_digits_value_nonneg(s.drop_last());
    }
}

/// `str::parse::<u8>` on the characters `s[start..]`.
pub fn parse_byte(s: &Vec<char>, start: usize) -> (r: Option<u8>)
    requires
        start <= s@.len(),
    ensures
        match parse_u8(s@.skip(start as int)) {
            Some(v) => r == Some(v as u8),
            None => r is None,
        },
        parse_u8(s@.skip(start as int)) matches Some(v) ==> 0 <= v <= 255,
{
    let ghost t = s@.skip(start as int);
    proof {
        lemma_parse_u8_range(t);
    }
    let mut i = start;
    if i < s.len() && s[i] == '+' {
        i = i + 1;
    }
    let ghost digits = s@.skip(i as int);
    assert(digits == (if t.len() > 0 && t[0] == '+' { t.drop_first() } else { t }));
    if i == s.len() {
        assert(digits.len() == 0);
        return None;
    }
    let begin = i;
    let mut value: u32 = 0;
    while i < s.len()
        invariant
            begin <= i <= s@.len(),
            begin < s@.len(),
            digits == s@.skip(begin as int),
            t == s@.skip(start as int),
            digits == (if t.len() > 0 && t[0] == '+' { t.drop_first() } else { t }),
            all_digits(s@.subrange(begin as int, i as int)),
            value as int == digits_value(s@.subrange(begin as int, i as int)),
            value <= 255,
        decreases s@.len() - i,
    {
        let c = s[i];
        if !('0' <= c && c <= '9') {
            assert(digits[i - begin] == c);
            assert(!is_ascii_digit(digits[i - begin]));
            assert(!all_digits(digits));
            assert(parse_u8(t) is None);
            return None;
        }
        let d = (c as u32) - ('0' as u32);
        assert(s@.subrange(begin as int, i + 1).drop_last() == s@.subrange(begin as int, i as int));
        value = value * 10 + d;
        i = i + 1;
        if value > 255 {
            proof {
                if all_digits(digits) {
                    assert(digits.take(i - begin) == s@.subrange(begin as int, i as int));
                    lemma_digits_prefix_bound(digits, (i - begin) as int);
                }
                assert(parse_u8(t) is None);
            }
            return None;
        }
    }
    assert(s@.subrange(begin as int, s@.len() as int) == digits);
    Some(value as u8)
}

/// What `str::parse::<u64>` accepts: an optional `+`, then at least one
/// decimal digit, with a value that fits in 64 bits.
pub open spec fn parse_u64(s: Seq<char>) -> Option<int> {
    let digits = if s.len() > 0 && s[0] == '+' { s.drop_first() } else { s };
    if digits.len() > 0 && all_digits(digits) && digits_value(digits) <= u64::MAX {
        Some(digits_value(digits))
    } else {
        None
    }
}

/// `str::parse::<u64>` on the characters of `s`.
pub fn parse_unsigned(s: &Vec<char>) -> (r: Option<u64>)
    ensures
        match parse_u64(s@) {
            Some(v) => r == Some(v as u64),
            None => r is None,
        },
        parse_u64(s@) matches Some(v) ==> 0 <= v <= u64::MAX,
{
    let ghost t = s@;
    let mut i: usize = 0;
    if i < s.len() && s[i] == '+' {
        i = i + 1;
    }
    let ghost digits = s@.skip(i as int);
    assert(digits == (if t.len() > 0 && t[0] == '+' { t.drop_first() } else { t }));
    if i == s.len() {
        assert(digits.len() == 0);
        return None;
    }
    let begin = i;
    let mut value: u64 = 0;
    while i < s.len()
        invariant
            begin <= i <= s@.len(),
            begin < s@.len(),
            digits == s@.skip(begin as int),
            t == s@,
            digits == (if t.len() > 0 && t[0] == '+' { t.drop_first() } else { t }),
            all_digits(s@.subrange(begin as int, i as int)),
            value as int == digits_value(s@.subrange(begin as int, i as int)),
        decreases s@.len() - i,
    {
        let c = s[i];
        if !('0' <= c && c <= '9') {
            assert(digits[i - begin] == c);
            assert(!is_ascii_digit(digits[i - begin]));
            assert(!all_digits(digits));
            return None;
        }
        let d = (c as u64) - ('0' as u64);
        assert(s@.subrange(begin as int, i + 1).drop_last() == s@.subrange(begin as int, i as int));
        assert(s@.subrange(begin as int, i + 1).last() == c);
        assert(all_digits(s@.subrange(begin as int, i + 1)));
        let next = match value.checked_mul(10) {
            Some(m) => m.checked_add(d),
            None => None,
        };
        match next {
            Some(n) => {
                value = n;
                i = i + 1;
            },
            None => {
                proof {
                    assert(digits.take(i + 1 - begin) == s@.subrange(begin as int, i + 1));
                    if all_digits(digits) {
                        lemma_digits_prefix_bound(digits, (i + 1 - begin) as int);
                    }
                }
                return None;
            },
        }
    }
    assert(s@.subrange(begin as int, s@.len() as int) == digits);
    proof {
        lemma_digits_value_nonneg(digits);
    }
    Some(value)
}

pub proof fn lemma_parse_u8_range(s: Seq<char>)
    ensures
        parse_u8(s) matches Some(v) ==> 0 <= v <= 255,
{
    let digits = if s.len() > 0 && s[0] == '+' { s.drop_first() } else { s };
    if all_digits(digits) {
        lemma_digits_value_nonneg(digits);
    }
}

/// A longer all-digit prefix never has a smaller value.
pub proof fn lemma_digits_prefix_bound(s: Seq<char>, n: int)
    requires
        0 <= n <= s.len(),
        all_digits(s),
    ensures
        digits_value(s.take(n)) <= digits_value(s),
    decreases s.len() - n,
{
    if n < s.len() {
        lemma_digits_prefix_bound(s, n + 1);
        assert(s.take(n + 1).drop_last() == s.take(n));
        assert(all_digits(s.take(n)));
        lemma_digits_value_nonneg(s.take(n));
        assert(is_ascii_digit(s[n]));
        assert(s.take(n + 1).last() == s[n]);
    } else {
        assert(s.take(n) == s);
    }
}

} // verus!
