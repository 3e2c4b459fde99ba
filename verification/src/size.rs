//! Human-readable file sizes, as shown in the file list and the properties.

use crate::text::string_of;
use vstd::prelude::*;

verus! {

/// The decimal digit for a number below ten.
pub open spec fn digit_char(d: nat) -> char {
    ('0' as nat + d) as char
}

/// The decimal numeral of a natural number, without leading zeros.
pub open spec fn decimal(n: nat) -> Seq<char>
    decreases n,
{
    if n < 10 {
        seq![digit_char(n)]
    } else {
        decimal(n / 10).push(digit_char(n % 10))
    }
}

/// Two decimal digits, with a leading zero below ten.
pub open spec fn two_digits(n: nat) -> Seq<char> {
    seq![digit_char(n / 10), digit_char(n % 10)]
}

pub open spec fn two_to(e: nat) -> nat
    decreases e,
{
    if e == 0 {
        1
    } else {
        2 * two_to((e - 1) as nat)
    }
}

/// The number of binary digits of `n`.
pub open spec fn bit_length(n: nat) -> nat
    decreases n,
{
    if n == 0 {
        0
    } else {
        1 + bit_length(n / 2)
    }
}

/// `num / den` rounded to the nearest integer, ties to even.
pub open spec fn round_half_even(num: nat, den: nat) -> nat
    recommends
        den > 0,
{
    let q = num / den;
    let r = num % den;
    if 2 * r > den || (2 * r == den && q % 2 == 1) {
        q + 1
    } else {
        q
    }
}

/// The value that a conversion to a double-precision float gives a natural
/// number: its 53 leading binary digits, rounded to nearest, ties to even.
pub open spec fn double_of(n: nat) -> nat {
    let b = bit_length(n);
    if b <= 53 {
        n
    } else {
        let p = two_to((b - 53) as nat);
        round_half_even(n, p) * p
    }
}

/// The text shown for a size in bytes: megabytes with two decimals from one
/// MiB on, kilobytes with one decimal from one KiB on, else whole bytes.
pub open spec fn size_caption(size: nat) -> Seq<char> {
    if size >= 1048576 {
        let r = round_half_even(double_of(size) * 100, 1048576);
        decimal(r / 100) + seq!['.'] + two_digits(r % 100) + seq![' ', 'M', 'B']
    } else if size >= 1024 {
        let r = round_half_even(size * 10, 1024);
        decimal(r / 10) + seq!['.', digit_char(r % 10)] + seq![' ', 'K', 'B']
    } else {
        decimal(size) + seq![' ', 'B']
    }
}

fn digit(d: u128) -> (c: char)
    requires
        d < 10,
    ensures
        c == digit_char(d as nat),
{
    let code: u8 = 48 + (d as u8);
    code as char
}

pub fn push_decimal(out: &mut Vec<char>, n: u128)
    ensures
        final(out)@ == old(out)@ + decimal(n as nat),
    decreases n,
{
    if n >= 10 {
        push_decimal(out, n / 10);
    }
    out.push(digit(n % 10));
}

fn round_nearest_even(num: u128, den: u128) -> (r: u128)
    requires
        den > 0,
        num / den < u128::MAX,
    ensures
        r == round_half_even(num as nat, den as nat),
{
    let q = num / den;
    let rem = num % den;
    if rem > den - rem || (rem == den - rem && q % 2 == 1) {
        q + 1
    } else {
        q
    }
}

proof fn lemma_two_to_positive(e: nat)
    ensures
        two_to(e) >= 1,
    decreases e,
{
    if e > 0 {
        lemma_two_to_positive((e - 1) as nat);
    }
}

proof fn lemma_bit_length_bound(n: nat, e: nat)
    requires
        n < two_to(e),
    ensures
        bit_length(n) <= e,
    decreases e,
{
    if e > 0 && n > 0 {
        lemma_bit_length_bound(n / 2, (e - 1) as nat);
    }
}

/// The value of `n` as a double-precision float, as an integer.
fn to_double(n: u64) -> (r: u128)
    ensures
        r == double_of(n as nat),
        r <= 0x1_0000_0000_0000_0000,
{
    let mut m = n;
    let mut bits: u64 = 0;
    proof {
        lemma_two_to_64();
        lemma_bit_length_bound(n as nat, 64);
    }
    while m > 0
        invariant
            bit_length(n as nat) == bits + bit_length(m as nat),
            bit_length(n as nat) <= 64,
        decreases m,
    {
        m = m / 2;
        bits = bits + 1;
    }
    if bits <= 53 {
        return n as u128;
    }
    let mut p: u128 = 1;
    let mut k: u64 = 0;
    while k < bits - 53
        invariant
            k <= bits - 53,
            bits <= 64,
            p == two_to(k as nat),
            p <= 2048,
        decreases bits - 53 - k,
    {
        proof {
            lemma_two_to_11();
            lemma_two_to_monotone(k as nat + 1, 11);
        }
        p = p * 2;
        k = k + 1;
    }
    proof {
        lemma_two_to_positive(k as nat);
        lemma_double_bound(n as nat, bits as nat, p as nat);
    }
    let q = round_nearest_even(n as u128, p);
    q * p
}

proof fn lemma_two_to_monotone(a: nat, b: nat)
    requires
        a <= b,
    ensures
        two_to(a) <= two_to(b),
    decreases b,
{
    if a < b {
        lemma_two_to_monotone(a, (b - 1) as nat);
    }
}

proof fn lemma_double_bound(n: nat, bits: nat, p: nat)
    requires
        n < 0x1_0000_0000_0000_0000,
        53 < bits <= 64,
        p == two_to((bits - 53) as nat),
        bit_length(n) == bits,
    ensures
        round_half_even(n, p) * p <= 0x1_0000_0000_0000_0000,
{
    let e = (bits - 53) as nat;
    let q = n / p;
    lemma_below_two_to_bit_length(n);
    lemma_two_to_add(53, e);
    lemma_two_to_53();
    lemma_two_to_positive(e);
    assert(n < 0x20_0000_0000_0000 * p);
    assert(q < 0x20_0000_0000_0000) by (nonlinear_arith)
        requires
            q == n / p,
            p >= 1,
            n < 0x20_0000_0000_0000 * p,
    ;
    assert(round_half_even(n, p) <= 0x20_0000_0000_0000);
    lemma_two_to_monotone(bits, 64);
    lemma_two_to_64();
    assert(round_half_even(n, p) * p <= 0x20_0000_0000_0000 * p) by (nonlinear_arith)
        requires
            round_half_even(n, p) <= 0x20_0000_0000_0000,
            p >= 1,
    ;
}

proof fn lemma_below_two_to_bit_length(n: nat)
    ensures
        n < two_to(bit_length(n)),
    decreases n,
{
    if n > 0 {
        lemma_below_two_to_bit_length(n / 2);
    }
}

proof fn lemma_two_to_add(a: nat, b: nat)
    ensures
        two_to(a + b) == two_to(a) * two_to(b),
    decreases a,
{
    if a == 0 {
        assert(two_to(0) == 1);
        assert(a + b == b);
    } else {
        lemma_two_to_add((a - 1) as nat, b);
        let x = two_to((a - 1) as nat);
        let y = two_to(b);
        let z = two_to((a - 1 + b) as nat);
        assert(z == x * y);
        assert(two_to(a) == 2 * x);
        assert(((a + b) - 1) as nat == (a - 1 + b) as nat);
        assert(two_to(a + b) == 2 * z);
        assert(2 * x * y == 2 * (x * y)) by (nonlinear_arith);
    }
}

proof fn lemma_two_to_11()
    ensures
        two_to(11) == 2048,
{
    reveal_with_fuel(two_to, 12);
}

proof fn lemma_two_to_53()
    ensures
        two_to(53) == 0x20_0000_0000_0000,
{
    lemma_two_to_11();
    lemma_two_to_add(11, 11);
    assert(two_to(22) == 0x40_0000);
    lemma_two_to_add(22, 22);
    assert(two_to(44) == 0x1000_0000_0000);
    assert(two_to(9) == 512) by {
        reveal_with_fuel(two_to, 10);
    }
    lemma_two_to_add(44, 9);
}

proof fn lemma_two_to_64()
    ensures
        two_to(64) == 0x1_0000_0000_0000_0000,
{
    lemma_two_to_53();
    lemma_two_to_11();
    lemma_two_to_add(53, 11);
}

/// The text shown for a size in bytes, such as `1.50 MB`, `2.0 KB` or `512 B`.
pub fn size_text(size: u64) -> (r: String)
    ensures
        r@ == size_caption(size as nat),
{
    let mut out: Vec<char> = Vec::new();
    if size >= 1048576 {
        let value = to_double(size);
        let rounded = round_nearest_even(value * 100, 1048576);
        push_decimal(&mut out, rounded / 100);
        out.push('.');
        out.push(digit((rounded % 100) / 10));
        out.push(digit((rounded % 100) % 10));
        out.push(' ');
        out.push('M');
        out.push('B');
    } else if size >= 1024 {
        let rounded = round_nearest_even((size as u128) * 10, 1024);
        push_decimal(&mut out, rounded / 10);
        out.push('.');
        out.push(digit(rounded % 10));
        out.push(' ');
        out.push('K');
        out.push('B');
    } else {
        push_decimal(&mut out, size as u128);
        out.push(' ');
        out.push('B');
    }
    assert(out@ =~= size_caption(size as nat));
    string_of(out.as_slice())
}

} // verus!
