//! Small text building blocks: decimal and zero-padded numbers, character
//! level string construction.

use vstd::prelude::*;

verus! {

/// The character of a decimal digit `d` (`d < 10`).
pub open spec fn digit_char(d: nat) -> char {
    ((d + 48) as u32) as char
}

/// Decimal representation of `n`: most significant digit first, no leading
/// zeros, `"0"` for zero.
pub open spec fn decimal(n: nat) -> Seq<char>
    decreases n,
{
    if n < 10 {
        seq![digit_char(n)]
    } else {
        decimal(n / 10).push(digit_char(n % 10))
    }
}

/// `n` written with exactly `width` decimal digits, padded with leading zeros
/// (the low `width` digits when `n` is wider).
pub open spec fn padded(n: nat, width: nat) -> Seq<char>
    decreases width,
{
    if width == 0 {
        Seq::empty()
    } else {
        padded(n / 10, (width - 1) as nat).push(digit_char(n % 10))
    }
}

/// `String::push`: appends one character.
#[verifier::external_body]
pub(crate) fn push_char(s: &mut String, c: char)
    ensures
        final(s)@ == old(s)@.push(c),
{
    s.push(c);
}

/// The characters of `s`, in order.
pub(crate) fn chars_of(s: &str) -> (v: Vec<char>)
    ensures
        v@ == s@,
{
    broadcast use vstd::string::group_string_axioms;

    let mut v: Vec<char> = Vec::new();
    for c in iter: s.chars()
        invariant
            v@ == iter.seq().take(iter.index() as int),
    {
        v.push(c);
    }
    v
}

/// The decimal digit character for `d`.
pub fn digit(d: u64) -> (c: char)
    requires
        d < 10,
    ensures
        c == digit_char(d as nat),
{
    ((d as u8) + 48) as char
}

/// Decimal text of `n` (what `n.to_string()` gives for an unsigned integer).
pub fn decimal_string(n: u64) -> (s: String)
    ensures
        s@ == decimal(n as nat),
    decreases n,
{
    if n < 10 {
        let mut s = String::new();
        push_char(&mut s, digit(n));
        s
    } else {
        let mut s = decimal_string(n / 10);
        push_char(&mut s, digit(n % 10));
        s
    }
}

/// Appends `n` to `s` with exactly `width` digits, zero padded.
pub fn push_padded(s: &mut String, n: u64, width: u64)
    ensures
        final(s)@ == old(s)@ + padded(n as nat, width as nat),
    decreases width,
{
    if width > 0 {
        push_padded(s, n / 10, width - 1);
        push_char(s, digit(n % 10));
        assert(final(s)@ =~= old(s)@ + padded(n as nat, width as nat));
    } else {
        assert(final(s)@ =~= old(s)@ + padded(n as nat, width as nat));
    }
}

/// Appends all of `t` to `s`.
pub fn push_str(s: &mut String, t: &str)
    ensures
        final(s)@ == old(s)@ + t@,
{
    s.append(t);
}

/// `10` to the power `w`.
pub open spec fn pow10(w: nat) -> nat
    decreases w,
{
    if w == 0 {
        1
    } else {
        10 * pow10((w - 1) as nat)
    }
}

/// Distinct decimal digits are distinct characters.
pub proof fn lemma_digit_char_injective(a: nat, b: nat)
    requires
        a < 10,
        b < 10,
        digit_char(a) == digit_char(b),
    ensures
        a == b,
{
    assert((digit_char(a) as u32) == a + 48);
    assert((digit_char(b) as u32) == b + 48);
}

/// The padded text has exactly `width` characters.
pub proof fn lemma_padded_len(n: nat, width: nat)
    ensures
        padded(n, width).len() == width,
    decreases width,
{
    if width > 0 {
        lemma_padded_len(n / 10, (width - 1) as nat);
    }
}

/// Numbers below `10^width` have different padded texts.
pub proof fn lemma_padded_injective(a: nat, b: nat, width: nat)
    requires
        a < pow10(width),
        b < pow10(width),
        padded(a, width) == padded(b, width),
    ensures
        a == b,
    decreases width,
{
    if width > 0 {
        let w1 = (width - 1) as nat;
        let pa = padded(a / 10, w1);
        let pb = padded(b / 10, w1);
        lemma_padded_len(a / 10, w1);
        lemma_padded_len(b / 10, w1);
        assert(padded(a, width) == pa.push(digit_char(a % 10)));
        assert(padded(b, width) == pb.push(digit_char(b % 10)));
        assert(pa.push(digit_char(a % 10)).last() == digit_char(a % 10));
        assert(pb.push(digit_char(b % 10)).last() == digit_char(b % 10));
        lemma_digit_char_injective(a % 10, b % 10);
        assert(pa.push(digit_char(a % 10)).drop_last() =~= pa);
        assert(pb.push(digit_char(b % 10)).drop_last() =~= pb);
        let p = pow10(w1);
        assert(a / 10 < p) by (nonlinear_arith)
            requires
                a < 10 * p,
        ;
        assert(b / 10 < p) by (nonlinear_arith)
            requires
                b < 10 * p,
        ;
        lemma_padded_injective(a / 10, b / 10, w1);
    } else {
        assert(a == 0 && b == 0);
    }
}

/// A decimal digit character.
pub open spec fn is_digit_char(c: char) -> bool {
    48 <= (c as u32) <= 57
}

/// A padded number starts with a digit.
pub proof fn lemma_padded_starts_with_digit(n: nat, width: nat)
    requires
        width >= 1,
    ensures
        is_digit_char(padded(n, width)[0]),
    decreases width,
{
    lemma_padded_len(n / 10, (width - 1) as nat);
    if width > 1 {
        lemma_padded_starts_with_digit(n / 10, (width - 1) as nat);
    }
    assert((digit_char(n % 10) as u32) == n % 10 + 48);
}

/// The decimal text of a number from `10^k` on has more than `k` digits.
pub proof fn lemma_decimal_len(n: nat, k: nat)
    requires
        n >= pow10(k),
    ensures
        decimal(n).len() >= k + 1,
    decreases k,
{
    if k > 0 {
        let p = pow10((k - 1) as nat);
        assert(n / 10 >= p) by (nonlinear_arith)
            requires
                n >= 10 * p,
        ;
        assert(p >= 1) by {
            lemma_pow10_positive((k - 1) as nat);
        }
        lemma_decimal_len(n / 10, (k - 1) as nat);
    } else {
        lemma_decimal_starts_with_digit(n);
    }
}

/// `10^k` is at least 1.
pub proof fn lemma_pow10_positive(k: nat)
    ensures
        pow10(k) >= 1,
    decreases k,
{
    if k > 0 {
        lemma_pow10_positive((k - 1) as nat);
    }
}

/// A decimal text starts with a digit.
pub proof fn lemma_decimal_starts_with_digit(n: nat)
    ensures
        decimal(n).len() >= 1,
        is_digit_char(decimal(n)[0]),
    decreases n,
{
    if n >= 10 {
        lemma_decimal_starts_with_digit(n / 10);
    } else {
        assert((digit_char(n) as u32) == n + 48);
    }
}

/// Different numbers have different decimal texts.
pub proof fn lemma_decimal_injective(a: nat, b: nat)
    requires
        decimal(a) == decimal(b),
    ensures
        a == b,
    decreases a,
{
    lemma_decimal_starts_with_digit(a / 10);
    lemma_decimal_starts_with_digit(b / 10);
    if a < 10 && b < 10 {
        assert(decimal(a)[0] == digit_char(a) && decimal(b)[0] == digit_char(b));
        lemma_digit_char_injective(a, b);
    } else if a < 10 {
        assert(pow10(1) == 10) by {
            reveal_with_fuel(pow10, 2);
        }
        lemma_decimal_len(b, 1);
    } else if b < 10 {
        assert(pow10(1) == 10) by {
            reveal_with_fuel(pow10, 2);
        }
        lemma_decimal_len(a, 1);
    } else {
        let da = decimal(a / 10);
        let db = decimal(b / 10);
        assert(da.push(digit_char(a % 10)).last() == digit_char(a % 10));
        assert(db.push(digit_char(b % 10)).last() == digit_char(b % 10));
        lemma_digit_char_injective(a % 10, b % 10);
        assert(da.push(digit_char(a % 10)).drop_last() =~= da);
        assert(db.push(digit_char(b % 10)).drop_last() =~= db);
        lemma_decimal_injective(a / 10, b / 10);
    }
}

} // verus!
