//! Characters, digits and the decimal / hexadecimal renderings that the
//! rest of the library states its contracts over.

use vstd::prelude::*;
use vstd::string::*;

verus! {

/// `c` is one of `'0'..='9'`.
pub open spec fn is_decimal_digit(c: char) -> bool {
    '0' <= c && c <= '9'
}

/// The value of a decimal digit character.
pub open spec fn decimal_digit_value(c: char) -> nat {
    (c as int - '0' as int) as nat
}

/// The character of a decimal digit `0..=9`.
pub open spec fn decimal_digit_char(d: nat) -> char {
    if d == 0 { '0' } else if d == 1 { '1' } else if d == 2 { '2' } else if d == 3 { '3' }
    else if d == 4 { '4' } else if d == 5 { '5' } else if d == 6 { '6' } else if d == 7 { '7' }
    else if d == 8 { '8' } else { '9' }
}

/// Every character of `s` is a decimal digit.
pub open spec fn all_decimal_digits(s: Seq<char>) -> bool {
    forall|i: int| 0 <= i < s.len() ==> is_decimal_digit(#[trigger] s[i])
}

/// The number that a string of decimal digits denotes (most significant first).
pub open spec fn decimal_value(s: Seq<char>) -> nat
    decreases s.len(),
{
    if s.len() == 0 {
        0
    } else {
        decimal_value(s.drop_last()) * 10 + decimal_digit_value(s.last())
    }
}

/// The shortest decimal rendering of `n`: `"0"` for zero, no leading zeros otherwise.
pub open spec fn decimal_text(n: nat) -> Seq<char>
    decreases n,
{
    if n < 10 {
        seq![decimal_digit_char(n)]
    } else {
        decimal_text(n / 10).push(decimal_digit_char(n % 10))
    }
}

/// The rendering of a signed integer: a `'-'` before the digits of its magnitude when negative.
pub open spec fn signed_decimal_text(n: int) -> Seq<char> {
    if n < 0 {
        seq!['-'] + decimal_text((-n) as nat)
    } else {
        decimal_text(n as nat)
    }
}

/// Appends one character to a `String`, by std's `String::push`. The contract claims
/// what std documents: the character is added at the end.
#[verifier::external_body]
pub(crate) fn push_char(s: &mut String, c: char)
    ensures
        final(s)@ == old(s)@.push(c),
{
    s.push(c);
}

proof fn lemma_digit_char_roundtrip(d: nat)
    requires
        d < 10,
    ensures
        is_decimal_digit(decimal_digit_char(d)),
        decimal_digit_value(decimal_digit_char(d)) == d,
{
}

/// The decimal rendering consists of digits and denotes the number it renders.
pub proof fn lemma_decimal_text_roundtrip(n: nat)
    ensures
        all_decimal_digits(decimal_text(n)),
        decimal_value(decimal_text(n)) == n,
        decimal_text(n).len() >= 1,
    decreases n,
{
    if n < 10 {
        lemma_digit_char_roundtrip(n);
        let t = decimal_text(n);
        assert(t.drop_last() =~= Seq::<char>::empty());
        assert(decimal_value(Seq::<char>::empty()) == 0);
    } else {
        lemma_decimal_text_roundtrip(n / 10);
        lemma_digit_char_roundtrip(n % 10);
        let t = decimal_text(n);
        assert(t.drop_last() =~= decimal_text(n / 10));
        assert((n / 10) * 10 + n % 10 == n) by (nonlinear_arith);
    }
}

/// Renders `n` in decimal, as `{}` formatting of an unsigned integer does.
pub fn u64_decimal(n: u64) -> (s: String)
    ensures
        s@ == decimal_text(n as nat),
{
    // digits, least significant first
    let mut rev: Vec<char> = Vec::new();
    let mut m: u64 = n;
    loop
        invariant_except_break
            decimal_text(n as nat) == decimal_text(m as nat) + rev@.reverse(),
        ensures
            decimal_text(n as nat) == rev@.reverse(),
        decreases m,
    {
        let d: u64 = m % 10;
        let c: char = if d == 0 { '0' } else if d == 1 { '1' } else if d == 2 { '2' } else if d == 3 {
            '3'
        } else if d == 4 { '4' } else if d == 5 { '5' } else if d == 6 { '6' } else if d == 7 {
            '7'
        } else if d == 8 { '8' } else { '9' };
        assert(c == decimal_digit_char(d as nat));
        let ghost old_rev0 = rev@;
        if m < 10 {
            rev.push(c);
            assert(decimal_text(m as nat) == seq![c]);
            assert(rev@.drop_last() =~= old_rev0);
            assert(rev@.reverse() =~= seq![c] + old_rev0.reverse());
            break;
        }
        rev.push(c);
        assert(decimal_text(m as nat) == decimal_text((m / 10) as nat).push(c));
        assert(rev@.reverse() =~= seq![c] + old_rev0.reverse());
        m = m / 10;
    }
    let mut s = String::new();
    let mut i: usize = rev.len();
    while i > 0
        invariant
            i <= rev@.len(),
            s@ == rev@.subrange(i as int, rev@.len() as int).reverse(),
        decreases i,
    {
        i = i - 1;
        let ghost old_s = s@;
        push_char(&mut s, rev[i]);
        assert(rev@.subrange(i as int, rev@.len() as int).reverse() =~= old_s.push(rev@[i as int]));
    }
    assert(rev@.subrange(0, rev@.len() as int) =~= rev@);
    s
}

/// Renders `n` in decimal with a leading `'-'` when negative, as `{}` formatting of a
/// signed integer does.
pub fn i64_decimal(n: i64) -> (s: String)
    ensures
        s@ == signed_decimal_text(n as int),
{
    if n < 0 {
        let magnitude: u64 = if n == i64::MIN {
            9223372036854775808u64
        } else {
            (-n) as u64
        };
        let digits = u64_decimal(magnitude);
        let mut s = String::new();
        push_char(&mut s, '-');
        s.append(digits.as_str());
        assert(s@ =~= seq!['-'] + decimal_text((-(n as int)) as nat));
        s
    } else {
        u64_decimal(n as u64)
    }
}

} // verus!
