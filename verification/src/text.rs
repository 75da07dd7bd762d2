//! Small text-building helpers shared by the note labels and the web server:
//! appending characters and writing integers in decimal.

use vstd::prelude::*;

verus! {

/// Appends `c` to `s`.
///
/// Trusted: calls `String::push`, which std documents as appending the given
/// `char` to the end of the string. The contract claims exactly that.
#[verifier::external_body]
pub(crate) fn push_char(s: &mut String, c: char)
    ensures
        final(s)@ == old(s)@.push(c),
{
    s.push(c);
}

/// The ASCII digit for `d` in `0..10`.
pub open spec fn digit_char(d: nat) -> char {
    ('0' as nat + d) as char
}

/// The decimal digits of `n`, most significant first, without leading zeros
/// (a single `0` for zero).
pub open spec fn decimal_digits(n: nat) -> Seq<char>
    decreases n,
{
    if n < 10 {
        seq![digit_char(n)]
    } else {
        decimal_digits(n / 10).push(digit_char(n % 10))
    }
}

/// `n` written in decimal, with a leading `-` when negative: the text that
/// Rust's `Display` gives an integer.
pub open spec fn decimal(n: int) -> Seq<char> {
    if n < 0 {
        seq!['-'] + decimal_digits((-n) as nat)
    } else {
        decimal_digits(n as nat)
    }
}

/// Appends the decimal digits of `n` to `s`.
pub(crate) fn push_decimal_digits(s: &mut String, n: u64)
    ensures
        final(s)@ == old(s)@ + decimal_digits(n as nat),
    decreases n,
{
    if n >= 10 {
        push_decimal_digits(s, n / 10);
    }
    let d: u8 = (n % 10) as u8;
    push_char(s, (48u8 + d) as char);
    proof {
        if n >= 10 {
            assert(old(s)@ + decimal_digits(n as nat) =~= old(s)@ + decimal_digits((n / 10) as nat) + seq![digit_char((n % 10) as nat)]);
        } else {
            assert(old(s)@ + decimal_digits(n as nat) =~= old(s)@ + seq![digit_char(n as nat)]);
        }
    }
}

/// Appends `n` in decimal (with a leading `-` when negative) to `s`.
pub(crate) fn push_decimal(s: &mut String, n: i64)
    ensures
        final(s)@ == old(s)@ + decimal(n as int),
{
    if n < 0 {
        push_char(s, '-');
        // |n| as u64 without overflowing at i64::MIN
        let magnitude: u64 = ((-(n + 1)) as u64) + 1;
        push_decimal_digits(s, magnitude);
        proof {
            assert(old(s)@ + decimal(n as int) =~= old(s)@.push('-') + decimal_digits(magnitude as nat));
        }
    } else {
        push_decimal_digits(s, n as u64);
    }
}

} // verus!
