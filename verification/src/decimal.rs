//! Fixed-point decimal values for prices, sizes and leverage: an unsigned
//! count of billionths, so that encoding and text rendering are exact and
//! free of any float formatting ambiguity.

use vstd::prelude::*;
use crate::errors::Error;

verus! {

/// The decimal digit character for a value below 10.
pub open spec fn digit_char(d: nat) -> char {
    "0123456789"@[d as int]
}

/// The decimal digits of a number, most significant first, no leading
/// zeros (a lone zero for 0).
pub open spec fn dec_digits(n: nat) -> Seq<char>
    decreases n,
{
    if n < 10 {
        seq![digit_char(n)]
    } else {
        dec_digits(n / 10) + seq![digit_char(n % 10)]
    }
}

/// Exactly `k` decimal digits of `n`, most significant first, zero-padded
/// on the left.
pub open spec fn padded_digits(n: nat, k: nat) -> Seq<char>
    decreases k,
{
    if k == 0 {
        Seq::empty()
    } else {
        padded_digits(n / 10, (k - 1) as nat) + seq![digit_char(n % 10)]
    }
}

/// Drops trailing `'0'` characters, but keeps at least one character.
pub open spec fn trim_trailing_zeros(s: Seq<char>) -> Seq<char>
    decreases s.len(),
{
    if s.len() <= 1 || s.last() != '0' {
        s
    } else {
        trim_trailing_zeros(s.drop_last())
    }
}

/// The text of a decimal: the whole part, a point, then the fractional
/// digits with trailing zeros dropped but at least one digit kept.
pub open spec fn decimal_chars(units: u64) -> Seq<char> {
    dec_digits((units / 1_000_000_000) as nat) + seq!['.'] + trim_trailing_zeros(
        padded_digits((units % 1_000_000_000) as nat, 9),
    )
}

pub proof fn lemma_padded_len(n: nat, k: nat)
    ensures
        padded_digits(n, k).len() == k,
    decreases k,
{
    if k > 0 {
        lemma_padded_len(n / 10, (k - 1) as nat);
    }
}

proof fn lemma_padded_parts(n: nat, k: nat)
    requires
        k > 0,
    ensures
        padded_digits(n, k).last() == digit_char(n % 10),
        padded_digits(n, k).drop_last() =~= padded_digits(n / 10, (k - 1) as nat),
{
    lemma_padded_len(n / 10, (k - 1) as nat);
}

proof fn lemma_trim_step(n: nat, k: nat)
    requires
        k > 1,
        n % 10 == 0,
    ensures
        trim_trailing_zeros(padded_digits(n, k)) == trim_trailing_zeros(
            padded_digits(n / 10, (k - 1) as nat),
        ),
{
    lemma_padded_len(n, k);
    lemma_padded_parts(n, k);
    reveal_strlit("0123456789");
    assert(padded_digits(n, k).last() == '0');
}

proof fn lemma_trim_done(n: nat, k: nat)
    requires
        k >= 1,
        k == 1 || n % 10 != 0,
    ensures
        trim_trailing_zeros(padded_digits(n, k)) == padded_digits(n, k),
{
    lemma_padded_len(n, k);
    lemma_padded_parts(n, k);
    reveal_strlit("0123456789");
    if k > 1 {
        assert(padded_digits(n, k).last() == digit_char(n % 10));
        assert(digit_char(n % 10) != '0');
    }
}

/// Appends the decimal digits of `n`, most significant first.
pub fn append_uint(out: &mut String, n: u64)
    ensures
        final(out)@ == old(out)@ + dec_digits(n as nat),
    decreases n,
{
    let digits = "0123456789";
    proof {
        reveal_strlit("0123456789");
    }
    if n < 10 {
        let i = n as usize;
        let d = digits.substring_char(i, i + 1);
        out.append(d);
        proof {
            assert(d@ =~= seq![digit_char(n as nat)]);
        }
    } else {
        append_uint(out, n / 10);
        let i = (n % 10) as usize;
        let d = digits.substring_char(i, i + 1);
        out.append(d);
        proof {
            assert(d@ =~= seq![digit_char((n % 10) as nat)]);
            assert(final(out)@ =~= old(out)@ + dec_digits(n as nat));
        }
    }
}

/// Appends exactly `k` digits of `n`, zero-padded on the left.
fn append_padded(out: &mut String, n: u64, k: u64)
    ensures
        final(out)@ == old(out)@ + padded_digits(n as nat, k as nat),
    decreases k,
{
    let digits = "0123456789";
    proof {
        reveal_strlit("0123456789");
    }
    if k == 0 {
        proof {
            assert(final(out)@ =~= old(out)@ + padded_digits(n as nat, 0));
        }
    } else {
        append_padded(out, n / 10, k - 1);
        let i = (n % 10) as usize;
        let d = digits.substring_char(i, i + 1);
        out.append(d);
        proof {
            assert(d@ =~= seq![digit_char((n % 10) as nat)]);
            assert(final(out)@ =~= old(out)@ + padded_digits(n as nat, k as nat));
        }
    }
}

/// A non-negative fixed-point decimal with nine fractional digits.
#[derive(Clone, Copy, PartialEq, Eq, Structural)]
pub struct Decimal {
    /// The value in billionths: `units == 1_500_000_000` is one and a half.
    pub units: u64,
}

impl Decimal {
    /// The value holding exactly `units` billionths.
    pub fn from_units(units: u64) -> (r: Decimal)
        ensures
            r.units == units,
    {
        Decimal { units }
    }

    /// The value `whole + nanos / 1e9`; rejects a fractional part of a
    /// billion or more, and a whole part too large for the fixed-point
    /// range.
    pub fn from_parts(whole: u64, nanos: u32) -> (r: Result<Decimal, Error>)
        ensures
            r matches Ok(d) ==> d.units == whole * 1_000_000_000 + nanos,
            r is Ok <==> (nanos < 1_000_000_000 && whole * 1_000_000_000 + nanos <= u64::MAX),
            r matches Err(e) ==> e is Validation,
    {
        if nanos >= 1_000_000_000 {
            return Err(Error::Validation(String::from_str("decimal fraction must be below one")));
        }
        match whole.checked_mul(1_000_000_000) {
            Some(scaled) => match scaled.checked_add(nanos as u64) {
                Some(units) => Ok(Decimal { units }),
                None => Err(Error::Validation(String::from_str("decimal value out of range"))),
            },
            None => Err(Error::Validation(String::from_str("decimal value out of range"))),
        }
    }

    /// The exact text of the value, such as `100000.0` or `0.1`.
    pub open spec fn text(&self) -> Seq<char> {
        decimal_chars(self.units)
    }
}

/// Appends the exact text of a decimal value.
pub fn append_decimal(out: &mut String, d: Decimal)
    ensures
        final(out)@ == old(out)@ + d.text(),
{
    append_uint(out, d.units / 1_000_000_000);
    out.append(".");
    proof {
        reveal_strlit(".");
    }
    let frac = d.units % 1_000_000_000;
    let mut m: u64 = frac;
    let mut kept: u64 = 9;
    while kept > 1 && m % 10 == 0
        invariant
            1 <= kept <= 9,
            trim_trailing_zeros(padded_digits(m as nat, kept as nat)) == trim_trailing_zeros(
                padded_digits(frac as nat, 9),
            ),
        decreases kept,
    {
        proof {
            lemma_trim_step(m as nat, kept as nat);
        }
        m = m / 10;
        kept = kept - 1;
    }
    proof {
        lemma_trim_done(m as nat, kept as nat);
    }
    append_padded(out, m, kept);
    proof {
        assert(final(out)@ =~= old(out)@ + d.text());
    }
}

} // verus!
