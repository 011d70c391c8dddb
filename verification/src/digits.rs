//! Decimal renderings of integers, as `format!` writes them.

use vstd::prelude::*;

verus! {

/// The ASCII character of a decimal digit.
pub open spec fn digit_char(d: nat) -> char {
    (48 + d) as char
}

/// The decimal digits of `n`, most significant first, without leading zeros.
pub open spec fn decimal_digits(n: nat) -> Seq<char>
    decreases n,
{
    if n < 10 {
        seq![digit_char(n)]
    } else {
        decimal_digits(n / 10).push(digit_char(n % 10))
    }
}

/// The same digits as ASCII bytes.
pub open spec fn decimal_ascii(n: nat) -> Seq<u8>
    decreases n,
{
    if n < 10 {
        seq![(48 + n) as u8]
    } else {
        decimal_ascii(n / 10).push((48 + n % 10) as u8)
    }
}

/// `n` written as `format!("{:0w$}", n)` writes it: the sign first, then
/// zeros up to the width, then the digits of the magnitude.
pub open spec fn zero_padded(n: int, width: nat) -> Seq<char> {
    let sign: Seq<char> = if n < 0 { seq!['-'] } else { seq![] };
    let digits = decimal_digits(if n < 0 { (-n) as nat } else { n as nat });
    let used = sign.len() + digits.len();
    let pad: nat = if width > used { (width - used) as nat } else { 0 };
    sign + Seq::new(pad, |i: int| '0') + digits
}

fn digit(d: u64) -> (c: char)
    requires
        d < 10,
    ensures
        c == digit_char(d as nat),
{
    let b: u8 = 48u8 + d as u8;
    b as char
}

/// Appends the decimal digits of `n`.
pub fn push_decimal(n: u64, out: &mut Vec<char>)
    ensures
        final(out)@ == old(out)@ + decimal_digits(n as nat),
    decreases n,
{
    if n >= 10 {
        push_decimal(n / 10, out);
    }
    let c = digit(n % 10);
    out.push(c);
    proof {
        assert(n >= 10 ==> decimal_digits(n as nat) == decimal_digits((n / 10) as nat).push(
            digit_char((n % 10) as nat),
        ));
    }
}

/// Appends the decimal digits of `n` as ASCII bytes.
pub fn push_decimal_ascii(n: u64, out: &mut Vec<u8>)
    ensures
        final(out)@ == old(out)@ + decimal_ascii(n as nat),
    decreases n,
{
    if n >= 10 {
        push_decimal_ascii(n / 10, out);
    }
    let b: u8 = 48u8 + (n % 10) as u8;
    out.push(b);
}

/// Appends `n` zero-padded to `width` characters, as `{:0width$}` does.
pub fn push_zero_padded(n: i64, width: usize, out: &mut Vec<char>)
    ensures
        final(out)@ == old(out)@ + zero_padded(n as int, width as nat),
{
    let neg = n < 0;
    let mag: u64 = if neg {
        (-(n as i128)) as u64
    } else {
        n as u64
    };
    let mut digits: Vec<char> = Vec::new();
    push_decimal(mag, &mut digits);
    assert(digits@ == decimal_digits(mag as nat));
    let ghost start = old(out)@;
    if neg {
        out.push('-');
    }
    let sign_len: usize = if neg { 1 } else { 0 };
    let pad: usize = if width > digits.len() && width - digits.len() > sign_len {
        width - digits.len() - sign_len
    } else {
        0
    };
    let mut i: usize = 0;
    while i < pad
        invariant
            i <= pad,
            out@ == start + (if neg { seq!['-'] } else { seq![] }) + Seq::new(i as nat, |j: int| '0'),
        decreases pad - i,
    {
        out.push('0');
        i = i + 1;
        assert(out@ == start + (if neg { seq!['-'] } else { seq![] }) + Seq::new(i as nat, |j: int| '0'));
    }
    let mut k: usize = 0;
    let ghost mid = out@;
    while k < digits.len()
        invariant
            k <= digits.len(),
            out@ == mid + digits@.subrange(0, k as int),
        decreases digits.len() - k,
    {
        out.push(digits[k]);
        k = k + 1;
        assert(out@ == mid + digits@.subrange(0, k as int));
    }
    assert(digits@.subrange(0, digits.len() as int) == digits@);
    assert(mag as nat == (if (n as int) < 0 { (-(n as int)) as nat } else { n as nat }));
}

} // verus!
