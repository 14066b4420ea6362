//! Decimal text of integers: how they are written and how they are read.

use vstd::prelude::*;

use crate::bytes;

verus! {

/// Why a text is not an integer of the requested type.
#[derive(Debug, Clone, Copy, PartialEq, Eq, Structural)]
pub enum IntErrorKind {
    /// The text is empty.
    Empty,
    /// A character is not a digit, or a sign stands alone.
    InvalidDigit,
    /// The number is above the type's range.
    PosOverflow,
    /// The number is below the type's range.
    NegOverflow,
}

impl IntErrorKind {
    pub open spec fn text(self) -> Seq<char> {
        match self {
            IntErrorKind::Empty => "cannot parse integer from empty string"@,
            IntErrorKind::InvalidDigit => "invalid digit found in string"@,
            IntErrorKind::PosOverflow => "number too large to fit in target type"@,
            IntErrorKind::NegOverflow => "number too small to fit in target type"@,
        }
    }

    /// The message that describes the failure.
    pub fn message(self) -> (r: &'static str)
        ensures
            r@ == self.text(),
    {
        match self {
            IntErrorKind::Empty => "cannot parse integer from empty string",
            IntErrorKind::InvalidDigit => "invalid digit found in string",
            IntErrorKind::PosOverflow => "number too large to fit in target type",
            IntErrorKind::NegOverflow => "number too small to fit in target type",
        }
    }
}

pub open spec fn is_digit(b: u8) -> bool {
    48 <= b <= 57
}

pub open spec fn all_digits(s: Seq<u8>) -> bool {
    forall|i: int| 0 <= i < s.len() ==> is_digit(#[trigger] s[i])
}

/// The decimal digits of a natural number, most significant first and
/// without leading zeros.
pub open spec fn decimal(n: nat) -> Seq<u8>
    decreases n,
{
    if n < 10 {
        seq![(48 + n) as u8]
    } else {
        decimal(n / 10).push((48 + n % 10) as u8)
    }
}

/// The decimal text of an integer: a minus sign before a negative one.
pub open spec fn signed_decimal(n: int) -> Seq<u8> {
    if n < 0 {
        seq![45u8] + decimal((-n) as nat)
    } else {
        decimal(n as nat)
    }
}

/// The number that a run of digits writes.
pub open spec fn value(s: Seq<u8>) -> nat
    decreases s.len(),
{
    if s.len() == 0 {
        0
    } else {
        value(s.drop_last()) * 10 + (s.last() - 48) as nat
    }
}

/// How many digits `s` begins with.
pub open spec fn digit_run(s: Seq<u8>) -> nat
    decreases s.len(),
{
    if s.len() == 0 || !is_digit(s[0]) {
        0
    } else {
        1 + digit_run(s.skip(1))
    }
}

/// What a text without a sign reads as when numbers up to `limit` fit. The
/// digits are read from the left, so a number that is already too large is
/// reported before a bad character that follows it.
pub open spec fn parse_magnitude(s: Seq<u8>, limit: nat, overflow: IntErrorKind) -> Result<nat, IntErrorKind> {
    let run = digit_run(s);
    let n = value(s.take(run as int));
    if n > limit {
        Err(overflow)
    } else if run < s.len() || s.len() == 0 {
        Err(IntErrorKind::InvalidDigit)
    } else {
        Ok(n)
    }
}

/// What a text reads as in an unsigned type with the largest value `max`:
/// digits, after an optional plus sign.
pub open spec fn parse_unsigned(s: Seq<u8>, max: nat) -> Result<nat, IntErrorKind> {
    if s.len() == 0 {
        Err(IntErrorKind::Empty)
    } else if s[0] == 43 {
        parse_magnitude(s.skip(1), max, IntErrorKind::PosOverflow)
    } else {
        parse_magnitude(s, max, IntErrorKind::PosOverflow)
    }
}

/// What a text reads as in a signed type with the range `min..=max`: as in
/// an unsigned type, or digits after a minus sign.
pub open spec fn parse_signed(s: Seq<u8>, min: int, max: int) -> Result<int, IntErrorKind> {
    if s.len() > 0 && s[0] == 45 {
        match parse_magnitude(s.skip(1), (-min) as nat, IntErrorKind::NegOverflow) {
            Ok(n) => Ok(-(n as int)),
            Err(kind) => Err(kind),
        }
    } else {
        match parse_unsigned(s, max as nat) {
            Ok(n) => Ok(n as int),
            Err(kind) => Err(kind),
        }
    }
}

pub proof fn lemma_digit_run(s: Seq<u8>, k: nat)
    requires
        k <= s.len(),
        forall|i: int| 0 <= i < k ==> is_digit(#[trigger] s[i]),
        k == s.len() || !is_digit(s[k as int]),
    ensures
        digit_run(s) == k,
    decreases s.len(),
{
    if s.len() > 0 && is_digit(s[0]) {
        let t = s.skip(1);
        assert forall|i: int| 0 <= i < k - 1 implies is_digit(#[trigger] t[i]) by {
            assert(t[i] == s[i + 1]);
        }
        lemma_digit_run(t, (k - 1) as nat);
    }
}

pub proof fn lemma_digit_run_bounds(s: Seq<u8>)
    ensures
        digit_run(s) <= s.len(),
        forall|i: int| 0 <= i < digit_run(s) ==> is_digit(#[trigger] s[i]),
        digit_run(s) < s.len() ==> !is_digit(s[digit_run(s) as int]),
    decreases s.len(),
{
    if s.len() > 0 && is_digit(s[0]) {
        let t = s.skip(1);
        lemma_digit_run_bounds(t);
        assert forall|i: int| 0 <= i < digit_run(s) implies is_digit(#[trigger] s[i]) by {
            if i > 0 {
                assert(s[i] == t[i - 1]);
            }
        }
    }
}

proof fn lemma_value_grows(s: Seq<u8>, i: nat, j: nat)
    requires
        i <= j <= s.len(),
        forall|k: int| 0 <= k < j ==> is_digit(#[trigger] s[k]),
    ensures
        value(s.take(i as int)) <= value(s.take(j as int)),
    decreases j - i,
{
    if i < j {
        lemma_value_grows(s, i, (j - 1) as nat);
        assert(s.take(j as int).drop_last() =~= s.take(j - 1));
        assert(is_digit(s[j - 1]));
    }
}

pub proof fn lemma_decimal_digits(n: nat)
    ensures
        decimal(n).len() > 0,
        all_digits(decimal(n)),
        value(decimal(n)) == n,
    decreases n,
{
    if n < 10 {
        let d = decimal(n);
        assert(d.drop_last() =~= Seq::<u8>::empty());
        assert(value(d.drop_last()) == 0);
    } else {
        lemma_decimal_digits(n / 10);
        assert(decimal(n).drop_last() =~= decimal(n / 10));
    }
}

/// Reading back the decimal text of a number gives the number, in every
/// type that can hold it.
pub proof fn lemma_unsigned_roundtrip(n: nat, max: nat)
    requires
        n <= max,
    ensures
        parse_unsigned(decimal(n), max) == Ok::<nat, IntErrorKind>(n),
{
    lemma_decimal_digits(n);
    let s = decimal(n);
    assert(is_digit(s[0]));
    lemma_digit_run(s, s.len());
    assert(s.take(s.len() as int) =~= s);
}

/// Reading back the decimal text of a signed number gives the number, in
/// every type that can hold it.
pub proof fn lemma_signed_roundtrip(n: int, min: int, max: int)
    requires
        min <= n <= max,
        min <= 0 <= max,
    ensures
        parse_signed(signed_decimal(n), min, max) == Ok::<int, IntErrorKind>(n),
{
    if n < 0 {
        let m = (-n) as nat;
        lemma_decimal_digits(m);
        let s = decimal(m);
        assert(signed_decimal(n).skip(1) =~= s);
        lemma_digit_run(s, s.len());
        assert(s.take(s.len() as int) =~= s);
    } else {
        lemma_decimal_digits(n as nat);
        assert(is_digit(decimal(n as nat)[0]));
        lemma_unsigned_roundtrip(n as nat, max as nat);
    }
}

/// The decimal text of an integer is ASCII.
pub proof fn lemma_signed_ascii(n: int)
    ensures
        bytes::is_ascii_bytes(signed_decimal(n)),
        signed_decimal(n).len() > 0,
{
    lemma_decimal_digits(if n < 0 { (-n) as nat } else { n as nat });
    let s = signed_decimal(n);
    assert forall|i: int| 0 <= i < s.len() implies s[i] < 128 by {
        if n < 0 {
            if i > 0 {
                assert(is_digit(decimal((-n) as nat)[i - 1]));
            }
        } else {
            assert(is_digit(decimal(n as nat)[i]));
        }
    }
}

/// Write an unsigned number in decimal.
pub fn format_unsigned(n: u128) -> (r: Vec<u8>)
    ensures
        r@ == decimal(n as nat),
    decreases n,
{
    if n < 10 {
        let mut out: Vec<u8> = Vec::new();
        out.push(48 + n as u8);
        assert(out@ =~= decimal(n as nat));
        out
    } else {
        let mut out = format_unsigned(n / 10);
        out.push(48 + (n % 10) as u8);
        out
    }
}

/// Write a signed number in decimal.
pub fn format_signed(n: i128) -> (r: Vec<u8>)
    ensures
        r@ == signed_decimal(n as int),
{
    if n < 0 {
        let magnitude: u128 = if n == i128::MIN {
            0x8000_0000_0000_0000_0000_0000_0000_0000
        } else {
            (-n) as u128
        };
        let digits = format_unsigned(magnitude);
        let mut out: Vec<u8> = Vec::new();
        out.push(45);
        bytes::append(&mut out, digits.as_slice());
        assert(out@ =~= signed_decimal(n as int));
        out
    } else {
        format_unsigned(n as u128)
    }
}

fn read_magnitude(s: &[u8], start: usize, limit: u128, overflow: IntErrorKind) -> (r: Result<u128, IntErrorKind>)
    requires
        start <= s@.len(),
        limit >= 9,
    ensures
        match r {
            Ok(n) => parse_magnitude(s@.skip(start as int), limit as nat, overflow) == Ok::<nat, IntErrorKind>(
                n as nat,
            ),
            Err(kind) => parse_magnitude(s@.skip(start as int), limit as nat, overflow) == Err::<nat, IntErrorKind>(
                kind,
            ),
        },
{
    let ghost d = s@.skip(start as int);
    let mut acc: u128 = 0;
    let mut i: usize = start;
    while i < s.len()
        invariant
            start <= i <= s@.len(),
            limit >= 9,
            d == s@.skip(start as int),
            forall|k: int| 0 <= k < i - start ==> is_digit(#[trigger] d[k]),
            acc == value(d.take(i - start)),
            acc <= limit,
        decreases s@.len() - i,
    {
        let ghost k = i - start;
        let b = s[i];
        assert(d[k] == b);
        if b < 48 || b > 57 {
            proof {
                lemma_digit_run(d, k as nat);
            }
            return Err(IntErrorKind::InvalidDigit);
        }
        let x = (b - 48) as u128;
        assert(d.take(k + 1).drop_last() =~= d.take(k));
        if acc > (limit - x) / 10 {
            proof {
                lemma_digit_run_bounds(d);
                if digit_run(d) <= k {
                    assert(is_digit(d[digit_run(d) as int]));
                }
                lemma_value_grows(d, (k + 1) as nat, digit_run(d));
                assert(value(d.take(k + 1)) == acc * 10 + x);
            }
            return Err(overflow);
        }
        acc = acc * 10 + x;
        i += 1;
    }
    proof {
        lemma_digit_run(d, d.len());
        assert(d.take(d.len() as int) =~= d);
    }
    if start == s.len() {
        return Err(IntErrorKind::InvalidDigit);
    }
    Ok(acc)
}

/// Read an unsigned number of at most `max`.
pub fn read_unsigned(s: &[u8], max: u128) -> (r: Result<u128, IntErrorKind>)
    requires
        max >= 9,
    ensures
        match r {
            Ok(n) => parse_unsigned(s@, max as nat) == Ok::<nat, IntErrorKind>(n as nat) && n <= max,
            Err(kind) => parse_unsigned(s@, max as nat) == Err::<nat, IntErrorKind>(kind),
        },
{
    if s.len() == 0 {
        return Err(IntErrorKind::Empty);
    }
    assert(s@.skip(0) =~= s@);
    if s[0] == 43 {
        read_magnitude(s, 1, max, IntErrorKind::PosOverflow)
    } else {
        read_magnitude(s, 0, max, IntErrorKind::PosOverflow)
    }
}

/// Read a signed number in the range `min..=max`.
pub fn read_signed(s: &[u8], min: i128, max: i128) -> (r: Result<i128, IntErrorKind>)
    requires
        min <= -9,
        max >= 9,
    ensures
        match r {
            Ok(n) => parse_signed(s@, min as int, max as int) == Ok::<int, IntErrorKind>(n as int) && min <= n <= max,
            Err(kind) => parse_signed(s@, min as int, max as int) == Err::<int, IntErrorKind>(kind),
        },
{
    if s.len() > 0 && s[0] == 45 {
        let limit: u128 = if min == i128::MIN {
            0x8000_0000_0000_0000_0000_0000_0000_0000
        } else {
            (-min) as u128
        };
        match read_magnitude(s, 1, limit, IntErrorKind::NegOverflow) {
            Ok(n) => {
                if n == 0x8000_0000_0000_0000_0000_0000_0000_0000 {
                    Ok(i128::MIN)
                } else {
                    Ok(-(n as i128))
                }
            },
            Err(kind) => Err(kind),
        }
    } else {
        match read_unsigned(s, max as u128) {
            Ok(n) => Ok(n as i128),
            Err(kind) => Err(kind),
        }
    }
}

} // verus!
