//! Unsigned decimal numbers as text: reading them with a bound, and writing
//! them.
use vstd::prelude::*;

verus! {

/// Why a text is not an unsigned decimal number within a bound.
#[derive(Clone, Copy, Debug, PartialEq, Eq, Structural)]
pub enum IntError {
    /// The text is empty.
    Empty,
    /// A character that is no digit, before any bound was passed.
    InvalidDigit,
    /// The digits read so far already pass the bound.
    TooLarge,
}

/// Whether `c` is one of the ten digits.
pub open spec fn is_digit(c: char) -> bool {
    '0' <= c <= '9'
}

/// The value of the digit `c`.
pub open spec fn digit_value(c: char) -> nat {
    (c as u32 - 0x30) as nat
}

/// Whether every character of `s` is a digit.
pub open spec fn all_digits(s: Seq<char>) -> bool {
    forall|i: int| 0 <= i < s.len() ==> is_digit(#[trigger] s[i])
}

/// The number that the digits `s` write, most significant digit first.
pub open spec fn decimal_value(s: Seq<char>) -> nat
    decreases s.len(),
{
    if s.len() == 0 {
        0
    } else {
        decimal_value(s.drop_last()) * 10 + digit_value(s.last())
    }
}

/// `s` without one leading plus sign.
pub open spec fn unsigned_part(s: Seq<char>) -> Seq<char> {
    if s.len() > 0 && s[0] == '+' {
        s.drop_first()
    } else {
        s
    }
}

/// Whether some run of digits at the start of `d` writes a number above `max`.
pub open spec fn exceeds(d: Seq<char>, max: nat) -> bool {
    exists|j: int| 0 <= j <= d.len() && all_digits(d.take(j)) && #[trigger] decimal_value(d.take(j)) > max
}

/// The number that `s` writes, if it is one and lies within `max`: an
/// optional plus sign, then one or more digits. Reading goes from the left
/// and stops at the first fault, so digits that pass the bound are reported
/// as `TooLarge` even where a character that is no digit follows them.
pub open spec fn parse_unsigned(s: Seq<char>, max: nat) -> Result<nat, IntError> {
    let d = unsigned_part(s);
    if s.len() == 0 {
        Err(IntError::Empty)
    } else if d.len() == 0 {
        Err(IntError::InvalidDigit)
    } else if exceeds(d, max) {
        Err(IntError::TooLarge)
    } else if !all_digits(d) {
        Err(IntError::InvalidDigit)
    } else {
        Ok(decimal_value(d))
    }
}

/// Reads `v` as an unsigned decimal number of at most `max`.
pub fn parse_number(v: &Vec<char>, max: u64) -> (r: Result<u64, IntError>)
    ensures
        match parse_unsigned(v@, max as nat) {
            Ok(n) => r is Ok && r->Ok_0 == n && n <= max,
            Err(e) => r == Err::<u64, IntError>(e),
        },
{
    if v.len() == 0 {
        return Err(IntError::Empty);
    }
    let start: usize = if v[0] == '+' {
        1
    } else {
        0
    };
    let ghost d = unsigned_part(v@);
    assert(d == v@.skip(start as int));
    if start == v.len() {
        return Err(IntError::InvalidDigit);
    }
    let mut value: u64 = 0;
    let mut i: usize = start;
    assert(d.take(0).len() == 0);
    while i < v.len()
        invariant
            start <= i <= v.len(),
            start < v.len(),
            d == v@.skip(start as int),
            d == unsigned_part(v@),
            value == decimal_value(d.take(i - start)),
            value <= max,
            all_digits(d.take(i - start)),
            forall|j: int| 0 <= j <= i - start ==> #[trigger] decimal_value(d.take(j)) <= max,
        decreases v.len() - i,
    {
        let c = v[i];
        let ghost k = i - start;
        assert(d[k] == c);
        assert(d.take(k + 1).drop_last() == d.take(k));
        assert(d.take(k + 1).last() == c);
        if !(c >= '0' && c <= '9') {
            proof {
                assert forall|j: int| 0 <= j <= d.len() && all_digits(d.take(j)) implies j <= k by {
                    if j > k {
                        assert(d.take(j)[k] == c);
                    }
                }
                assert(!all_digits(d)) by {
                    assert(d[k] == c);
                }
            }
            return Err(IntError::InvalidDigit);
        }
        let digit: u64 = (c as u32 - 0x30) as u64;
        let next: u128 = value as u128 * 10 + digit as u128;
        assert(next == decimal_value(d.take(k + 1)));
        assert(all_digits(d.take(k + 1))) by {
            assert forall|j: int| 0 <= j < k + 1 implies is_digit(#[trigger] d.take(k + 1)[j]) by {
                if j < k {
                    assert(d.take(k)[j] == d.take(k + 1)[j]);
                }
            }
        }
        if next > max as u128 {
            return Err(IntError::TooLarge);
        }
        value = next as u64;
        i += 1;
    }
    assert(d.take(i - start) == d);
    Ok(value)
}

/// The number that `s` writes, of whatever size: an optional plus sign, then
/// one or more digits.
pub open spec fn parse_natural(s: Seq<char>) -> Result<nat, IntError> {
    let d = unsigned_part(s);
    if s.len() == 0 {
        Err(IntError::Empty)
    } else if d.len() == 0 || !all_digits(d) {
        Err(IntError::InvalidDigit)
    } else {
        Ok(decimal_value(d))
    }
}

/// A number that is read within a bound is the number that the text writes;
/// a text whose digits pass the bound writes a greater number or none.
pub proof fn bounded_reading_is_reading(s: Seq<char>, max: nat)
    ensures
        match parse_unsigned(s, max) {
            Ok(n) => parse_natural(s) == Ok::<nat, IntError>(n) && n <= max,
            Err(IntError::TooLarge) => match parse_natural(s) {
                Ok(n) => n > max,
                Err(e) => e == IntError::InvalidDigit,
            },
            Err(e) => parse_natural(s) == Err::<nat, IntError>(e),
        },
{
    let d = unsigned_part(s);
    if s.len() > 0 && d.len() > 0 {
        if exceeds(d, max) {
            let j = choose|j: int|
                0 <= j <= d.len() && all_digits(d.take(j)) && #[trigger] decimal_value(d.take(j))
                    > max;
            prefix_is_no_greater(d, j);
        } else if all_digits(d) {
            assert(d.take(d.len() as int) == d);
        }
    }
}

/// Reads `v` as a number of whatever size. A number above `max` is read as
/// a number that is not told.
pub fn parse_capped(v: &Vec<char>, max: u64) -> (r: Result<Option<u64>, IntError>)
    ensures
        match parse_natural(v@) {
            Ok(n) => r is Ok && r->Ok_0 == (if n <= max {
                Some(n as u64)
            } else {
                None
            }),
            Err(e) => r == Err::<Option<u64>, IntError>(e),
        },
{
    proof {
        bounded_reading_is_reading(v@, max as nat);
    }
    match parse_number(v, max) {
        Ok(n) => Ok(Some(n)),
        Err(IntError::TooLarge) => {
            let start: usize = if v.len() > 0 && v[0] == '+' {
                1
            } else {
                0
            };
            let ghost d = unsigned_part(v@);
            assert(d == v@.skip(start as int));
            let mut i: usize = start;
            while i < v.len()
                invariant
                    start <= i <= v.len(),
                    v.len() > 0,
                    d == v@.skip(start as int),
                    d == unsigned_part(v@),
                    parse_unsigned(v@, max as nat) == Err::<nat, IntError>(IntError::TooLarge),
                    forall|k: int| 0 <= k < i - start ==> is_digit(#[trigger] d[k]),
                decreases v.len() - i,
            {
                let c = v[i];
                assert(d[i - start] == c);
                if !(c >= '0' && c <= '9') {
                    assert(!all_digits(d));
                    return Err(IntError::InvalidDigit);
                }
                i += 1;
            }
            proof {
                assert(all_digits(d));
                bounded_reading_is_reading(v@, max as nat);
            }
            Ok(None)
        },
        Err(e) => Err(e),
    }
}

/// Reads `v` as a number of at most 255.
pub fn parse_u8(v: &Vec<char>) -> (r: Result<u8, IntError>)
    ensures
        match parse_unsigned(v@, 255) {
            Ok(n) => r is Ok && r->Ok_0 == n,
            Err(e) => r == Err::<u8, IntError>(e),
        },
{
    match parse_number(v, 255) {
        Ok(n) => Ok(n as u8),
        Err(e) => Err(e),
    }
}

/// Reads `v` as a number of at most 65535.
pub fn parse_u16(v: &Vec<char>) -> (r: Result<u16, IntError>)
    ensures
        match parse_unsigned(v@, 65535) {
            Ok(n) => r is Ok && r->Ok_0 == n,
            Err(e) => r == Err::<u16, IntError>(e),
        },
{
    match parse_number(v, 65535) {
        Ok(n) => Ok(n as u16),
        Err(e) => Err(e),
    }
}

/// Reads `v` as a number of at most 2^64 - 1.
pub fn parse_u64(v: &Vec<char>) -> (r: Result<u64, IntError>)
    ensures
        match parse_unsigned(v@, u64::MAX as nat) {
            Ok(n) => r is Ok && r->Ok_0 == n,
            Err(e) => r == Err::<u64, IntError>(e),
        },
{
    parse_number(v, u64::MAX)
}

/// The digit that writes `d`, for `d` below ten.
pub open spec fn digit_char(d: nat) -> char {
    seq!['0', '1', '2', '3', '4', '5', '6', '7', '8', '9'][d as int]
}

/// The decimal digits of `n`, without leading zeros.
pub open spec fn decimal_digits(n: nat) -> Seq<char>
    decreases n,
{
    if n < 10 {
        seq![digit_char(n)]
    } else {
        decimal_digits(n / 10).push(digit_char(n % 10))
    }
}

/// The decimal digits of a number are digits.
pub proof fn digits_are_digits(n: nat)
    ensures
        decimal_digits(n).len() > 0,
        all_digits(decimal_digits(n)),
{
    digits_say_their_number(n);
}

proof fn digits_say_their_number(n: nat)
    ensures
        decimal_digits(n).len() > 0,
        all_digits(decimal_digits(n)),
        decimal_value(decimal_digits(n)) == n,
    decreases n,
{
    let d = decimal_digits(n);
    if n < 10 {
        assert(d.drop_last().len() == 0);
        assert(decimal_value(d.drop_last()) == 0);
        assert(d.last() == digit_char(n));
    } else {
        digits_say_their_number(n / 10);
        assert(d.drop_last() == decimal_digits(n / 10));
        assert(d.last() == digit_char(n % 10));
        assert forall|i: int| 0 <= i < d.len() implies is_digit(#[trigger] d[i]) by {
            if i < d.len() - 1 {
                assert(d[i] == decimal_digits(n / 10)[i]);
            }
        }
    }
}

proof fn prefix_is_no_greater(d: Seq<char>, j: int)
    requires
        0 <= j <= d.len(),
    ensures
        decimal_value(d.take(j)) <= decimal_value(d),
    decreases d.len() - j,
{
    if j < d.len() {
        assert(d.take(j + 1).drop_last() == d.take(j));
        prefix_is_no_greater(d, j + 1);
    } else {
        assert(d.take(j) == d);
    }
}

/// A number that is written in decimal digits is read back as itself,
/// whatever bound it lies within.
pub proof fn written_number_reads_back(n: nat, max: nat)
    requires
        n <= max,
    ensures
        parse_unsigned(decimal_digits(n), max) == Ok::<nat, IntError>(n),
{
    let d = decimal_digits(n);
    digits_say_their_number(n);
    assert(is_digit(d[0]));
    assert(unsigned_part(d) == d);
    assert forall|j: int| 0 <= j <= d.len() implies #[trigger] decimal_value(d.take(j)) <= max by {
        prefix_is_no_greater(d, j);
    }
}

fn digit_of(d: u8) -> (c: char)
    requires
        d < 10,
    ensures
        c == digit_char(d as nat),
{
    if d == 0 {
        '0'
    } else if d == 1 {
        '1'
    } else if d == 2 {
        '2'
    } else if d == 3 {
        '3'
    } else if d == 4 {
        '4'
    } else if d == 5 {
        '5'
    } else if d == 6 {
        '6'
    } else if d == 7 {
        '7'
    } else if d == 8 {
        '8'
    } else {
        '9'
    }
}

/// Appends the decimal digits of `n` to `out`.
pub fn push_decimal(out: &mut Vec<char>, n: u64)
    ensures
        final(out)@ == old(out)@ + decimal_digits(n as nat),
    decreases n,
{
    if n >= 10 {
        push_decimal(out, n / 10);
    }
    out.push(digit_of((n % 10) as u8));
}

/// The decimal digits of `n`.
pub fn to_decimal(n: u64) -> (r: Vec<char>)
    ensures
        r@ == decimal_digits(n as nat),
{
    let mut r: Vec<char> = Vec::new();
    push_decimal(&mut r, n);
    r
}

} // verus!
