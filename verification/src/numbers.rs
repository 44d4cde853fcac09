//! Decimal numbers as text.

use vstd::prelude::*;

use crate::text;
use crate::text::chars_of;

verus! {

/// The decimal digit that stands for `d`.
pub open spec fn digit_char(d: nat) -> char {
    (48 + d) as char
}

/// `n` in decimal, without leading zeros.
pub open spec fn decimal(n: nat) -> Seq<char>
    decreases n,
{
    if n < 10 {
        seq![digit_char(n)]
    } else {
        decimal(n / 10).push(digit_char(n % 10))
    }
}

/// `n` in decimal, with a minus sign in front where it is negative.
pub open spec fn signed_decimal(n: int) -> Seq<char> {
    if n < 0 {
        seq!['-'] + decimal((-n) as nat)
    } else {
        decimal(n as nat)
    }
}

/// Appends `n` in decimal.
pub fn push_decimal(out: &mut String, n: u64)
    ensures
        final(out)@ == old(out)@ + decimal(n as nat),
    decreases n,
{
    if n >= 10 {
        push_decimal(out, n / 10);
    }
    let d: u8 = (n % 10) as u8;
    out.push((48 + d) as char);
    assert(out@ =~= old(out)@ + decimal(n as nat));
}

/// Appends `n` in decimal, with a minus sign in front where it is negative.
pub fn push_signed_decimal(out: &mut String, n: i64)
    ensures
        final(out)@ == old(out)@ + signed_decimal(n as int),
{
    if n < 0 {
        out.push('-');
        let magnitude: u64 = (-(n as i128)) as u64;
        push_decimal(out, magnitude);
        assert(out@ =~= old(out)@ + signed_decimal(n as int));
    } else {
        push_decimal(out, n as u64);
    }
}

/// `n` in decimal.
pub fn decimal_text(n: u64) -> (out: String)
    ensures
        out@ == decimal(n as nat),
{
    let mut out = String::new();
    push_decimal(&mut out, n);
    assert(out@ =~= decimal(n as nat));
    out
}

/// Appends `n` in decimal.
pub fn push_wide_decimal(out: &mut String, n: u128)
    ensures
        final(out)@ == old(out)@ + decimal(n as nat),
    decreases n,
{
    if n >= 10 {
        push_wide_decimal(out, n / 10);
    }
    let d: u8 = (n % 10) as u8;
    out.push((48 + d) as char);
    assert(out@ =~= old(out)@ + decimal(n as nat));
}

/// `n` zeros.
pub open spec fn zeros(n: nat) -> Seq<char> {
    Seq::new(n, |i: int| '0')
}

/// `s` with zeros before it up to a width of `width` characters.
pub open spec fn zero_filled(s: Seq<char>, width: nat) -> Seq<char> {
    if s.len() < width {
        zeros((width - s.len()) as nat) + s
    } else {
        s
    }
}

/// Appends `s` with zeros before it up to a width of `width` characters.
pub fn push_zero_filled(out: &mut String, s: &str, width: usize)
    ensures
        final(out)@ == old(out)@ + zero_filled(s@, width as nat),
{
    let ghost before = out@;
    let length: usize = s.unicode_len();
    let mut n: usize = length;
    assert(out@ =~= before + zeros(0));
    while n < width
        invariant
            length == s@.len(),
            length <= n,
            n <= width || n == length,
            out@ == before + zeros((n - length) as nat),
        decreases width - n,
    {
        out.push('0');
        n = n + 1;
        assert(out@ =~= before + zeros((n - length) as nat));
    }
    out.append(s);
    assert(out@ =~= before + zero_filled(s@, width as nat));
}

/// Appends `n` in decimal with zeros before it up to a width of `width` digits.
pub fn push_fixed(out: &mut String, n: u64, width: usize)
    ensures
        final(out)@ == old(out)@ + zero_filled(decimal(n as nat), width as nat),
{
    let digits = decimal_text(n);
    push_zero_filled(out, digits.as_str(), width);
}

/// Ten to the power of `n`.
pub open spec fn ten_to(n: nat) -> nat
    decreases n,
{
    if n == 0 {
        1
    } else {
        10 * ten_to((n - 1) as nat)
    }
}

/// The last `width` digits of `n`, with leading zeros.
pub open spec fn last_digits(n: nat, width: nat) -> Seq<char>
    decreases width,
{
    if width == 0 {
        Seq::empty()
    } else {
        last_digits(n / 10, (width - 1) as nat).push(digit_char(n % 10))
    }
}

proof fn last_digits_of_zero(width: nat)
    ensures
        last_digits(0, width) =~= zeros(width),
    decreases width,
{
    if width > 0 {
        last_digits_of_zero((width - 1) as nat);
    }
}

/// A number that is not too long fills its width with zeros and its digits.
pub proof fn zero_filled_is_last_digits(n: nat, width: nat)
    requires
        width > 0,
        n < ten_to(width),
    ensures
        zero_filled(decimal(n), width) =~= last_digits(n, width),
        decimal(n).len() <= width,
    decreases width,
{
    let rest = (width - 1) as nat;
    if n < 10 {
        last_digits_of_zero(rest);
        assert(last_digits(n, width) =~= zeros(rest).push(digit_char(n)));
    } else {
        if rest == 0 {
            assert(ten_to(width) == 10 * ten_to(0));
            assert(ten_to(0) == 1);
        }
        zero_filled_is_last_digits(n / 10, rest);
        assert(last_digits(n, width) =~= zero_filled(decimal(n / 10), rest).push(
            digit_char(n % 10),
        ));
    }
}

/// Of two numbers in the same width the smaller comes first as text, whatever follows it.
pub proof fn last_digits_keep_the_order(
    a: nat,
    b: nat,
    width: nat,
    behind_a: Seq<char>,
    behind_b: Seq<char>,
)
    requires
        a < b < ten_to(width),
    ensures
        text::text_lt(last_digits(a, width) + behind_a, last_digits(b, width) + behind_b),
    decreases width,
{
    if width > 0 {
        let rest = (width - 1) as nat;
        let x = last_digits(a / 10, rest);
        let y = last_digits(b / 10, rest);
        let more_a = seq![digit_char(a % 10)] + behind_a;
        let more_b = seq![digit_char(b % 10)] + behind_b;
        assert(last_digits(a, width) + behind_a =~= x + more_a);
        assert(last_digits(b, width) + behind_b =~= y + more_b);
        if a / 10 < b / 10 {
            last_digits_keep_the_order(a / 10, b / 10, rest, more_a, more_b);
        } else {
            assert(a % 10 < b % 10);
            assert(text::text_lt(more_a, more_b));
            text::text_lt_skip_prefix(x + more_a, y + more_b, x.len() as int);
            assert((x + more_a).skip(x.len() as int) =~= more_a);
            assert((y + more_b).skip(x.len() as int) =~= more_b);
        }
    }
}

/// Why a text is not a number in range.
#[derive(Debug, Clone, Copy, PartialEq, Eq, Structural)]
pub enum NumberFault {
    /// There is no text.
    Empty,
    /// A character is not a digit, or there is no digit.
    InvalidDigit,
    /// The number is above the range.
    TooLarge,
    /// The number is below the range.
    TooSmall,
}

impl NumberFault {
    /// The fault in words.
    pub open spec fn words(self) -> Seq<char> {
        match self {
            NumberFault::Empty => "cannot parse integer from empty string"@,
            NumberFault::InvalidDigit => "invalid digit found in string"@,
            NumberFault::TooLarge => "number too large to fit in target type"@,
            NumberFault::TooSmall => "number too small to fit in target type"@,
        }
    }

    /// The fault in words.
    pub fn message(self) -> (out: &'static str)
        ensures
            out@ == self.words(),
    {
        match self {
            NumberFault::Empty => "cannot parse integer from empty string",
            NumberFault::InvalidDigit => "invalid digit found in string",
            NumberFault::TooLarge => "number too large to fit in target type",
            NumberFault::TooSmall => "number too small to fit in target type",
        }
    }
}

/// Whether `c` is an ASCII decimal digit.
pub open spec fn is_digit(c: char) -> bool {
    '0' <= c <= '9'
}

/// The number that the digits `s` stand for, read from the left up to the first
/// character that is no digit or takes the number above `limit`.
pub open spec fn digits_value(s: Seq<char>, limit: nat) -> Result<nat, NumberFault>
    decreases s.len(),
{
    if s.len() == 0 {
        Ok(0)
    } else {
        match digits_value(s.drop_last(), limit) {
            Err(fault) => Err(fault),
            Ok(front) => {
                let value = front * 10 + (s.last() as nat - 48) as nat;
                if !is_digit(s.last()) {
                    Err(NumberFault::InvalidDigit)
                } else if value > limit {
                    Err(NumberFault::TooLarge)
                } else {
                    Ok(value)
                }
            },
        }
    }
}

/// The unsigned number that `s` stands for: digits behind an optional plus sign.
pub open spec fn unsigned_value(s: Seq<char>, limit: nat) -> Result<nat, NumberFault> {
    if s.len() == 0 {
        Err(NumberFault::Empty)
    } else if s.len() == 1 && s[0] == '+' {
        Err(NumberFault::InvalidDigit)
    } else if s[0] == '+' {
        digits_value(s.drop_first(), limit)
    } else {
        digits_value(s, limit)
    }
}

/// The 64-bit signed number that `s` stands for: digits behind an optional sign.
pub open spec fn signed_value(s: Seq<char>) -> Result<int, NumberFault> {
    if s.len() == 0 {
        Err(NumberFault::Empty)
    } else if s[0] == '-' {
        if s.len() == 1 {
            Err(NumberFault::InvalidDigit)
        } else {
            match digits_value(s.drop_first(), 0x8000_0000_0000_0000) {
                Ok(value) => Ok(-(value as int)),
                Err(NumberFault::TooLarge) => Err(NumberFault::TooSmall),
                Err(fault) => Err(fault),
            }
        }
    } else {
        match unsigned_value(s, 0x7fff_ffff_ffff_ffff) {
            Ok(value) => Ok(value as int),
            Err(fault) => Err(fault),
        }
    }
}

fn read_digits(chars: &[char], start: usize, limit: u64) -> (r: Result<u64, NumberFault>)
    requires
        start <= chars@.len(),
    ensures
        match r {
            Ok(n) => digits_value(chars@.skip(start as int), limit as nat) == Ok::<
                nat,
                NumberFault,
            >(n as nat),
            Err(fault) => digits_value(chars@.skip(start as int), limit as nat) == Err::<
                nat,
                NumberFault,
            >(fault),
        },
{
    let ghost s = chars@.skip(start as int);
    let mut value: u64 = 0;
    let mut i: usize = start;
    while i < chars.len()
        invariant
            start <= i <= chars.len(),
            s == chars@.skip(start as int),
            value <= limit,
            digits_value(s.take(i - start), limit as nat) == Ok::<nat, NumberFault>(value as nat),
        decreases chars.len() - i,
    {
        let c: char = chars[i];
        assert(s.take(i + 1 - start).drop_last() =~= s.take(i - start));
        assert(s.take(i + 1 - start).last() == c);
        if !('0' <= c && c <= '9') {
            proof {
                digits_fault_spreads(s, i + 1 - start, limit as nat);
            }
            return Err(NumberFault::InvalidDigit);
        }
        let next: u128 = (value as u128) * 10 + ((c as u32) - 48) as u128;
        if next > limit as u128 {
            proof {
                digits_fault_spreads(s, i + 1 - start, limit as nat);
            }
            return Err(NumberFault::TooLarge);
        }
        value = next as u64;
        i = i + 1;
    }
    assert(s.take(i - start) =~= s);
    Ok(value)
}

/// A fault in a prefix is the fault of the whole.
proof fn digits_fault_spreads(s: Seq<char>, n: int, limit: nat)
    requires
        0 <= n <= s.len(),
        digits_value(s.take(n), limit) is Err,
    ensures
        digits_value(s, limit) == digits_value(s.take(n), limit),
    decreases s.len() - n,
{
    if n < s.len() {
        assert(s.take(n + 1).drop_last() =~= s.take(n));
        digits_fault_spreads(s, n + 1, limit);
    } else {
        assert(s.take(n) =~= s);
    }
}

/// Reads an unsigned number of at most `limit`.
pub fn parse_unsigned(s: &str, limit: u64) -> (r: Result<u64, NumberFault>)
    ensures
        match r {
            Ok(n) => unsigned_value(s@, limit as nat) == Ok::<nat, NumberFault>(n as nat),
            Err(fault) => unsigned_value(s@, limit as nat) == Err::<nat, NumberFault>(fault),
        },
{
    let chars = chars_of(s);
    if chars.len() == 0 {
        return Err(NumberFault::Empty);
    }
    if chars[0] == '+' {
        if chars.len() == 1 {
            return Err(NumberFault::InvalidDigit);
        }
        assert(s@.drop_first() =~= chars@.skip(1));
        return read_digits(chars.as_slice(), 1, limit);
    }
    assert(s@ =~= chars@.skip(0));
    read_digits(chars.as_slice(), 0, limit)
}

/// Reads a 64-bit unsigned number.
pub fn parse_u64(s: &str) -> (r: Result<u64, NumberFault>)
    ensures
        match r {
            Ok(n) => unsigned_value(s@, u64::MAX as nat) == Ok::<nat, NumberFault>(n as nat),
            Err(fault) => unsigned_value(s@, u64::MAX as nat) == Err::<nat, NumberFault>(fault),
        },
{
    parse_unsigned(s, u64::MAX)
}

/// Reads a 64-bit signed number.
pub fn parse_i64(s: &str) -> (r: Result<i64, NumberFault>)
    ensures
        match r {
            Ok(n) => signed_value(s@) == Ok::<int, NumberFault>(n as int),
            Err(fault) => signed_value(s@) == Err::<int, NumberFault>(fault),
        },
{
    let chars = chars_of(s);
    if chars.len() == 0 {
        return Err(NumberFault::Empty);
    }
    if chars[0] == '-' {
        if chars.len() == 1 {
            return Err(NumberFault::InvalidDigit);
        }
        assert(s@.drop_first() =~= chars@.skip(1));
        return match read_digits(chars.as_slice(), 1, 0x8000_0000_0000_0000) {
            Ok(n) => Ok((-(n as i128)) as i64),
            Err(NumberFault::TooLarge) => Err(NumberFault::TooSmall),
            Err(fault) => Err(fault),
        };
    }
    match parse_unsigned(s, 0x7fff_ffff_ffff_ffff) {
        Ok(n) => Ok(n as i64),
        Err(fault) => Err(fault),
    }
}

proof fn decimal_reads_back(n: nat, limit: nat)
    requires
        n <= limit,
    ensures
        digits_value(decimal(n), limit) == Ok::<nat, NumberFault>(n),
        decimal(n).len() > 0,
        is_digit(decimal(n)[0]),
    decreases n,
{
    reveal_with_fuel(digits_value, 2);
    if n >= 10 {
        decimal_reads_back(n / 10, limit);
        assert(decimal(n).drop_last() =~= decimal(n / 10));
        assert(decimal(n)[0] == decimal(n / 10)[0]);
        assert(decimal(n).last() == digit_char(n % 10));
    } else {
        assert(decimal(n).drop_last() =~= Seq::<char>::empty());
    }
}

/// A number in decimal has nothing but digits, and at least one.
pub proof fn decimal_digits(n: nat)
    ensures
        decimal(n).len() > 0,
        forall|i: int| 0 <= i < decimal(n).len() ==> is_digit(#[trigger] decimal(n)[i]),
    decreases n,
{
    if n >= 10 {
        decimal_digits(n / 10);
    }
}

/// Reading a number that was written in decimal gives the number back.
pub proof fn unsigned_decimal_round_trip(n: nat, limit: nat)
    requires
        n <= limit,
    ensures
        unsigned_value(decimal(n), limit) == Ok::<nat, NumberFault>(n),
{
    decimal_reads_back(n, limit);
}

/// Reading a 64-bit signed number that was written in decimal gives it back.
pub proof fn signed_decimal_round_trip(n: i64)
    ensures
        signed_value(signed_decimal(n as int)) == Ok::<int, NumberFault>(n as int),
{
    if n < 0 {
        let magnitude = (-(n as int)) as nat;
        decimal_reads_back(magnitude, 0x8000_0000_0000_0000);
        assert(signed_decimal(n as int).drop_first() =~= decimal(magnitude));
    } else {
        decimal_reads_back(n as nat, 0x7fff_ffff_ffff_ffff);
    }
}

} // verus!
