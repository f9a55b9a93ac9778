//! The text form of amounts: the grammar that is read and the form that is written.

use crate::fixed4::{fits, Fixed4};
use crate::text::{chars_of, trim, trim_bounds};
use vstd::prelude::*;

verus! {

/// Why a text is not a valid amount.
#[derive(Clone, Copy, Debug, PartialEq, Eq, Structural)]
pub enum FormatError {
    /// Nothing is left once the surrounding whitespace is gone.
    Empty,
    /// There is no decimal point and the text is not a run of digits.
    InvalidNumber,
    /// The part before the decimal point is not a run of digits.
    InvalidWhole,
    /// More than four characters follow the decimal point.
    TooManyDecimals,
    /// The part after the decimal point is not a run of one to four digits.
    InvalidDecimal,
    /// There is more than one decimal point.
    MultiplePoints,
    /// The amount is outside the representable range.
    OutOfRange,
}

/// Whether `c` is one of the ten decimal digits.
pub open spec fn is_digit(c: char) -> bool {
    0x30 <= c as u32 <= 0x39
}

/// The number that a digit stands for.
pub open spec fn digit_value(c: char) -> int {
    c as u32 - 0x30
}

/// The digit that stands for a number below ten.
pub open spec fn digit_char(d: int) -> char {
    (d + 0x30) as char
}

/// Whether `s` consists of digits only; the empty text does.
pub open spec fn all_digits(s: Seq<char>) -> bool {
    forall|i: int| 0 <= i < s.len() ==> is_digit(#[trigger] s[i])
}

/// The number that a run of digits spells in base ten; the empty run spells zero.
pub open spec fn number(s: Seq<char>) -> int
    decreases s.len(),
{
    if s.len() == 0 {
        0
    } else {
        number(s.drop_last()) * 10 + digit_value(s.last())
    }
}

/// Whether `i` is the place of the first decimal point of `s`.
pub open spec fn is_first_point(s: Seq<char>, i: int) -> bool {
    &&& 0 <= i < s.len()
    &&& s[i] == '.'
    &&& forall|j: int| 0 <= j < i ==> s[j] != '.'
}

/// The place of the first decimal point of a text that has one.
pub open spec fn first_point(s: Seq<char>) -> int {
    choose|i: int| is_first_point(s, i)
}

/// What one fractional digit string of the given length is multiplied by
/// to count ten-thousandths.
pub open spec fn pad_factor(len: nat) -> int {
    if len == 1 {
        1000
    } else if len == 2 {
        100
    } else if len == 3 {
        10
    } else {
        1
    }
}

/// The part of an unsigned amount text before its first decimal point.
pub open spec fn whole_part(u: Seq<char>) -> Seq<char> {
    u.subrange(0, first_point(u))
}

/// The part of an unsigned amount text after its first decimal point.
pub open spec fn fraction_part(u: Seq<char>) -> Seq<char> {
    u.subrange(first_point(u) + 1, u.len() as int)
}

/// The ten-thousandths that an unsigned amount text spells: digits alone,
/// or digits (possibly none), a point, and one to four digits.
pub open spec fn magnitude(u: Seq<char>) -> Result<int, FormatError> {
    if !u.contains('.') {
        if u.len() > 0 && all_digits(u) {
            Ok(number(u) * 10000)
        } else {
            Err(FormatError::InvalidNumber)
        }
    } else {
        let whole = whole_part(u);
        let frac = fraction_part(u);
        if frac.contains('.') {
            Err(FormatError::MultiplePoints)
        } else if !all_digits(whole) {
            Err(FormatError::InvalidWhole)
        } else if frac.len() > 4 {
            Err(FormatError::TooManyDecimals)
        } else if frac.len() == 0 || !all_digits(frac) {
            Err(FormatError::InvalidDecimal)
        } else {
            Ok(number(whole) * 10000 + number(frac) * pad_factor(frac.len()))
        }
    }
}

/// A text without its leading `-`, if it has one.
pub open spec fn unsigned_part(t: Seq<char>) -> Seq<char> {
    if t.len() > 0 && t[0] == '-' {
        t.skip(1)
    } else {
        t
    }
}

/// The amount that a text spells: whitespace around it is ignored, a
/// leading `-` negates, and the rest is read by `magnitude`.
pub open spec fn parse_amount(text: Seq<char>) -> Result<Fixed4, FormatError> {
    let t = trim(text);
    if t.len() == 0 {
        Err(FormatError::Empty)
    } else {
        let negative = t[0] == '-';
        match magnitude(unsigned_part(t)) {
            Err(e) => Err(e),
            Ok(m) => {
                let v = if negative {
                    -m
                } else {
                    m
                };
                if fits(v) {
                    Ok(Fixed4(v as i64))
                } else {
                    Err(FormatError::OutOfRange)
                }
            },
        }
    }
}

/// The decimal digits of `n`, without leading zeros; zero is `0`.
pub open spec fn decimal(n: nat) -> Seq<char>
    decreases n,
{
    if n < 10 {
        seq![digit_char(n as int)]
    } else {
        decimal(n / 10).push(digit_char((n % 10) as int))
    }
}

/// The four digits of a number below ten thousand, zeros included.
pub open spec fn four_digits(n: nat) -> Seq<char> {
    seq![
        digit_char((n / 1000 % 10) as int),
        digit_char((n / 100 % 10) as int),
        digit_char((n / 10 % 10) as int),
        digit_char((n % 10) as int),
    ]
}

/// The text of an amount of `v` ten-thousandths: a `-` if it is negative,
/// the whole part, a point, and exactly four fractional digits.
pub open spec fn render_amount(v: int) -> Seq<char> {
    let m = if v < 0 {
        -v
    } else {
        v
    };
    let sign = if v < 0 {
        seq!['-']
    } else {
        Seq::<char>::empty()
    };
    sign + decimal((m / 10000) as nat) + seq!['.'] + four_digits((m % 10000) as nat)
}

/// Ten to the power `n`.
pub open spec fn ten_to(n: nat) -> int
    decreases n,
{
    if n == 0 {
        1
    } else {
        10 * ten_to((n - 1) as nat)
    }
}

/// A run of `n` digits spells a number from zero up to, not including,
/// ten to the power `n`.
pub proof fn lemma_number_range(s: Seq<char>)
    requires
        all_digits(s),
    ensures
        0 <= number(s) < ten_to(s.len()),
    decreases s.len(),
{
    if s.len() > 0 {
        let init = s.drop_last();
        assert forall|i: int| 0 <= i < init.len() implies is_digit(#[trigger] init[i]) by {
            assert(init[i] == s[i]);
        }
        lemma_number_range(init);
        assert(is_digit(s[s.len() - 1]));
    }
}

/// The first five powers of ten.
pub proof fn lemma_small_powers()
    ensures
        ten_to(0) == 1,
        ten_to(1) == 10,
        ten_to(2) == 100,
        ten_to(3) == 1000,
        ten_to(4) == 10000,
{
    reveal_with_fuel(ten_to, 6);
}

/// The largest whole part whose ten-thousandths can still be representable.
pub const WHOLE_LIMIT: u64 = 922337203685477;

/// What a run of characters turned out to be when read as a number.
enum Digits {
    /// Some character is not a digit.
    Invalid,
    /// All are digits and the number is above `WHOLE_LIMIT`.
    Large,
    /// All are digits and this is the number.
    Value(u64),
}

/// Whether a decimal point stands at one of the places `from..to`.
fn has_point(chars: &Vec<char>, from: usize, to: usize) -> (r: bool)
    requires
        from <= to <= chars@.len(),
    ensures
        r == chars@.subrange(from as int, to as int).contains('.'),
{
    let ghost s = chars@.subrange(from as int, to as int);
    let mut i: usize = from;
    while i < to
        invariant
            from <= i <= to <= chars@.len(),
            s == chars@.subrange(from as int, to as int),
            forall|j: int| 0 <= j < i - from ==> s[j] != '.',
        decreases to - i,
    {
        if chars[i] == '.' {
            assert(s[i - from] == '.');
            return true;
        }
        i += 1;
    }
    false
}

/// Reads the places `from..to` as a number.
fn read_digits(chars: &Vec<char>, from: usize, to: usize) -> (r: Digits)
    requires
        from <= to <= chars@.len(),
    ensures
        match r {
            Digits::Invalid => !all_digits(chars@.subrange(from as int, to as int)),
            Digits::Large => all_digits(chars@.subrange(from as int, to as int)) && number(
                chars@.subrange(from as int, to as int),
            ) > WHOLE_LIMIT,
            Digits::Value(v) => all_digits(chars@.subrange(from as int, to as int)) && number(
                chars@.subrange(from as int, to as int),
            ) == v && v <= WHOLE_LIMIT,
        },
{
    let ghost s = chars@.subrange(from as int, to as int);
    let mut value: u64 = 0;
    let mut large = false;
    let mut i: usize = from;
    while i < to
        invariant
            from <= i <= to <= chars@.len(),
            s == chars@.subrange(from as int, to as int),
            all_digits(s.subrange(0, i - from)),
            large ==> number(s.subrange(0, i - from)) > WHOLE_LIMIT,
            !large ==> number(s.subrange(0, i - from)) == value && value <= WHOLE_LIMIT,
        decreases to - i,
    {
        let n: u32 = chars[i] as u32;
        if n < 0x30 || n > 0x39 {
            assert(!is_digit(s[i - from]));
            return Digits::Invalid;
        }
        let digit: u64 = (n - 0x30) as u64;
        proof {
            let next = s.subrange(0, i - from + 1);
            assert(next.drop_last() =~= s.subrange(0, i - from));
            assert(next.last() == chars@[i as int]);
            assert forall|j: int| 0 <= j < next.len() implies is_digit(#[trigger] next[j]) by {
                if j < i - from {
                    assert(next[j] == s.subrange(0, i - from)[j]);
                }
            }
        }
        if !large {
            value = value * 10 + digit;
            if value > WHOLE_LIMIT {
                large = true;
            }
        }
        i += 1;
    }
    assert(s.subrange(0, to - from) =~= s);
    if large {
        Digits::Large
    } else {
        Digits::Value(value)
    }
}

/// The amount of `magnitude` ten-thousandths with the given sign, where
/// it is representable.
fn signed(negative: bool, magnitude: u64) -> (r: Result<Fixed4, FormatError>)
    ensures
        r == if fits(if negative { -(magnitude as int) } else { magnitude as int }) {
            Ok::<Fixed4, FormatError>(
                Fixed4((if negative { -(magnitude as int) } else { magnitude as int }) as i64),
            )
        } else {
            Err::<Fixed4, FormatError>(FormatError::OutOfRange)
        },
{
    if negative {
        if magnitude > 0x8000_0000_0000_0000 {
            Err(FormatError::OutOfRange)
        } else if magnitude == 0x8000_0000_0000_0000 {
            Ok(Fixed4(i64::MIN))
        } else {
            Ok(Fixed4(-(magnitude as i64)))
        }
    } else if magnitude > 0x7FFF_FFFF_FFFF_FFFF {
        Err(FormatError::OutOfRange)
    } else {
        Ok(Fixed4(magnitude as i64))
    }
}

impl Fixed4 {
    /// Reads an amount from its text form: an optional `-`, then digits,
    /// or digits (possibly none), a point and one to four digits, with
    /// whitespace allowed around the whole. Fewer than four fractional
    /// digits count as if zeros followed them; more than four are an error,
    /// as is an amount outside the representable range.
    pub fn from_str(text: &str) -> (r: Result<Fixed4, FormatError>)
        ensures
            r == parse_amount(text@),
    {
        let chars = chars_of(text);
        let n: usize = chars.len();
        let (start, end) = trim_bounds(&chars);
        let ghost t = chars@.subrange(start as int, end as int);
        if start == end {
            return Err(FormatError::Empty);
        }
        let negative = chars[start] == '-';
        let begin: usize = if negative {
            start + 1
        } else {
            start
        };
        let ghost u = chars@.subrange(begin as int, end as int);
        assert(u =~= if negative { t.skip(1) } else { t });
        let mut point: usize = begin;
        while point < end && chars[point] != '.'
            invariant
                begin <= point <= end <= n,
                n == chars@.len(),
                u == chars@.subrange(begin as int, end as int),
                forall|j: int| 0 <= j < point - begin ==> u[j] != '.',
            decreases end - point,
        {
            point += 1;
        }
        if point == end {
            assert(!u.contains('.'));
            if begin == end {
                return Err(FormatError::InvalidNumber);
            }
            match read_digits(&chars, begin, end) {
                Digits::Invalid => Err(FormatError::InvalidNumber),
                Digits::Large => Err(FormatError::OutOfRange),
                Digits::Value(whole) => signed(negative, whole * 10000),
            }
        } else {
            let ghost p = point - begin;
            assert(is_first_point(u, p));
            assert(u.contains('.'));
            assert(first_point(u) == p);
            let ghost whole_text = whole_part(u);
            let ghost frac_text = fraction_part(u);
            assert(whole_text =~= chars@.subrange(begin as int, point as int));
            assert(frac_text =~= chars@.subrange(point + 1, end as int));
            if has_point(&chars, point + 1, end) {
                return Err(FormatError::MultiplePoints);
            }
            let whole = read_digits(&chars, begin, point);
            if let Digits::Invalid = whole {
                return Err(FormatError::InvalidWhole);
            }
            let frac_len: usize = end - point - 1;
            if frac_len > 4 {
                return Err(FormatError::TooManyDecimals);
            }
            if frac_len == 0 {
                return Err(FormatError::InvalidDecimal);
            }
            proof {
                lemma_small_powers();
                if all_digits(frac_text) {
                    lemma_number_range(frac_text);
                }
            }
            let frac = match read_digits(&chars, point + 1, end) {
                Digits::Value(v) => v,
                Digits::Invalid => { return Err(FormatError::InvalidDecimal); },
                Digits::Large => { return Err(FormatError::OutOfRange); },
            };
            let factor: u64 = if frac_len == 1 {
                1000
            } else if frac_len == 2 {
                100
            } else if frac_len == 3 {
                10
            } else {
                1
            };
            match whole {
                Digits::Value(w) => signed(negative, w * 10000 + frac * factor),
                _ => Err(FormatError::OutOfRange),
            }
        }
    }
}

/// The text of one digit.
fn digit_text(d: u64) -> (r: &'static str)
    requires
        d < 10,
    ensures
        r@ == seq![digit_char(d as int)],
{
    proof {
        reveal_strlit("0");
        reveal_strlit("1");
        reveal_strlit("2");
        reveal_strlit("3");
        reveal_strlit("4");
        reveal_strlit("5");
        reveal_strlit("6");
        reveal_strlit("7");
        reveal_strlit("8");
        reveal_strlit("9");
    }
    let r = if d == 0 {
        "0"
    } else if d == 1 {
        "1"
    } else if d == 2 {
        "2"
    } else if d == 3 {
        "3"
    } else if d == 4 {
        "4"
    } else if d == 5 {
        "5"
    } else if d == 6 {
        "6"
    } else if d == 7 {
        "7"
    } else if d == 8 {
        "8"
    } else {
        "9"
    };
    assert(r@ =~= seq![digit_char(d as int)]);
    r
}

/// Appends the decimal digits of `n` to `out`.
fn push_decimal(out: &mut String, n: u64)
    ensures
        final(out)@ == old(out)@ + decimal(n as nat),
    decreases n,
{
    if n >= 10 {
        push_decimal(out, n / 10);
    }
    out.append(digit_text(n % 10));
    assert(out@ =~= old(out)@ + decimal(n as nat));
}

impl Fixed4 {
    /// Writes the amount with exactly four fractional digits, without
    /// rounding and without an exponent.
    pub fn to_string(&self) -> (r: String)
        ensures
            r@ == render_amount(self@),
    {
        let wide: i128 = self.0 as i128;
        let m: u64 = if wide < 0 {
            (-wide) as u64
        } else {
            wide as u64
        };
        let frac: u64 = m % 10000;
        let mut out = String::new();
        if wide < 0 {
            proof {
                reveal_strlit("-");
            }
            out.append("-");
        }
        push_decimal(&mut out, m / 10000);
        proof {
            reveal_strlit(".");
        }
        out.append(".");
        out.append(digit_text(frac / 1000 % 10));
        out.append(digit_text(frac / 100 % 10));
        out.append(digit_text(frac / 10 % 10));
        out.append(digit_text(frac % 10));
        assert(out@ =~= render_amount(self@));
        out
    }
}

} // verus!
