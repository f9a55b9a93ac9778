//! How reading and writing amounts fit together.

use crate::amount::{
    all_digits, decimal, digit_char, digit_value, first_point, four_digits, fraction_part,
    is_digit, is_first_point, lemma_small_powers, magnitude, number,
    pad_factor, parse_amount, render_amount, ten_to, unsigned_part, whole_part, FormatError,
};
use crate::fixed4::Fixed4;
use crate::text::{is_space, trim, trim_end, trim_start};
use vstd::prelude::*;

verus! {

/// A run of digits as a number is written: one digit, or more with the
/// first one not zero.
pub open spec fn no_leading_zero(s: Seq<char>) -> bool {
    s.len() == 1 || (s.len() > 1 && s[0] != '0')
}

/// A run of `n` zeros.
pub open spec fn zeros(n: nat) -> Seq<char> {
    Seq::new(n, |i: int| '0')
}

/// The amount text with the given sign, whole part and fractional part.
pub open spec fn spelled(negative: bool, whole: Seq<char>, frac: Seq<char>) -> Seq<char> {
    let sign = if negative {
        seq!['-']
    } else {
        Seq::<char>::empty()
    };
    sign + whole + seq!['.'] + frac
}

/// The amount text with the given sign and whole part, without a point.
pub open spec fn signed_whole(negative: bool, whole: Seq<char>) -> Seq<char> {
    let sign = if negative {
        seq!['-']
    } else {
        Seq::<char>::empty()
    };
    sign + whole
}

/// A digit is the digit of its value, and only `0` has the value zero.
pub proof fn lemma_digit(c: char)
    requires
        is_digit(c),
    ensures
        digit_char(digit_value(c)) == c,
        0 <= digit_value(c) <= 9,
        c != '0' ==> digit_value(c) >= 1,
{
}

/// A run of digits that does not start with zero spells a number of at least one.
pub proof fn lemma_leading_digit(s: Seq<char>)
    requires
        all_digits(s),
        s.len() >= 1,
        s[0] != '0',
    ensures
        number(s) >= 1,
    decreases s.len(),
{
    let init = s.drop_last();
    assert(is_digit(s[s.len() - 1]));
    lemma_digit(s[s.len() - 1]);
    if s.len() == 1 {
        assert(init.len() == 0);
        assert(number(init) == 0);
    } else {
        assert forall|i: int| 0 <= i < init.len() implies is_digit(#[trigger] init[i]) by {
            assert(init[i] == s[i]);
        }
        assert(init[0] == s[0]);
        lemma_leading_digit(init);
    }
}

/// Writing the number that a run of digits without a leading zero spells
/// gives the run back.
pub proof fn lemma_decimal_of_number(s: Seq<char>)
    requires
        all_digits(s),
        no_leading_zero(s),
    ensures
        number(s) >= 0,
        decimal(number(s) as nat) == s,
    decreases s.len(),
{
    let init = s.drop_last();
    let last = s[s.len() - 1];
    assert(is_digit(last));
    lemma_digit(last);
    if s.len() == 1 {
        assert(number(init) == 0);
        assert(decimal(number(s) as nat) =~= s);
    } else {
        assert forall|i: int| 0 <= i < init.len() implies is_digit(#[trigger] init[i]) by {
            assert(init[i] == s[i]);
        }
        assert(init[0] == s[0]);
        lemma_leading_digit(init);
        lemma_decimal_of_number(init);
        assert(number(s) == number(init) * 10 + digit_value(last));
        assert(number(s) / 10 == number(init));
        assert(number(s) % 10 == digit_value(last));
        assert(decimal(number(s) as nat) =~= s);
    }
}

/// Zeros appended to a run of digits multiply its number by a power of ten.
pub proof fn lemma_padded_number(s: Seq<char>, k: nat)
    ensures
        number(s + zeros(k)) == number(s) * ten_to(k),
    decreases k,
{
    if k == 0 {
        assert(s + zeros(0) =~= s);
    } else {
        let padded = s + zeros(k);
        assert(padded.drop_last() =~= s + zeros((k - 1) as nat));
        assert(padded.last() == '0');
        lemma_padded_number(s, (k - 1) as nat);
        assert(number(s) * ten_to((k - 1) as nat) * 10 == number(s) * (10 * ten_to(
            (k - 1) as nat,
        ))) by (nonlinear_arith);
    }
}

/// Writing the number that four digits spell, zeros included, gives the
/// four digits back.
pub proof fn lemma_four_digits_of_number(s: Seq<char>)
    requires
        all_digits(s),
        s.len() == 4,
    ensures
        0 <= number(s) < 10000,
        four_digits(number(s) as nat) == s,
{
    let s3 = s.drop_last();
    let s2 = s3.drop_last();
    let s1 = s2.drop_last();
    let s0 = s1.drop_last();
    assert(s0.len() == 0);
    assert(number(s0) == 0);
    assert(number(s1) == number(s0) * 10 + digit_value(s1.last()));
    assert(number(s2) == number(s1) * 10 + digit_value(s2.last()));
    assert(number(s3) == number(s2) * 10 + digit_value(s3.last()));
    assert(number(s) == number(s3) * 10 + digit_value(s.last()));
    assert(s1.last() == s[0] && s2.last() == s[1] && s3.last() == s[2] && s.last() == s[3]);
    assert(is_digit(s[0]) && is_digit(s[1]) && is_digit(s[2]) && is_digit(s[3]));
    lemma_digit(s[0]);
    lemma_digit(s[1]);
    lemma_digit(s[2]);
    lemma_digit(s[3]);
    let n = number(s);
    assert(n / 1000 % 10 == digit_value(s[0]));
    assert(n / 100 % 10 == digit_value(s[1]));
    assert(n / 10 % 10 == digit_value(s[2]));
    assert(n % 10 == digit_value(s[3]));
    assert(four_digits(n as nat) =~= s);
}

/// How a text made of a sign, a whole part and a fractional part is read.
pub proof fn lemma_parse_of_spelled(negative: bool, whole: Seq<char>, frac: Seq<char>)
    requires
        all_digits(whole),
        whole.len() >= 1,
        all_digits(frac),
        1 <= frac.len() <= 4,
    ensures
        magnitude(whole + seq!['.'] + frac) == Ok::<int, FormatError>(
            number(whole) * 10000 + number(frac) * pad_factor(frac.len()),
        ),
        trim(spelled(negative, whole, frac)) == spelled(negative, whole, frac),
        unsigned_part(spelled(negative, whole, frac)) == whole + seq!['.'] + frac,
        spelled(negative, whole, frac)[0] == '-' <==> negative,
{
    let text = spelled(negative, whole, frac);
    let u = whole + seq!['.'] + frac;
    let p = whole.len() as int;
    assert(is_digit(whole[0]));
    assert(is_digit(frac[frac.len() - 1]));
    assert(text.last() == frac[frac.len() - 1]);
    assert(text[0] == if negative { '-' } else { whole[0] });
    assert(!is_space(text[0]));
    assert(!is_space(text.last()));
    assert(trim_start(text) == text);
    assert(trim_end(text) == text);
    if negative {
        assert(text.skip(1) =~= u);
    } else {
        assert(text =~= u);
    }
    assert(u[p] == '.');
    assert forall|j: int| 0 <= j < p implies u[j] != '.' by {
        assert(u[j] == whole[j]);
        assert(is_digit(whole[j]));
    }
    assert(is_first_point(u, p));
    let q = first_point(u);
    assert(is_first_point(u, q));
    assert(q == p);
    assert(u.contains('.'));
    assert(whole_part(u) =~= whole);
    assert(fraction_part(u) =~= frac);
    assert(!frac.contains('.')) by {
        if frac.contains('.') {
            let i = choose|i: int| 0 <= i < frac.len() && frac[i] == '.';
            assert(is_digit(frac[i]));
        }
    }
}

/// Reading an amount and writing it again gives the text back with its
/// fractional part padded with zeros to four digits. This holds of every
/// text in the form that amounts are written in: a whole part without a
/// leading zero, one to four fractional digits, nothing around it, and a
/// `-` only before an amount other than zero.
pub proof fn lemma_render_of_parsed(negative: bool, whole: Seq<char>, frac: Seq<char>)
    requires
        all_digits(whole),
        no_leading_zero(whole),
        all_digits(frac),
        1 <= frac.len() <= 4,
        parse_amount(spelled(negative, whole, frac)) is Ok,
        negative ==> parse_amount(spelled(negative, whole, frac))->Ok_0@ != 0,
    ensures
        render_amount(parse_amount(spelled(negative, whole, frac))->Ok_0@) == spelled(
            negative,
            whole,
            frac + zeros((4 - frac.len()) as nat),
        ),
{
    let text = spelled(negative, whole, frac);
    let k = (4 - frac.len()) as nat;
    let padded = frac + zeros(k);
    lemma_parse_of_spelled(negative, whole, frac);
    lemma_decimal_of_number(whole);
    lemma_small_powers();
    lemma_padded_number(frac, k);
    assert(pad_factor(frac.len()) == ten_to(k));
    assert forall|i: int| 0 <= i < padded.len() implies is_digit(#[trigger] padded[i]) by {
        if i < frac.len() {
            assert(padded[i] == frac[i]);
        }
    }
    lemma_four_digits_of_number(padded);
    let w = number(whole);
    let f = number(padded);
    let m = w * 10000 + f;
    assert(magnitude(unsigned_part(text)) == Ok::<int, FormatError>(m));
    let v = parse_amount(text)->Ok_0@;
    assert(v == if negative { -m } else { m });
    assert(m / 10000 == w && m % 10000 == f);
    assert(render_amount(v) =~= spelled(negative, whole, padded));
}

/// An amount text with more than four characters after its decimal point
/// is refused, whatever they are; it is never cut short or rounded.
pub proof fn lemma_long_fraction_is_refused(text: Seq<char>)
    requires
        unsigned_part(trim(text)).contains('.'),
        fraction_part(unsigned_part(trim(text))).len() > 4,
    ensures
        parse_amount(text) is Err,
        all_digits(whole_part(unsigned_part(trim(text)))) && !fraction_part(
            unsigned_part(trim(text)),
        ).contains('.') ==> parse_amount(text) == Err::<Fixed4, FormatError>(
            FormatError::TooManyDecimals,
        ),
{
}

/// The same for a text without a decimal point: it is written again
/// with a point and four zeros behind it.
pub proof fn lemma_render_of_parsed_whole(negative: bool, whole: Seq<char>)
    requires
        all_digits(whole),
        no_leading_zero(whole),
        parse_amount(signed_whole(negative, whole)) is Ok,
        negative ==> parse_amount(signed_whole(negative, whole))->Ok_0@ != 0,
    ensures
        render_amount(parse_amount(signed_whole(negative, whole))->Ok_0@) == spelled(
            negative,
            whole,
            zeros(4),
        ),
{
    let text = signed_whole(negative, whole);
    lemma_digit(whole[0]);
    lemma_digit(whole[whole.len() - 1]);
    assert(text.last() == whole[whole.len() - 1]);
    assert(text[0] == if negative { '-' } else { whole[0] });
    assert(trim_start(text) == text);
    assert(trim_end(text) == text);
    if negative {
        assert(text.skip(1) =~= whole);
    } else {
        assert(text =~= whole);
    }
    assert(!whole.contains('.')) by {
        if whole.contains('.') {
            let i = choose|i: int| 0 <= i < whole.len() && whole[i] == '.';
            assert(is_digit(whole[i]));
        }
    }
    lemma_decimal_of_number(whole);
    let m = number(whole) * 10000;
    assert(magnitude(unsigned_part(text)) == Ok::<int, FormatError>(m));
    assert(m / 10000 == number(whole) && m % 10000 == 0);
    lemma_digit('0');
    assert(four_digits(0) =~= zeros(4));
    let v = parse_amount(text)->Ok_0@;
    assert(render_amount(v) =~= spelled(negative, whole, zeros(4)));
}

/// The digits that a number is written with spell that number, and do not
/// start with a zero unless the number is zero.
pub proof fn lemma_number_of_decimal(n: nat)
    ensures
        all_digits(decimal(n)),
        no_leading_zero(decimal(n)),
        number(decimal(n)) == n,
    decreases n,
{
    let s = decimal(n);
    if n < 10 {
        assert(s.drop_last().len() == 0);
        assert(number(s.drop_last()) == 0);
        assert(s.last() == digit_char(n as int));
    } else {
        lemma_number_of_decimal(n / 10);
        let init = decimal(n / 10);
        assert(s.drop_last() =~= init);
        assert(s.last() == digit_char((n % 10) as int));
        assert(s[0] == init[0]);
        if init.len() == 1 {
            assert(init.drop_last().len() == 0);
            assert(number(init.drop_last()) == 0);
            assert(number(init) == digit_value(init[0]));
        }
        assert forall|i: int| 0 <= i < s.len() implies is_digit(#[trigger] s[i]) by {
            if i < init.len() {
                assert(s[i] == init[i]);
            }
        }
    }
}

/// The four digits that a number below ten thousand is written with spell
/// that number.
pub proof fn lemma_number_of_four_digits(n: nat)
    requires
        n < 10000,
    ensures
        all_digits(four_digits(n)),
        four_digits(n).len() == 4,
        number(four_digits(n)) == n,
{
    let s = four_digits(n);
    let s3 = s.drop_last();
    let s2 = s3.drop_last();
    let s1 = s2.drop_last();
    let s0 = s1.drop_last();
    assert(s0.len() == 0);
    assert(number(s0) == 0);
    assert(number(s1) == number(s0) * 10 + digit_value(s1.last()));
    assert(number(s2) == number(s1) * 10 + digit_value(s2.last()));
    assert(number(s3) == number(s2) * 10 + digit_value(s3.last()));
    assert(number(s) == number(s3) * 10 + digit_value(s.last()));
    assert(s1.last() == s[0] && s2.last() == s[1] && s3.last() == s[2] && s.last() == s[3]);
}

/// Every amount is read back from the text it is written as.
pub proof fn lemma_parse_of_rendered(amount: Fixed4)
    ensures
        parse_amount(render_amount(amount@)) == Ok::<Fixed4, FormatError>(amount),
{
    let v = amount@;
    let m = if v < 0 {
        -v
    } else {
        v
    };
    let whole = decimal((m / 10000) as nat);
    let frac = four_digits((m % 10000) as nat);
    lemma_number_of_decimal((m / 10000) as nat);
    lemma_number_of_four_digits((m % 10000) as nat);
    lemma_parse_of_spelled(v < 0, whole, frac);
    assert(render_amount(v) == spelled(v < 0, whole, frac));
    assert(pad_factor(4) == 1);
    assert(magnitude(whole + seq!['.'] + frac) == Ok::<int, FormatError>(m));
}

} // verus!
