//! Numerals, trimming and comparison of texts.

use vstd::prelude::*;

use crate::text;
use crate::text::NumberError;

verus! {

/// A numeral is written digit by digit, the last digit last.
pub proof fn law_numerals(tens: nat, ones: nat)
    requires
        ones < 10,
    ensures
        text::decimal(ones) == seq![(48 + ones) as char],
        tens > 0 ==> text::decimal(tens * 10 + ones) == text::decimal(tens).push(
            (48 + ones) as char,
        ),
{
    assert((tens * 10 + ones) / 10 == tens && (tens * 10 + ones) % 10 == ones);
}

/// A negative number is written with a minus sign before the numeral of its size.
pub proof fn law_signed_numerals(n: nat)
    ensures
        text::decimal_integer(n as int) == text::decimal(n),
        n > 0 ==> text::decimal_integer(-(n as int)) == seq!['-'] + text::decimal(n),
{
}

/// Digits denote what they denote in the decimal system.
pub proof fn law_digits(s: Seq<char>, c: char)
    ensures
        text::is_digit(c) <==> 48 <= c as int <= 57,
        text::all_digits(s) <==> forall|i: int|
            0 <= i < s.len() ==> 48 <= (#[trigger] s[i]) as int <= 57,
        text::digits_value(Seq::empty()) == 0,
        48 <= c as int <= 57 ==> text::digits_value(s.push(c)) == text::digits_value(s) * 10 + (
        c as int - 48),
{
    assert(s.push(c).drop_last() == s);
    assert(text::all_digits(s) ==> forall|i: int|
        0 <= i < s.len() ==> 48 <= (#[trigger] s[i]) as int <= 57) by {
        if text::all_digits(s) {
            assert forall|i: int| 0 <= i < s.len() implies 48 <= (#[trigger] s[i]) as int <= 57 by {
                assert(text::is_digit(s[i]));
            }
        }
    }
}

/// A text of digits, with or without a plus sign before them, is read as the number that the
/// digits denote, unless that is too large.
pub proof fn law_numbers_are_read(digits: Seq<char>)
    requires
        digits.len() > 0,
        forall|i: int| 0 <= i < digits.len() ==> 48 <= (#[trigger] digits[i]) as int <= 57,
    ensures
        text::digits_value(digits) <= usize::MAX ==> {
            &&& text::parse_number(digits) == Ok::<usize, NumberError>(
                text::digits_value(digits) as usize,
            )
            &&& text::parse_number(seq!['+'] + digits) == Ok::<usize, NumberError>(
                text::digits_value(digits) as usize,
            )
        },
        text::digits_value(digits) > usize::MAX ==> {
            &&& text::parse_number(digits) == Err::<usize, NumberError>(NumberError::TooLarge)
            &&& text::parse_number(seq!['+'] + digits) == Err::<usize, NumberError>(
                NumberError::TooLarge,
            )
        },
{
    text::lemma_leading_digits(digits);
    let n = text::leading_digits(digits);
    assert(n == digits.len()) by {
        if n < digits.len() {
            assert(48 <= digits[n as int] as int <= 57);
        }
    }
    assert(digits.take(n as int) == digits);
    assert((seq!['+'] + digits).skip(1) == digits);
    assert(digits[0] != '+');
}

/// A text with a character that is no digit is no number: it is refused for that character,
/// or for a number before it that is too large already.
pub proof fn law_other_texts_are_no_numbers(
    plus: bool,
    digits: Seq<char>,
    c: char,
    rest: Seq<char>,
)
    requires
        forall|i: int| 0 <= i < digits.len() ==> 48 <= (#[trigger] digits[i]) as int <= 57,
        !(48 <= c as int <= 57),
        !plus && digits.len() == 0 ==> c != '+',
    ensures
        text::parse_number(
            (if plus {
                seq!['+']
            } else {
                Seq::empty()
            }) + digits + seq![c] + rest,
        ) == Err::<usize, NumberError>(
            if text::digits_value(digits) > usize::MAX {
                NumberError::TooLarge
            } else {
                NumberError::InvalidDigit
            },
        ),
        text::parse_number(seq!['+']) == Err::<usize, NumberError>(NumberError::InvalidDigit),
        text::parse_number(Seq::empty()) == Err::<usize, NumberError>(NumberError::Empty),
{
    let body = digits + seq![c] + rest;
    let whole = (if plus {
        seq!['+']
    } else {
        Seq::empty()
    }) + digits + seq![c] + rest;
    assert(body[digits.len() as int] == c);
    if plus {
        assert(whole.skip(1) =~= body);
    } else {
        assert(whole =~= body);
        if digits.len() > 0 {
            assert(whole[0] == digits[0]);
        }
    }
    assert(text::without_plus(whole) == body);
    text::lemma_leading_digits(body);
    let n = text::leading_digits(body);
    assert(n == digits.len()) by {
        if n < digits.len() {
            assert(body[n as int] == digits[n as int]);
        }
        if n > digits.len() {
            assert(text::is_digit(body[digits.len() as int]));
        }
    }
    assert(body.take(n as int) =~= digits);
    assert(seq!['+'].skip(1) =~= Seq::<char>::empty());
    assert(Seq::<char>::empty().take(0) =~= Seq::<char>::empty());
}

/// Trimming takes the white space off both ends, all of it and nothing else.
pub proof fn law_trimming(left: Seq<char>, middle: Seq<char>, right: Seq<char>)
    requires
        forall|i: int| 0 <= i < left.len() ==> text::white_space(#[trigger] left[i]),
        forall|i: int| 0 <= i < right.len() ==> text::white_space(#[trigger] right[i]),
        middle.len() > 0 ==> !text::white_space(middle[0]) && !text::white_space(middle.last()),
    ensures
        text::trim(left + middle + right) == middle,
    decreases left.len() + right.len(),
{
    let whole = left + middle + right;
    if left.len() > 0 {
        assert(whole[0] == left[0]);
        assert(whole.skip(1) =~= left.skip(1) + middle + right);
        law_trimming(left.skip(1), middle, right);
    } else if middle.len() == 0 && right.len() > 0 {
        assert(whole[0] == right[0]);
        assert(whole.skip(1) =~= left + middle + right.skip(1));
        law_trimming(left, middle, right.skip(1));
    } else if right.len() > 0 {
        assert(whole[0] == middle[0]);
        assert(whole.last() == right.last());
        assert(whole.drop_last() =~= left + middle + right.drop_last());
        assert((left + middle + right.drop_last())[0] == middle[0]);
        law_trimming(left, middle, right.drop_last());
    } else {
        assert(whole =~= middle);
    }
}

/// Two texts are the same but for the case of ASCII letters, if and only if they are so
/// character by character.
pub proof fn law_case_is_ignored(a: Seq<char>, b: Seq<char>)
    ensures
        text::same_ignoring_ascii_case(a, b) <==> a.len() == b.len() && forall|i: int|
            0 <= i < a.len() ==> (#[trigger] a[i] == b[i] || (65 <= a[i] as int <= 90 && b[i] as int
                == a[i] as int + 32) || (65 <= b[i] as int <= 90 && a[i] as int == b[i] as int
                + 32)),
{
    if a.len() == b.len() {
        assert forall|i: int| 0 <= i < a.len() implies (text::ascii_lower(#[trigger] a[i])
            == text::ascii_lower(b[i]) <==> (a[i] == b[i] || (65 <= a[i] as int <= 90
            && b[i] as int == a[i] as int + 32) || (65 <= b[i] as int <= 90 && a[i] as int
            == b[i] as int + 32))) by {}
    }
}

/// The texts of strings are theirs, one by one.
pub proof fn law_texts(strings: Seq<String>, i: int)
    requires
        0 <= i < strings.len(),
    ensures
        text::texts(strings).len() == strings.len(),
        text::texts(strings)[i] == strings[i]@,
{
}

} // verus!
