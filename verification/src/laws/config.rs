//! Laws of the configuration.

use vstd::arithmetic::power::{lemma_pow0, lemma_pow1, lemma_pow_adds, pow};
use vstd::prelude::*;

use crate::config::{
    configured_number, hex_digit, hex_digits_value, without_hex_prefix, VirtioBlkMmioDeviceConfig,
};

verus! {

/// The hexadecimal digits in the order of their values.
pub open spec fn lower_digits() -> Seq<char> {
    seq!['0', '1', '2', '3', '4', '5', '6', '7', '8', '9', 'a', 'b', 'c', 'd', 'e', 'f']
}

/// The hexadecimal digits in the order of their values, with capital letters.
pub open spec fn upper_digits() -> Seq<char> {
    seq!['0', '1', '2', '3', '4', '5', '6', '7', '8', '9', 'A', 'B', 'C', 'D', 'E', 'F']
}

/// `c` is the hexadecimal digit for `value`.
pub open spec fn is_digit_for(c: char, value: int) -> bool {
    0 <= value < 16 && (lower_digits()[value] == c || upper_digits()[value] == c)
}

/// `digits` are the hexadecimal digits for `values`, one by one.
pub open spec fn are_digits_for(digits: Seq<char>, values: Seq<int>) -> bool {
    &&& digits.len() == values.len()
    &&& forall|i: int|
        0 <= i < digits.len() ==> is_digit_for(#[trigger] digits[i], values[i])
}

/// Positional value of digits in base 16: each counts with the power of 16 that
/// belongs to its place.
pub open spec fn positional(values: Seq<int>) -> int
    decreases values.len(),
{
    if values.len() == 0 {
        0
    } else {
        values[0] * pow(16, (values.len() - 1) as nat) + positional(values.skip(1))
    }
}

/// A character is a hexadecimal digit for at most one value, and it is read as
/// that value; any other character is no digit.
pub proof fn law_digits(c: char)
    ensures
        forall|value: int| is_digit_for(c, value) ==> hex_digit(c) == Some(value as nat),
        hex_digit(c) matches Some(value) ==> is_digit_for(c, value as int),
{
    if let Some(value) = hex_digit(c) {
        assert(lower_digits()[value as int] == c || upper_digits()[value as int] == c);
    }
}

proof fn lemma_positional_last(values: Seq<int>)
    requires
        values.len() > 0,
    ensures
        positional(values) == 16 * positional(values.drop_last()) + values.last(),
    decreases values.len(),
{
    if values.len() == 1 {
        lemma_pow0(16);
        assert(values.skip(1) =~= Seq::<int>::empty());
        assert(values.drop_last() =~= Seq::<int>::empty());
        assert(positional(Seq::<int>::empty()) == 0);
        assert(values[0] * pow(16, 0) == values[0]) by (nonlinear_arith)
            requires
                pow(16, 0) == 1,
        ;
    } else {
        let n = (values.len() - 2) as nat;
        lemma_positional_last(values.skip(1));
        assert(values.skip(1).drop_last() =~= values.drop_last().skip(1));
        assert(values.skip(1).last() == values.last());
        assert(values.drop_last()[0] == values[0]);
        lemma_pow_adds(16, 1, n);
        lemma_pow1(16);
        let v = values[0];
        assert(v * pow(16, n + 1) == 16 * (v * pow(16, n))) by (nonlinear_arith)
            requires
                pow(16, n + 1) == 16 * pow(16, n),
        ;
    }
}

proof fn lemma_digits_value(digits: Seq<char>, values: Seq<int>)
    requires
        are_digits_for(digits, values),
    ensures
        positional(values) >= 0,
        hex_digits_value(digits) == Some(positional(values) as nat),
    decreases digits.len(),
{
    if digits.len() > 0 {
        assert(is_digit_for(digits.last(), values.last()));
        assert forall|i: int| 0 <= i < digits.len() - 1 implies is_digit_for(
            #[trigger] digits.drop_last()[i],
            values.drop_last()[i],
        ) by {
            assert(is_digit_for(digits[i], values[i]));
        }
        lemma_digits_value(digits.drop_last(), values.drop_last());
        lemma_positional_last(values);
        law_digits(digits.last());
    }
}

proof fn lemma_bad_digit(s: Seq<char>, bad: int)
    requires
        0 <= bad < s.len(),
        hex_digit(s[bad]) is None,
    ensures
        hex_digits_value(s) is None,
    decreases s.len(),
{
    if bad < s.len() - 1 {
        lemma_bad_digit(s.drop_last(), bad);
    }
}

/// Parsing inverts hexadecimal notation. A string of digits, with or without a
/// `+` in front, gives its positional value where a `usize` can hold it, and
/// nothing where it cannot.
pub proof fn law_notation(digits: Seq<char>, values: Seq<int>)
    requires
        digits.len() > 0,
        are_digits_for(digits, values),
    ensures
        ({
            let number = if positional(values) <= usize::MAX {
                Some(positional(values) as usize)
            } else {
                None
            };
            &&& positional(values) >= 0
            &&& configured_number(digits) == number
            &&& configured_number(seq!['+'] + digits) == number
            &&& configured_number(seq!['0', 'x'] + digits) == number
            &&& configured_number(seq!['0', 'x', '+'] + digits) == number
        }),
{
    lemma_digits_value(digits, values);
    assert(is_digit_for(digits[0], values[0]));
    if digits.len() > 1 {
        assert(is_digit_for(digits[1], values[1]));
    }
    let signed = seq!['+'] + digits;
    assert(without_hex_prefix(digits) == digits);
    assert(without_hex_prefix(signed) == signed);
    assert(signed.skip(1) =~= digits);
    law_prefix(digits);
    law_prefix(signed);
    assert(seq!['0', 'x'] + signed =~= seq!['0', 'x', '+'] + digits);
}

/// A leading "0x" makes no difference, however often it is written.
pub proof fn law_prefix(s: Seq<char>)
    ensures
        configured_number(seq!['0', 'x'] + s) == configured_number(s),
{
    let prefixed = seq!['0', 'x'] + s;
    assert(prefixed.skip(2) =~= s);
}

/// Strings of digits with different values never give the same number.
pub proof fn law_numbers_differ(
    first: Seq<char>,
    first_values: Seq<int>,
    second: Seq<char>,
    second_values: Seq<int>,
)
    requires
        first.len() > 0,
        second.len() > 0,
        are_digits_for(first, first_values),
        are_digits_for(second, second_values),
        configured_number(first) is Some,
        configured_number(first) == configured_number(second),
    ensures
        positional(first_values) == positional(second_values),
{
    law_notation(first, first_values);
    law_notation(second, second_values);
}

/// What is neither a prefix, nor a sign in front, nor a digit has no place in a
/// number, and a number has at least one digit.
pub proof fn law_not_a_number(s: Seq<char>, bad: int)
    requires
        !(s.len() >= 2 && s[0] == '0' && s[1] == 'x'),
        ({
            ||| s.len() == 0
            ||| s.len() == 1 && s[0] == '+'
            ||| 0 <= bad < s.len() && !(bad == 0 && s[0] == '+') && forall|value: int|
                !is_digit_for(s[bad], value)
        }),
    ensures
        configured_number(s) is None,
{
    if s.len() > 1 || s.len() == 1 && s[0] != '+' {
        law_digits(s[bad]);
        if s[0] == '+' {
            assert(s.skip(1)[bad - 1] == s[bad]);
            lemma_bad_digit(s.skip(1), bad - 1);
        } else {
            lemma_bad_digit(s, bad);
        }
    }
}

/// A disk in memory is asked for by the word "memory", as the kind of the disk
/// or in place of a path, and by an empty path; nothing else asks for it.
pub proof fn law_memory_wanted(config: VirtioBlkMmioDeviceConfig)
    ensures
        config.wants_memory() <==> {
            let word = seq!['m', 'e', 'm', 'o', 'r', 'y'];
            config.backend_type@ == word || config.backend_path@ == word
                || config.backend_path@.len() == 0
        },
{
    reveal_strlit("memory");
    assert("memory"@ =~= seq!['m', 'e', 'm', 'o', 'r', 'y']);
}

} // verus!
