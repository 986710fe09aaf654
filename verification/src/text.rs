//! Numbers as text, and text within text.

use vstd::prelude::*;

verus! {

/// Whether `pattern` occurs somewhere in `text`.
pub open spec fn occurs_in(pattern: Seq<char>, text: Seq<char>) -> bool {
    exists|at: int| occurs_at(pattern, text, at)
}

/// Whether `pattern` occurs in `text` at this position.
pub open spec fn occurs_at(pattern: Seq<char>, text: Seq<char>, at: int) -> bool {
    0 <= at && at + pattern.len() <= text.len() && text.subrange(at, at + pattern.len()) == pattern
}

/// Whether `pattern` occurs somewhere in `text`.
pub fn contains(text: &str, pattern: &str) -> (result: bool)
    ensures
        result == occurs_in(pattern@, text@),
{
    let text_len: usize = text.unicode_len();
    let pattern_len: usize = pattern.unicode_len();
    if pattern_len > text_len {
        return false;
    }
    let last: usize = text_len - pattern_len;
    let mut at: usize = 0;
    loop
        invariant
            text_len == text@.len(),
            pattern_len == pattern@.len(),
            last == text_len - pattern_len,
            0 <= at <= last,
            forall|k: int| 0 <= k < at ==> !occurs_at(pattern@, text@, k),
        decreases last - at,
    {
        if matches_at(text, pattern, at) {
            return true;
        }
        if at == last {
            assert(forall|k: int| !occurs_at(pattern@, text@, k));
            return false;
        }
        at = at + 1;
    }
}

fn matches_at(text: &str, pattern: &str, at: usize) -> (result: bool)
    requires
        at + pattern@.len() <= text@.len(),
    ensures
        result == occurs_at(pattern@, text@, at as int),
{
    let text_len: usize = text.unicode_len();
    let pattern_len: usize = pattern.unicode_len();
    let mut k: usize = 0;
    while k < pattern_len
        invariant
            text_len == text@.len(),
            pattern_len == pattern@.len(),
            at + pattern_len <= text_len,
            0 <= k <= pattern_len,
            forall|j: int| 0 <= j < k ==> text@[at + j] == pattern@[j],
        decreases pattern_len - k,
    {
        if text.get_char(at + k) != pattern.get_char(k) {
            assert(text@.subrange(at as int, at + pattern@.len())[k as int] == text@[at + k]);
            return false;
        }
        k = k + 1;
    }
    assert(text@.subrange(at as int, at + pattern@.len()) =~= pattern@);
    true
}

/// The digit with this value: decimal digits, then lower-case letters.
pub open spec fn digit_char(value: int) -> char {
    if value < 10 {
        (value + '0' as int) as char
    } else {
        (value - 10 + 'a' as int) as char
    }
}

/// The value of a digit.
pub open spec fn digit_value(digit: char) -> int {
    if '0' <= digit <= '9' {
        digit as int - '0' as int
    } else {
        digit as int - 'a' as int + 10
    }
}

proof fn lemma_quotient_smaller(number: nat, base: nat)
    requires
        number >= base >= 2,
    ensures
        number / base < number,
{
    assert(number / base < number) by (nonlinear_arith)
        requires
            number >= base,
            base >= 2,
    ;
}

/// A number written out in a base, without leading zeros.
pub open spec fn digits(number: nat, base: nat) -> Seq<char>
    decreases number,
{
    if number < base || base < 2 {
        seq![digit_char(number as int)]
    } else {
        proof {
            assert(number / base < number) by (nonlinear_arith)
                requires
                    number >= base,
                    base >= 2,
            ;
        }
        digits(number / base, base).push(digit_char((number % base) as int))
    }
}

/// The number that digits in a base stand for.
pub open spec fn number_of(text: Seq<char>, base: int) -> int
    decreases text.len(),
{
    if text.len() == 0 {
        0
    } else {
        number_of(text.drop_last(), base) * base + digit_value(text.last())
    }
}

/// A number that was written out reads as the number that it was, in every base from 2 to 16.
pub proof fn law_digits_read_back(number: nat, base: nat)
    requires
        2 <= base <= 16,
    ensures
        number_of(digits(number, base), base as int) == number,
        digits(number, base).len() > 0,
    decreases number,
{
    reveal_with_fuel(number_of, 2);
    let text = digits(number, base);
    if number < base {
        assert(text.drop_last() =~= Seq::empty());
    } else {
        lemma_quotient_smaller(number, base);
        law_digits_read_back(number / base, base);
        assert(text.drop_last() =~= digits(number / base, base));
        assert((number / base) * base + number % base == number) by {
            vstd::arithmetic::div_mod::lemma_fundamental_div_mod(number as int, base as int);
            assert(base * (number / base) == (number / base) * base) by (nonlinear_arith);
        }
    }
}

/// The text of one digit.
fn digit_text(value: u64) -> (result: &'static str)
    requires
        value < 16,
    ensures
        result@ == seq![digit_char(value as int)],
{
    proof {
        reveal_strlit("0");
        reveal_strlit("1");
        reveal_strlit("2");
        reveal_strlit("3");
        reveal_strlit("4");
        reveal_strlit("5");
        reveal_strlit("6");
        reveal_strlit("7");
        reveal_strlit("8");
        reveal_strlit("9");
        reveal_strlit("a");
        reveal_strlit("b");
        reveal_strlit("c");
        reveal_strlit("d");
        reveal_strlit("e");
        reveal_strlit("f");
    }
    let result = match value {
        0 => "0",
        1 => "1",
        2 => "2",
        3 => "3",
        4 => "4",
        5 => "5",
        6 => "6",
        7 => "7",
        8 => "8",
        9 => "9",
        10 => "a",
        11 => "b",
        12 => "c",
        13 => "d",
        14 => "e",
        _ => "f",
    };
    assert(result@ =~= seq![digit_char(value as int)]);
    result
}

/// A number written out in a base.
fn write_digits(number: u64, base: u64) -> (result: String)
    requires
        2 <= base <= 16,
    ensures
        result@ == digits(number as nat, base as nat),
{
    let mut rest: u64 = number;
    let mut text: String = String::new();
    while rest >= base
        invariant
            2 <= base <= 16,
            digits(number as nat, base as nat) =~= digits(rest as nat, base as nat) + text@,
        decreases rest,
    {
        proof {
            lemma_quotient_smaller(rest as nat, base as nat);
        }
        text = digit_text(rest % base).to_string().concat(text.as_str());
        rest = rest / base;
    }
    digit_text(rest).to_string().concat(text.as_str())
}

/// A number in decimal.
pub fn decimal(number: u64) -> (result: String)
    ensures
        result@ == digits(number as nat, 10),
{
    write_digits(number, 10)
}

/// A number in hexadecimal, in lower case.
pub fn hexadecimal(number: u64) -> (result: String)
    ensures
        result@ == digits(number as nat, 16),
{
    write_digits(number, 16)
}

/// The text behind a plus sign, if it begins with one, else the text itself.
pub open spec fn without_plus(text: Seq<char>) -> Seq<char> {
    if text.len() > 0 && text[0] == '+' {
        text.drop_first()
    } else {
        text
    }
}

/// Whether text is one decimal digit or more and nothing else.
pub open spec fn is_decimal(text: Seq<char>) -> bool {
    text.len() > 0 && forall|k: int| 0 <= k < text.len() ==> '0' <= #[trigger] text[k] <= '9'
}

/// The number that text stands for, if it is an optional plus sign and decimal digits, and the
/// number fits.
pub open spec fn parsed(text: Seq<char>) -> Option<usize> {
    let decimals = without_plus(text);
    if is_decimal(decimals) && number_of(decimals, 10) <= usize::MAX {
        Some(number_of(decimals, 10) as usize)
    } else {
        None
    }
}

/// Reads an unsigned decimal number: an optional plus sign and digits.
pub fn parse_usize(text: &str) -> (result: Option<usize>)
    ensures
        result == parsed(text@),
{
    let len: usize = text.unicode_len();
    let skip: usize = if len > 0 && text.get_char(0) == '+' {
        1
    } else {
        0
    };
    if skip == len {
        return None;
    }
    let ghost decimals = without_plus(text@);
    let mut number: usize = 0;
    let mut overflow = false;
    let mut k: usize = skip;
    assert(decimals.take(0) =~= Seq::empty());
    while k < len
        invariant
            len == text@.len(),
            skip <= 1,
            skip <= k <= len,
            decimals == without_plus(text@),
            decimals.len() == len - skip,
            forall|j: int| 0 <= j < decimals.len() ==> decimals[j] == text@[j + skip],
            forall|j: int| 0 <= j < k - skip ==> '0' <= #[trigger] decimals[j] <= '9',
            !overflow ==> number == number_of(decimals.take(k - skip), 10),
            overflow ==> number_of(decimals.take(k - skip), 10) > usize::MAX,
        decreases len - k,
    {
        let c = text.get_char(k);
        assert(decimals[k - skip] == c);
        if !('0' <= c && c <= '9') {
            return None;
        }
        let digit: usize = (c as u32 - '0' as u32) as usize;
        proof {
            assert(decimals.take(k - skip + 1).drop_last() =~= decimals.take(k - skip));
            assert(decimals.take(k - skip + 1).last() == c);
        }
        match number.checked_mul(10) {
            Some(tens) => match tens.checked_add(digit) {
                Some(sum) => {
                    number = sum;
                },
                None => {
                    overflow = true;
                },
            },
            None => {
                overflow = true;
            },
        }
        k = k + 1;
    }
    assert(decimals.take(k - skip) =~= decimals);
    if overflow {
        None
    } else {
        Some(number)
    }
}

/// A pattern occurs in text exactly if the text is something, the pattern and something more.
pub proof fn law_occurring_text_splits(pattern: Seq<char>, text: Seq<char>)
    ensures
        occurs_in(pattern, text) <==> exists|before: Seq<char>, behind: Seq<char>|
            text == #[trigger] (before + pattern + behind),
{
    if occurs_in(pattern, text) {
        let at = choose|at: int| occurs_at(pattern, text, at);
        let before = text.take(at);
        let behind = text.skip(at + pattern.len());
        assert(text.subrange(at, at + pattern.len()) == pattern);
        assert forall|k: int| 0 <= k < text.len() implies text[k] == (before + pattern
            + behind)[k] by {
            if at <= k < at + pattern.len() {
                assert(text.subrange(at, at + pattern.len())[k - at] == text[k]);
            }
        }
        assert(text =~= before + pattern + behind);
    }
    if exists|before: Seq<char>, behind: Seq<char>| text == #[trigger] (before + pattern + behind) {
        let (before, behind) = choose|before: Seq<char>, behind: Seq<char>|
            text == #[trigger] (before + pattern + behind);
        let at = before.len() as int;
        assert(text.subrange(at, at + pattern.len()) =~= pattern);
        assert(occurs_at(pattern, text, at));
    }
}

/// Reading digits from the first to the last, each one makes the number as many times larger as the
/// base says, and adds its own value: that of a decimal digit counts from `0`, that of a letter goes
/// on from ten.
pub proof fn law_digits_count(text: Seq<char>, digit: char, base: int)
    ensures
        number_of(Seq::<char>::empty(), base) == 0,
        '0' <= digit <= '9' ==> number_of(text.push(digit), base) == number_of(text, base) * base
            + (digit as int - 48),
        'a' <= digit <= 'f' ==> number_of(text.push(digit), base) == number_of(text, base) * base
            + (digit as int - 87),
{
    assert(text.push(digit).drop_last() =~= text);
}

/// Whether text is a number written out in a base: digits of the base, in lower case, and no zero
/// before other digits.
pub open spec fn is_written_out(text: Seq<char>, base: int) -> bool {
    &&& text.len() > 0
    &&& forall|k: int|
        0 <= k < text.len() ==> {
            ||| '0' <= #[trigger] text[k] <= '9' && text[k] as int - 48 < base
            ||| 'a' <= text[k] <= 'z' && text[k] as int - 87 < base
        }
    &&& text.len() > 1 ==> text[0] != '0'
}

/// A number that is written out has digits of its base and no leading zeros.
pub proof fn law_numbers_are_written_out(number: nat, base: nat)
    requires
        2 <= base <= 16,
    ensures
        is_written_out(digits(number, base), base as int),
        digits(number, base)[0] == '0' ==> number == 0,
    decreases number,
{
    if number >= base {
        lemma_quotient_smaller(number, base);
        law_numbers_are_written_out(number / base, base);
        assert(number / base >= 1) by (nonlinear_arith)
            requires
                number >= base,
                base >= 2,
        ;
        assert(number % base < base) by (nonlinear_arith)
            requires
                base >= 2,
        ;
        let rest = digits(number / base, base);
        let text = digits(number, base);
        assert(text == rest.push(digit_char((number % base) as int)));
        assert forall|k: int| 0 <= k < text.len() implies {
            ||| '0' <= #[trigger] text[k] <= '9' && text[k] as int - 48 < base
            ||| 'a' <= text[k] <= 'z' && text[k] as int - 87 < base
        } by {
            if k < rest.len() {
                assert(text[k] == rest[k]);
            }
        }
        assert(text[0] == rest[0]);
    }
}

/// Text without a plus sign before it reads as a number exactly if it is one decimal digit or more,
/// and the number fits; it then reads as the number that the digits stand for, and so does the same
/// text with one plus sign before it.
pub proof fn law_what_reads_as_number(text: Seq<char>)
    ensures
        ({
            let all_digits = text.len() > 0 && forall|k: int|
                0 <= k < text.len() ==> 48 <= #[trigger] text[k] as int <= 57;
            let signed = seq!['+'] + text;
            &&& parsed(signed) is Some <==> all_digits && number_of(text, 10) <= usize::MAX
            &&& (parsed(signed) matches Some(number) ==> number == number_of(text, 10))
            &&& text.len() == 0 || text[0] != '+' ==> parsed(text) == parsed(signed)
        }),
{
    let signed = seq!['+'] + text;
    assert(without_plus(signed) =~= text);
    assert(without_plus(seq!['+'] + text) == text);
    if is_decimal(text) {
        lemma_decimal_not_negative(text);
    }
}

proof fn lemma_decimal_not_negative(text: Seq<char>)
    requires
        forall|k: int| 0 <= k < text.len() ==> '0' <= #[trigger] text[k] <= '9',
    ensures
        0 <= number_of(text, 10),
    decreases text.len(),
{
    if text.len() > 0 {
        lemma_decimal_not_negative(text.drop_last());
    }
}

} // verus!
