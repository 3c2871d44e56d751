//! Numbers in source text and in messages.

use crate::syntax::lexer::is_digit;
use vstd::prelude::*;
use vstd::string::StringExecFns;

verus! {

/// One decimal digit.
pub open spec fn digit_text(d: int) -> Seq<char> {
    if d == 0 {
        "0"@
    } else if d == 1 {
        "1"@
    } else if d == 2 {
        "2"@
    } else if d == 3 {
        "3"@
    } else if d == 4 {
        "4"@
    } else if d == 5 {
        "5"@
    } else if d == 6 {
        "6"@
    } else if d == 7 {
        "7"@
    } else if d == 8 {
        "8"@
    } else {
        "9"@
    }
}

/// A number in decimal notation.
pub open spec fn decimal(n: nat) -> Seq<char>
    decreases n,
{
    if n < 10 {
        digit_text(n as int)
    } else {
        decimal(n / 10) + digit_text((n % 10) as int)
    }
}

fn digit_str(d: u64) -> (r: &'static str)
    requires
        d < 10,
    ensures
        r@ == digit_text(d as int),
{
    if d == 0 {
        "0"
    } else if d == 1 {
        "1"
    } else if d == 2 {
        "2"
    } else if d == 3 {
        "3"
    } else if d == 4 {
        "4"
    } else if d == 5 {
        "5"
    } else if d == 6 {
        "6"
    } else if d == 7 {
        "7"
    } else if d == 8 {
        "8"
    } else {
        "9"
    }
}

/// Write a number in decimal notation.
pub fn decimal_string(n: u64) -> (r: String)
    ensures
        r@ == decimal(n as nat),
    decreases n,
{
    if n < 10 {
        digit_str(n).to_owned()
    } else {
        let mut text = decimal_string(n / 10);
        text.append(digit_str(n % 10));
        text
    }
}

/// Put texts one behind the other.
pub fn joined(a: &str, b: &str) -> (r: String)
    ensures
        r@ == a@ + b@,
{
    let mut text = a.to_owned();
    text.append(b);
    text
}

/// The digits among some bytes as text.
pub open spec fn digits_text(digits: Seq<u8>) -> Seq<char>
    decreases digits.len(),
{
    if digits.len() == 0 {
        ""@
    } else if is_digit(digits.last()) {
        digits_text(digits.drop_last()) + digit_text(digits.last() - 48)
    } else {
        digits_text(digits.drop_last())
    }
}

pub fn digits_string(digits: &Vec<u8>) -> (r: String)
    ensures
        r@ == digits_text(digits@),
{
    let mut text = "".to_owned();
    assert(digits@.take(0).len() == 0);
    for i in 0..digits.len()
        invariant
            text@ == digits_text(digits@.take(i as int)),
    {
        let ghost sofar = digits@.take(i as int + 1);
        assert(sofar.drop_last() =~= digits@.take(i as int));
        if 48 <= digits[i] && digits[i] <= 57 {
            text.append(digit_str((digits[i] - 48) as u64));
        }
    }
    assert(digits@.take(digits@.len() as int) =~= digits@);
    text
}

/// The bytes without the separators that may stand between digits.
pub open spec fn without_separators(text: Seq<u8>) -> Seq<u8>
    decreases text.len(),
{
    if text.len() == 0 {
        Seq::empty()
    } else if text.last() == 95 {
        without_separators(text.drop_last())
    } else {
        without_separators(text.drop_last()).push(text.last())
    }
}

pub fn strip_separators(bytes: &[u8], start: usize, end: usize) -> (r: Vec<u8>)
    requires
        start <= end <= bytes@.len(),
    ensures
        r@ == without_separators(bytes@.subrange(start as int, end as int)),
{
    let mut out: Vec<u8> = Vec::new();
    assert(bytes@.subrange(start as int, start as int).len() == 0);
    for i in start..end
        invariant
            start <= end <= bytes@.len(),
            out@ == without_separators(bytes@.subrange(start as int, i as int)),
    {
        let ghost sofar = bytes@.subrange(start as int, i as int + 1);
        assert(sofar.drop_last() =~= bytes@.subrange(start as int, i as int));
        if bytes[i] != 95 {
            out.push(bytes[i]);
        }
    }
    out
}

/// Whether the bytes are digits, and there is at least one.
pub open spec fn all_digits(text: Seq<u8>) -> bool {
    text.len() > 0 && forall|i: int| 0 <= i < text.len() ==> is_digit(#[trigger] text[i])
}

/// The number that some digits denote.
pub open spec fn digits_value(text: Seq<u8>) -> int
    decreases text.len(),
{
    if text.len() == 0 {
        0
    } else {
        digits_value(text.drop_last()) * 10 + (text.last() - 48)
    }
}

/// The number that the bytes denote, where they are digits and it is at most
/// `max`.
pub open spec fn bounded_number(text: Seq<u8>, max: int) -> Option<int> {
    if all_digits(text) && digits_value(text) <= max {
        Some(digits_value(text))
    } else {
        None
    }
}

pub(crate) proof fn lemma_digits_prefix(text: Seq<u8>, n: int)
    requires
        all_digits(text),
        0 <= n <= text.len(),
    ensures
        0 <= digits_value(text.take(n)) <= digits_value(text),
    decreases text.len() - n + text.len(),
{
    if n == text.len() {
        assert(text.take(n) =~= text);
        if n > 0 {
            let front = text.drop_last();
            if n > 1 {
                assert forall|i: int| 0 <= i < front.len() implies is_digit(#[trigger] front[i]) by {
                    assert(front[i] == text[i]);
                }
                lemma_digits_prefix(front, front.len() as int);
                assert(front.take(front.len() as int) =~= front);
            }
            assert(is_digit(text[n - 1]));
        }
    } else {
        lemma_digits_prefix(text, n + 1);
        assert(text.take(n + 1).drop_last() =~= text.take(n));
        assert(is_digit(text[n]));
        if n > 0 {
            let front = text.take(n);
            assert forall|i: int| 0 <= i < front.len() implies is_digit(#[trigger] front[i]) by {
                assert(front[i] == text[i]);
            }
            lemma_digits_prefix(front, n);
            assert(front.take(n) =~= front);
        } else {
            assert(text.take(0).len() == 0);
        }
    }
}

/// Read a number of at most `max`.
pub fn parse_bounded(text: &Vec<u8>, start: usize, end: usize, max: u128) -> (r: Option<u128>)
    requires
        start <= end <= text@.len(),
        max <= i128::MAX,
    ensures
        match r {
            Some(v) => bounded_number(text@.subrange(start as int, end as int), max as int) == Some(v as int),
            None => bounded_number(text@.subrange(start as int, end as int), max as int) is None,
        },
{
    let ghost all = text@.subrange(start as int, end as int);
    if start == end {
        return None;
    }
    for i in start..end
        invariant
            start <= end <= text@.len(),
            all == text@.subrange(start as int, end as int),
            forall|j: int| 0 <= j < i - start ==> is_digit(#[trigger] all[j]),
    {
        if text[i] < 48 || text[i] > 57 {
            assert(!is_digit(all[i - start]));
            return None;
        }
    }
    assert(all_digits(all));
    let mut value: u128 = 0;
    assert(all.take(0).len() == 0);
    for i in start..end
        invariant
            start <= end <= text@.len(),
            all == text@.subrange(start as int, end as int),
            all_digits(all),
            max <= i128::MAX,
            value <= max,
            value == digits_value(all.take(i - start)),
    {
        let ghost k = i - start;
        assert(all.take(k + 1).drop_last() =~= all.take(k));
        assert(is_digit(all[k]));
        proof {
            lemma_digits_prefix(all, k + 1);
        }
        let digit: u128 = (text[i] - 48) as u128;
        if digit > max || value > (max - digit) / 10 {
            assert(digits_value(all.take(k + 1)) > max);
            return None;
        }
        value = value * 10 + digit;
    }
    assert(all.take(all.len() as int) =~= all);
    Some(value)
}

} // verus!
