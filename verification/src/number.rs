//! Reading numbers and ids from the words of a command line.

use vstd::prelude::*;
use vstd::string::*;

verus! {

/// Whether a character is one of the ten decimal digits.
pub open spec fn is_digit(c: char) -> bool {
    '0' <= c <= '9'
}

/// The number that a sequence of decimal digits stands for.
pub open spec fn digits_value(digits: Seq<char>) -> nat
    decreases digits.len(),
{
    if digits.len() == 0 {
        0
    } else {
        digits_value(digits.drop_last()) * 10 + (digits.last() as nat - 48) as nat
    }
}

/// A text without the plus sign that may lead it.
pub open spec fn unsigned_part(text: Seq<char>) -> Seq<char> {
    if text.len() > 0 && text[0] == '+' {
        text.drop_first()
    } else {
        text
    }
}

/// The number that a text stands for: one or more decimal digits, with or
/// without a plus sign before them, whose value fits the machine. Any other
/// text stands for none.
pub open spec fn number_of(text: Seq<char>) -> Option<nat> {
    let digits = unsigned_part(text);
    if digits.len() > 0 && (forall|i: int| 0 <= i < digits.len() ==> is_digit(#[trigger] digits[i]))
        && digits_value(digits) <= usize::MAX {
        Some(digits_value(digits))
    } else {
        None
    }
}

/// More digits make a number no smaller.
proof fn lemma_digits_value_grows(digits: Seq<char>, k: int)
    requires
        0 <= k <= digits.len(),
        forall|i: int| 0 <= i < digits.len() ==> is_digit(#[trigger] digits[i]),
    ensures
        digits_value(digits.take(k)) <= digits_value(digits),
    decreases digits.len() - k,
{
    if k == digits.len() {
        assert(digits.take(k) =~= digits);
    } else {
        lemma_digits_value_grows(digits, k + 1);
        assert(digits.take(k + 1).drop_last() =~= digits.take(k));
        assert(is_digit(digits[k]));
        assert(digits.take(k + 1).last() == digits[k]);
    }
}

/// Reads a number as [`number_of`] describes.
pub fn parse_number(text: &str) -> (number: Option<usize>)
    ensures
        match number {
            Some(n) => number_of(text@) == Some(n as nat),
            None => number_of(text@) is None,
        },
{
    broadcast use group_string_axioms;

    let len = text.unicode_len();
    let digits: &str = if len > 0 && text.get_char(0) == '+' {
        text.substring_char(1, len)
    } else {
        text
    };
    assert(digits@ =~= unsigned_part(text@));
    let ghost all = digits@;
    let mut value: usize = 0;
    let mut seen: bool = false;
    assert(all.take(0) =~= Seq::<char>::empty());
    for c in it: digits.chars()
        invariant
            all == it.seq(),
            all == unsigned_part(text@),
            seen == (it.index() > 0),
            forall|i: int| 0 <= i < it.index() ==> is_digit(#[trigger] all[i]),
            value == digits_value(all.take(it.index() as int)),
    {
        proof {
            let i = it.index() as int;
            assert(all.take(i + 1).drop_last() =~= all.take(i));
            assert(all.take(i + 1).last() == c);
            assert(all[i] == c);
        }
        if c < '0' || c > '9' {
            return None;
        }
        let d: usize = (c as u8 - 48) as usize;
        if value > (usize::MAX - d) / 10 {
            proof {
                let i = it.index() as int;
                if forall|j: int| 0 <= j < all.len() ==> is_digit(#[trigger] all[j]) {
                    lemma_digits_value_grows(all, i + 1);
                }
            }
            return None;
        }
        value = value * 10 + d;
        seen = true;
    }
    proof {
        assert(all.take(all.len() as int) =~= all);
    }
    if seen {
        Some(value)
    } else {
        None
    }
}

/// `at` is the place of the first full stop in `text`.
pub open spec fn is_first_dot(text: Seq<char>, at: int) -> bool {
    &&& 0 <= at < text.len()
    &&& text[at] == '.'
    &&& forall|i: int| 0 <= i < at ==> text[i] != '.'
}

/// The place of the first full stop in a text, if it has one.
pub open spec fn first_dot(text: Seq<char>) -> Option<int> {
    if exists|at: int| is_first_dot(text, at) {
        Some(choose|at: int| is_first_dot(text, at))
    } else {
        None
    }
}

/// Finds the first full stop.
pub fn find_dot(text: &str) -> (found: Option<usize>)
    ensures
        match found {
            Some(at) => first_dot(text@) == Some(at as int),
            None => first_dot(text@) is None,
        },
{
    broadcast use group_string_axioms;

    let len = text.unicode_len();
    let ghost all = text@;
    let mut at: usize = 0;
    for c in it: text.chars()
        invariant
            all == it.seq(),
            all == text@,
            all.len() == len,
            at == it.index(),
            forall|i: int| 0 <= i < it.index() ==> all[i] != '.',
    {
        if c == '.' {
            assert(is_first_dot(all, at as int));
            return Some(at);
        }
        at += 1;
    }
    None
}

} // verus!
