//! What is written and read as text: numbers, letters, phrases and prefixes.

use crate::text::{
    decimal, is_digit, lemma_decimal, lowered, number, occurs, occurs_at, read_u16, unsigned,
    without_slashes,
};
use crate::ws_clients::read_status;
use vstd::prelude::*;

verus! {

/// Digits stand for the number that they are written for: each digit more makes it ten times as
/// large, plus the digit.
pub proof fn digits_stand_for_their_number(front: Seq<char>, d: char)
    requires
        '0' <= d <= '9',
    ensures
        number(Seq::empty()) == 0,
        number(front.push(d)) == 10 * number(front) + (d as int - '0' as int),
{
    assert(front.push(d).drop_last() =~= front);
}

/// A number is written in decimal digits alone, which stand for it, and without a zero in front; so
/// no two numbers are written alike.
pub proof fn a_number_is_written_in_one_way(n: nat, m: nat)
    ensures
        decimal(n).len() > 0,
        forall|i: int| 0 <= i < decimal(n).len() ==> '0' <= #[trigger] decimal(n)[i] <= '9',
        number(decimal(n)) == n,
        decimal(n).len() > 1 ==> decimal(n)[0] != '0',
        decimal(n) == decimal(m) ==> n == m,
{
    lemma_decimal(n);
    lemma_decimal(m);
    lemma_no_zero_in_front(n);
    assert forall|i: int| 0 <= i < decimal(n).len() implies '0' <= #[trigger] decimal(n)[i]
        <= '9' by {
        assert(is_digit(decimal(n)[i]));
    }
}

proof fn lemma_no_zero_in_front(n: nat)
    ensures
        decimal(n).len() > 0,
        n > 0 ==> decimal(n)[0] != '0',
        n < 10 ==> decimal(n).len() == 1,
    decreases n,
{
    if n >= 10 {
        lemma_no_zero_in_front(n / 10);
    }
}

/// A text is read as a number exactly where it is decimal digits, after a plus sign or without one,
/// and the number does not exceed 65535; then it is read as the number that the digits stand for.
pub proof fn a_number_is_read_where_it_fits(text: Seq<char>, digits: Seq<char>)
    requires
        digits == text || text == seq!['+'] + digits,
        digits.len() > 0 ==> digits[0] != '+',
    ensures
        digits.len() == 0 ==> read_u16(text) is None,
        (exists|i: int| 0 <= i < digits.len() && !('0' <= #[trigger] digits[i] <= '9'))
            ==> read_u16(text) is None,
        digits.len() > 0 && (forall|i: int|
            0 <= i < digits.len() ==> '0' <= #[trigger] digits[i] <= '9') ==> match read_u16(text) {
            Some(value) => value == number(digits),
            None => number(digits) > 65535,
        },
{
    if text == seq!['+'] + digits {
        assert(text.drop_first() =~= digits);
    }
    assert(unsigned(text) == digits);
    if exists|i: int| 0 <= i < digits.len() && !('0' <= #[trigger] digits[i] <= '9') {
        let i = choose|i: int| 0 <= i < digits.len() && !('0' <= #[trigger] digits[i] <= '9');
        assert(!is_digit(digits[i]));
    }
}

/// Whatever number fits is read back from how it is written.
pub proof fn a_written_number_is_read_back(value: u16)
    ensures
        read_u16(decimal(value as nat)) == Some(value),
        read_status(decimal(value as nat)) == (if 100 <= value <= 999 {
            Some(value)
        } else {
            None
        }),
{
    let text = decimal(value as nat);
    lemma_decimal(value as nat);
    assert(is_digit(text[0]));
    a_number_is_read_where_it_fits(text, text);
    assert forall|i: int| 0 <= i < text.len() implies '0' <= #[trigger] text[i] <= '9' by {
        assert(is_digit(text[i]));
    }
}

/// A status is read exactly where a number from 100 to 999 is.
pub proof fn a_status_is_a_number_from_100_to_999(text: Seq<char>)
    ensures
        read_status(text) == (match read_u16(text) {
            Some(value) => if 100 <= value <= 999 {
                Some(value)
            } else {
                None
            },
            None => None,
        }),
{
}

/// Putting a text in lower case moves the letters from A to Z by 32 places and nothing else.
pub proof fn only_capital_letters_are_lowered(text: Seq<char>, i: int)
    requires
        0 <= i < text.len(),
    ensures
        lowered(text).len() == text.len(),
        lowered(text)[i] as int == text[i] as int + if 65 <= text[i] as int <= 90 {
            32int
        } else {
            0int
        },
{
}

/// A phrase occurs in a text exactly where, from some position on, the text reads as the phrase.
pub proof fn a_phrase_occurs_where_it_can_be_read(text: Seq<char>, phrase: Seq<char>)
    ensures
        occurs(text, phrase) <==> exists|front: Seq<char>, rest: Seq<char>|
            #![trigger front + phrase + rest]
            text == front + phrase + rest,
{
    if occurs(text, phrase) {
        let at = choose|at: int| #[trigger] occurs_at(text, phrase, at);
        let front = text.take(at);
        let rest = text.skip(at + phrase.len());
        assert(text =~= front + text.subrange(at, at + phrase.len()) + rest);
        assert(text == front + phrase + rest);
    }
    if exists|front: Seq<char>, rest: Seq<char>|
        #![trigger front + phrase + rest]
        text == front + phrase + rest {
        let (front, rest) = choose|front: Seq<char>, rest: Seq<char>|
            #![trigger front + phrase + rest]
            text == front + phrase + rest;
        let at = front.len() as int;
        assert(text.subrange(at, at + phrase.len()) =~= phrase);
        assert(occurs_at(text, phrase, at));
    }
}

/// Trimming takes the slashes in front of a text and behind it, all of them and nothing else.
pub proof fn trimming_takes_the_slashes_around(text: Seq<char>) -> (around: (
    Seq<char>,
    Seq<char>,
))
    ensures
        text == around.0 + without_slashes(text) + around.1,
        forall|i: int| 0 <= i < around.0.len() ==> #[trigger] around.0[i] == '/',
        forall|i: int| 0 <= i < around.1.len() ==> #[trigger] around.1[i] == '/',
        without_slashes(text).len() > 0 ==> without_slashes(text)[0] != '/' && without_slashes(
            text,
        ).last() != '/',
    decreases text.len(),
{
    if text.len() > 0 && text[0] == '/' {
        let (front, rest) = trimming_takes_the_slashes_around(text.drop_first());
        let more = seq!['/'] + front;
        assert(text =~= more + without_slashes(text) + rest) by {
            assert(text =~= seq!['/'] + text.drop_first());
        }
        (more, rest)
    } else if text.len() > 0 && text.last() == '/' {
        let (front, rest) = trimming_takes_the_slashes_around(text.drop_last());
        let more = rest.push('/');
        assert(text =~= front + without_slashes(text) + more) by {
            assert(text =~= text.drop_last().push('/'));
        }
        (front, more)
    } else {
        assert(text =~= Seq::<char>::empty() + without_slashes(text) + Seq::<char>::empty());
        (Seq::empty(), Seq::empty())
    }
}

} // verus!
