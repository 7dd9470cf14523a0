//! English ordinal numerals: "1st", "2nd", "3rd", "4th", ...

use crate::decimal::{decimal_digits, lemma_decimal_digits_end, push_digits};
use vstd::prelude::*;

verus! {

/// Whether `text` ends with `tail`.
pub open spec fn ends_with(text: Seq<char>, tail: Seq<char>) -> bool {
    tail.len() <= text.len() && text.subrange(text.len() - tail.len(), text.len() as int) == tail
}

/// The suffix that turns a decimal numeral into an ordinal. It is read off the
/// numeral itself: "st" after a final 1, "nd" after a final 2 and "rd" after a
/// final 3, unless the numeral ends in 11, 12 or 13; "th" in every other case.
pub open spec fn ordinal_suffix(numeral: Seq<char>) -> Seq<char> {
    if ends_with(numeral, seq!['1']) && !ends_with(numeral, seq!['1', '1']) {
        "st"@
    } else if ends_with(numeral, seq!['2']) && !ends_with(numeral, seq!['1', '2']) {
        "nd"@
    } else if ends_with(numeral, seq!['3']) && !ends_with(numeral, seq!['1', '3']) {
        "rd"@
    } else {
        "th"@
    }
}

/// The ordinal numeral of `n`: its decimal numeral followed by its suffix.
pub open spec fn ordinal(n: nat) -> Seq<char> {
    decimal_digits(n) + ordinal_suffix(decimal_digits(n))
}

/// The suffix of a numeral by its number: "st", "nd" and "rd" go with the
/// units 1, 2 and 3, except where the last two digits are 11, 12 or 13.
pub open spec fn ordinal_suffix_of_number(n: nat) -> Seq<char> {
    if n % 10 == 1 && n % 100 != 11 {
        "st"@
    } else if n % 10 == 2 && n % 100 != 12 {
        "nd"@
    } else if n % 10 == 3 && n % 100 != 13 {
        "rd"@
    } else {
        "th"@
    }
}

/// Reading the suffix off the numeral agrees with choosing it by the number's
/// last two digits, for numbers of every size.
pub proof fn lemma_ordinal_suffix_by_number(n: nat)
    ensures
        ordinal_suffix(decimal_digits(n)) == ordinal_suffix_of_number(n),
{
    let numeral = decimal_digits(n);
    let len = numeral.len() as int;
    lemma_decimal_digits_end(n);
    assert forall|c: char| #![auto] ends_with(numeral, seq![c]) <==> numeral.last() == c by {
        lemma_ends_with_one(numeral, c);
    }
    assert forall|c: char, d: char| #![auto]
        ends_with(numeral, seq![c, d]) <==> (len >= 2 && numeral[len - 2] == c && numeral.last()
            == d) by {
        lemma_ends_with_two(numeral, c, d);
    }
    assert(n % 100 == 10 * ((n / 10) % 10) + n % 10);
}

/// A text ends with a character where that character is its last.
proof fn lemma_ends_with_one(text: Seq<char>, last: char)
    ensures
        ends_with(text, seq![last]) <==> text.len() >= 1 && text.last() == last,
{
    let len = text.len() as int;
    if len >= 1 {
        let tail = text.subrange(len - 1, len);
        assert(tail[0] == text.last());
        if text.last() == last {
            assert(tail =~= seq![last]);
        } else {
            assert(seq![last][0] == last);
        }
    }
}

/// A text ends with two characters where they are its last two, in order.
proof fn lemma_ends_with_two(text: Seq<char>, before: char, last: char)
    ensures
        ends_with(text, seq![before, last]) <==> text.len() >= 2 && text[text.len() - 2] == before
            && text.last() == last,
{
    let len = text.len() as int;
    if len >= 2 {
        let tail = text.subrange(len - 2, len);
        assert(tail[0] == text[len - 2]);
        assert(tail[1] == text.last());
        if text[len - 2] == before && text.last() == last {
            assert(tail =~= seq![before, last]);
        } else {
            assert(seq![before, last][0] == before);
            assert(seq![before, last][1] == last);
        }
    }
}

/// Whether `text` ends with the character `last`, and not with `before`
/// followed by `last`.
fn ends_with_plain(text: &str, before: char, last: char) -> (plain: bool)
    ensures
        plain == (ends_with(text@, seq![last]) && !ends_with(text@, seq![before, last])),
{
    proof {
        lemma_ends_with_one(text@, last);
        lemma_ends_with_two(text@, before, last);
    }
    let len = text.unicode_len();
    if len == 0 || text.get_char(len - 1) != last {
        false
    } else {
        len < 2 || text.get_char(len - 2) != before
    }
}

/// Renders `num` as an English ordinal numeral: "1st", "2nd", "3rd", "4th",
/// "11th", "21st", "112th", ...
pub fn ordinalize(num: usize) -> (text: String)
    ensures
        text@ == ordinal(num as nat),
{
    let mut text = String::new();
    push_digits(&mut text, num as u64);
    let suffix = if ends_with_plain(text.as_str(), '1', '1') {
        "st"
    } else if ends_with_plain(text.as_str(), '1', '2') {
        "nd"
    } else if ends_with_plain(text.as_str(), '1', '3') {
        "rd"
    } else {
        "th"
    };
    text.append(suffix);
    text
}

} // verus!
