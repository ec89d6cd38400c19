//! Plain text: escaping, words, previews and numbers.
use vstd::prelude::*;

use crate::escape::{escaped, is_inert, law_escaped_concat};
use crate::html::forensic::shortened_guid;
use crate::reply::snippet;
use crate::text::decimal::{decimal, natural_digits};
use crate::text::whitespace::{
    is_white_space, lemma_words_not_empty, spaced, trimmed, trimmed_start, words,
};

verus! {

// Escaping.

/// Each of the characters that HTML treats specially is written as its own
/// entity, wherever it stands; any other character is left as it is.
pub proof fn law_each_character_is_escaped(before: Seq<char>, c: char, after: Seq<char>)
    ensures
        escaped(before + seq![c] + after) == escaped(before) + escaped(seq![c]) + escaped(after),
        escaped(seq!['&']) == "&amp;"@,
        escaped(seq!['<']) == "&lt;"@,
        escaped(seq!['>']) == "&gt;"@,
        escaped(seq!['"']) == "&quot;"@,
        escaped(seq!['\'']) == "&apos;"@,
        escaped(seq!['\u{a0}']) == "&nbsp;"@,
        is_inert(c) && c != '&' && c != '\u{a0}' ==> escaped(seq![c]) == seq![c],
{
    law_escaped_concat(before, seq![c]);
    law_escaped_concat(before + seq![c], after);
    lemma_escaped_single('&');
    lemma_escaped_single('<');
    lemma_escaped_single('>');
    lemma_escaped_single('"');
    lemma_escaped_single('\'');
    lemma_escaped_single('\u{a0}');
    lemma_escaped_single(c);
}

proof fn lemma_escaped_single(c: char)
    ensures
        escaped(seq![c]) == crate::escape::escaped_char(c),
{
    reveal_with_fuel(escaped, 2);
    assert(seq![c].drop_last() =~= Seq::<char>::empty());
    assert(escaped(seq![c]) =~= crate::escape::escaped_char(c));
}

// Words.

/// White space parts words: the words of two texts with white space between them
/// are the words of the first and then those of the second.
pub proof fn law_white_space_parts_words(a: Seq<char>, space: char, b: Seq<char>)
    requires
        is_white_space(space),
    ensures
        words(a + seq![space] + b) == words(a) + words(b),
    decreases b.len(),
{
    let whole = a + seq![space] + b;
    if b.len() == 0 {
        assert(whole =~= a.push(space));
        assert(whole.drop_last() =~= a);
        assert(words(a) + words(b) =~= words(a));
    } else {
        let front = b.drop_last();
        let c = b.last();
        law_white_space_parts_words(a, space, front);
        assert(whole.drop_last() =~= a + seq![space] + front);
        assert(whole.last() == c);
        if front.len() > 0 {
            assert(whole[whole.len() - 2] == front.last());
            assert(b[b.len() - 2] == front.last());
        } else {
            assert(whole[whole.len() - 2] == space);
        }
        if is_white_space(c) {
        } else if front.len() > 0 && !is_white_space(front.last()) {
            lemma_words_not_empty(front);
            let before = words(a) + words(front);
            assert(before.last() == words(front).last());
            assert(before.drop_last().push(before.last().push(c)) =~= words(a) + words(
                front,
            ).drop_last().push(words(front).last().push(c)));
        } else {
            assert((words(a) + words(front)).push(seq![c]) =~= words(a) + words(front).push(
                seq![c],
            ));
        }
    }
}

/// A text without white space is one word, and no text is no word.
pub proof fn law_word_without_white_space(text: Seq<char>)
    requires
        forall|i: int| 0 <= i < text.len() ==> !is_white_space(#[trigger] text[i]),
    ensures
        text.len() > 0 ==> words(text) == seq![text],
        text.len() == 0 ==> words(text) == Seq::<Seq<char>>::empty(),
    decreases text.len(),
{
    if text.len() > 0 {
        let front = text.drop_last();
        law_word_without_white_space(front);
        assert(!is_white_space(text[text.len() - 1]));
        if front.len() > 0 {
            assert(!is_white_space(text[text.len() - 2]));
            assert(words(text) =~= Seq::<Seq<char>>::empty().push(front.push(text.last())));
            assert(front.push(text.last()) =~= text);
        } else {
            assert(seq![text.last()] =~= text);
        }
        assert(words(text) =~= seq![text]);
    }
}

/// Words on one line keep their order, with one space between each two.
pub proof fn law_line_of_words(a: Seq<Seq<char>>, b: Seq<Seq<char>>)
    requires
        a.len() > 0,
        b.len() > 0,
    ensures
        spaced(a + b) == spaced(a).push(' ') + spaced(b),
        a.len() == 1 ==> spaced(a) == a[0],
    decreases b.len(),
{
    if b.len() == 1 {
        assert((a + b).drop_last() =~= a);
        assert((a + b).last() == b[0]);
    } else {
        assert((a + b).drop_last() =~= a + b.drop_last());
        law_line_of_words(a, b.drop_last());
        assert(spaced(a + b) =~= spaced(a).push(' ') + spaced(b));
    }
}

/// Trimming takes white space off both ends of a text and nothing else: what is
/// left neither starts nor ends with it.
pub proof fn law_trimming_takes_white_space_off(text: Seq<char>)
    ensures
        exists|from: int, to: int|
            #![trigger text.subrange(from, to)]
            {
                &&& 0 <= from <= to <= text.len()
                &&& trimmed(text) == text.subrange(from, to)
                &&& forall|i: int| 0 <= i < from ==> is_white_space(#[trigger] text[i])
                &&& forall|i: int| to <= i < text.len() ==> is_white_space(#[trigger] text[i])
            },
        trimmed(text).len() > 0 ==> !is_white_space(trimmed(text)[0]) && !is_white_space(
            trimmed(text).last(),
        ),
    decreases text.len(),
{
    if text.len() > 0 && is_white_space(text.last()) {
        let front = text.drop_last();
        law_trimming_takes_white_space_off(front);
        let (from, to) = choose|from: int, to: int|
            #![trigger front.subrange(from, to)]
            {
                &&& 0 <= from <= to <= front.len()
                &&& trimmed(front) == front.subrange(from, to)
                &&& forall|i: int| 0 <= i < from ==> is_white_space(#[trigger] front[i])
                &&& forall|i: int| to <= i < front.len() ==> is_white_space(#[trigger] front[i])
            };
        assert(text.subrange(from, to) =~= front.subrange(from, to));
        assert forall|i: int| 0 <= i < from implies is_white_space(#[trigger] text[i]) by {
            assert(front[i] == text[i]);
        }
        assert forall|i: int| to <= i < text.len() implies is_white_space(#[trigger] text[i]) by {
            if i < front.len() {
                assert(front[i] == text[i]);
            }
        }
    } else {
        lemma_trimmed_start(text);
        let from = choose|from: int|
            #![trigger text.skip(from)]
            {
                &&& 0 <= from <= text.len()
                &&& trimmed_start(text) == text.skip(from)
                &&& forall|i: int| 0 <= i < from ==> is_white_space(#[trigger] text[i])
                &&& from < text.len() ==> !is_white_space(text[from])
            };
        assert(text.subrange(from, text.len() as int) =~= text.skip(from));
        if from < text.len() {
            assert(trimmed(text)[0] == text[from]);
            assert(trimmed(text).last() == text.last());
        }
    }
}

proof fn lemma_trimmed_start(text: Seq<char>)
    ensures
        exists|from: int|
            #![trigger text.skip(from)]
            {
                &&& 0 <= from <= text.len()
                &&& trimmed_start(text) == text.skip(from)
                &&& forall|i: int| 0 <= i < from ==> is_white_space(#[trigger] text[i])
                &&& from < text.len() ==> !is_white_space(text[from])
            },
    decreases text.len(),
{
    if text.len() > 0 && is_white_space(text[0]) {
        let rest = text.drop_first();
        lemma_trimmed_start(rest);
        let from = choose|from: int|
            #![trigger rest.skip(from)]
            {
                &&& 0 <= from <= rest.len()
                &&& trimmed_start(rest) == rest.skip(from)
                &&& forall|i: int| 0 <= i < from ==> is_white_space(#[trigger] rest[i])
                &&& from < rest.len() ==> !is_white_space(rest[from])
            };
        assert(text.skip(from + 1) =~= rest.skip(from));
        assert forall|i: int| 0 <= i < from + 1 implies is_white_space(#[trigger] text[i]) by {
            if i > 0 {
                assert(rest[i - 1] == text[i]);
            }
        }
        if from < rest.len() {
            assert(rest[from] == text[from + 1]);
        }
    } else {
        assert(text.skip(0) =~= text);
    }
}

// Previews.

/// The preview of a message that is too long for one begins as the message's
/// words do on one line, character for character, and ends in an ellipsis where
/// it is cut; a shorter message is previewed whole. Attachments have no part in
/// it.
pub proof fn law_preview_begins_as_the_message(text: Seq<char>, num_attachments: i32)
    requires
        words(text).len() > 0,
    ensures
        ({
            let line = spaced(words(text));
            let preview = snippet(Some(text), num_attachments);
            &&& line.len() > 256 ==> {
                &&& preview.len() == 257
                &&& preview[256] == '…'
                &&& forall|i: int| 0 <= i < 256 ==> #[trigger] preview[i] == line[i]
            }
            &&& line.len() <= 256 ==> preview == line
        }),
{
}

/// A message without words is previewed by whether it has attachments, whatever
/// white space it holds.
pub proof fn law_preview_without_words(text: Option<Seq<char>>, num_attachments: i32)
    requires
        text is Some ==> words(text->0).len() == 0,
    ensures
        num_attachments > 0 ==> snippet(text, num_attachments) == "[attachment]"@,
        num_attachments <= 0 ==> snippet(text, num_attachments) == "[no preview]"@,
{
}

/// The eight characters that are shown of a longer identifier are its first
/// eight.
pub proof fn law_short_identifier_begins_as_the_whole(guid: Seq<char>)
    ensures
        guid.len() > 8 ==> shortened_guid(guid) == guid.take(8).push('…'),
        guid.len() <= 8 ==> shortened_guid(guid) == guid,
{
}

// Numbers.

/// The number that a decimal digit stands for.
pub open spec fn digit_value(c: char) -> int {
    c as int - '0' as int
}

/// The number that is read off decimal digits.
pub open spec fn digits_value(digits: Seq<char>) -> int
    decreases digits.len(),
{
    if digits.len() == 0 {
        0
    } else {
        10 * digits_value(digits.drop_last()) + digit_value(digits.last())
    }
}

/// The digits of a number are decimal digits, the first is no zero but for zero
/// itself, and the number is read off them.
pub proof fn law_digits_read_back(n: nat)
    ensures
        digits_value(natural_digits(n)) == n,
        natural_digits(n).len() > 0,
        n > 0 ==> natural_digits(n)[0] != '0',
        forall|i: int|
            0 <= i < natural_digits(n).len() ==> '0' <= #[trigger] natural_digits(n)[i] <= '9',
    decreases n,
{
    let digits = natural_digits(n);
    if n < 10 {
        assert(digits.drop_last() =~= Seq::<char>::empty());
        reveal_with_fuel(digits_value, 2);
    } else {
        law_digits_read_back(n / 10);
        assert(digits.drop_last() =~= natural_digits(n / 10));
        assert(n == 10 * (n / 10) + n % 10);
    }
}

/// A negative number is a minus and the digits of its magnitude; any other is its
/// digits alone.
pub proof fn law_decimal_of_a_number(n: int)
    ensures
        n >= 0 ==> digits_value(decimal(n)) == n,
        n < 0 ==> decimal(n).len() > 0 && decimal(n)[0] == '-' && digits_value(
            decimal(n).drop_first(),
        ) == -n,
{
    if n >= 0 {
        law_digits_read_back(n as nat);
    } else {
        law_digits_read_back((-n) as nat);
        assert(decimal(n).drop_first() =~= natural_digits((-n) as nat));
    }
}

} // verus!
