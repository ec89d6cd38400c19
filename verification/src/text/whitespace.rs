//! White space: words of a text, and text without it at its ends.
use vstd::prelude::*;

use crate::text::seq_lemmas::{lemma_take_all, lemma_take_step};

verus! {

/// Whether a character is white space, by Unicode's `White_Space` property.
pub open spec fn is_white_space(c: char) -> bool {
    let point = c as u32;
    ||| 0x9 <= point <= 0xd
    ||| point == 0x20
    ||| point == 0x85
    ||| point == 0xa0
    ||| point == 0x1680
    ||| 0x2000 <= point <= 0x200a
    ||| point == 0x2028
    ||| point == 0x2029
    ||| point == 0x202f
    ||| point == 0x205f
    ||| point == 0x3000
}

/// `std`'s `char::is_whitespace`: whether a character has Unicode's
/// `White_Space` property, which is listed here.
pub assume_specification[ char::is_whitespace ](c: char) -> (yes: bool)
    ensures
        yes == is_white_space(c),
;

/// The words of a text: its longest runs without white space, in order.
pub open spec fn words(text: Seq<char>) -> Seq<Seq<char>>
    decreases text.len(),
{
    if text.len() == 0 {
        Seq::empty()
    } else {
        let before = words(text.drop_last());
        let c = text.last();
        if is_white_space(c) {
            before
        } else if text.len() > 1 && !is_white_space(text[text.len() - 2]) {
            before.drop_last().push(before.last().push(c))
        } else {
            before.push(seq![c])
        }
    }
}

/// Words with one space between each two.
pub open spec fn spaced(words: Seq<Seq<char>>) -> Seq<char>
    decreases words.len(),
{
    if words.len() == 0 {
        Seq::empty()
    } else if words.len() == 1 {
        words[0]
    } else {
        spaced(words.drop_last()).push(' ') + words.last()
    }
}

pub(crate) proof fn lemma_words_not_empty(text: Seq<char>)
    ensures
        forall|i: int| 0 <= i < words(text).len() ==> (#[trigger] words(text)[i]).len() > 0,
        text.len() > 0 && !is_white_space(text.last()) ==> words(text).len() > 0,
    decreases text.len(),
{
    if text.len() > 0 {
        let before = words(text.drop_last());
        lemma_words_not_empty(text.drop_last());
        assert forall|i: int| 0 <= i < words(text).len() implies (#[trigger] words(text)[i]).len()
            > 0 by {
            if i < before.len() {
                assert(before[i].len() > 0);
            }
        }
    }
}

proof fn lemma_spaced_not_empty(words: Seq<Seq<char>>)
    requires
        forall|i: int| 0 <= i < words.len() ==> (#[trigger] words[i]).len() > 0,
    ensures
        spaced(words).len() == 0 <==> words.len() == 0,
{
    if words.len() > 0 {
        assert(words[0].len() > 0);
    }
}

/// The words of a text on one line, with one space between each two.
pub fn collapse_whitespace(text: &str) -> (line: String)
    ensures
        line@ == spaced(words(text@)),
        line@.len() == 0 <==> words(text@).len() == 0,
{
    let mut line = String::new();
    let mut in_word = false;
    for c in it: text.chars()
        invariant
            it.seq() == text@,
            line@ == spaced(words(text@.take(it.index() as int))),
            in_word == (it.index() > 0 && !is_white_space(text@[it.index() - 1])),
    {
        let ghost i = it.index() as int;
        let ghost seen = text@.take(i);
        let ghost before = words(seen);
        proof {
            lemma_take_step(text@, i);
            lemma_words_not_empty(seen);
            lemma_spaced_not_empty(before);
            if i > 0 {
                assert(text@.take(i + 1)[i - 1] == text@[i - 1]);
                assert(seen.last() == text@[i - 1]);
            }
        }
        if c.is_whitespace() {
            in_word = false;
        } else if in_word {
            let ghost shorter = line@;
            line.push(c);
            in_word = true;
            proof {
                let extended = before.drop_last().push(before.last().push(c));
                assert(before.len() > 0);
                assert(extended.drop_last() =~= before.drop_last());
                assert(spaced(extended) =~= shorter.push(c));
            }
        } else {
            let ghost shorter = line@;
            if line.as_str().unicode_len() > 0 {
                line.push(' ');
            }
            line.push(c);
            in_word = true;
            proof {
                let extended = before.push(seq![c]);
                assert(extended.drop_last() =~= before);
                if before.len() == 0 {
                    assert(shorter =~= Seq::empty());
                    assert(line@ =~= seq![c]);
                } else {
                    assert(spaced(extended) =~= shorter.push(' ').push(c));
                }
            }
        }
    }
    proof {
        lemma_take_all(text@);
        lemma_words_not_empty(text@);
        lemma_spaced_not_empty(words(text@));
    }
    line
}

/// A text without the white space at its start.
pub open spec fn trimmed_start(text: Seq<char>) -> Seq<char>
    decreases text.len(),
{
    if text.len() > 0 && is_white_space(text[0]) {
        trimmed_start(text.drop_first())
    } else {
        text
    }
}

/// A text without the white space at its start and its end.
pub open spec fn trimmed(text: Seq<char>) -> Seq<char>
    decreases text.len(),
{
    if text.len() > 0 && is_white_space(text.last()) {
        trimmed(text.drop_last())
    } else {
        trimmed_start(text)
    }
}

proof fn lemma_words_hold_no_space(text: Seq<char>)
    ensures
        forall|i: int, j: int|
            0 <= i < words(text).len() && 0 <= j < words(text)[i].len() ==> !is_white_space(
                #[trigger] words(text)[i][j],
            ),
    decreases text.len(),
{
    if text.len() > 0 {
        lemma_words_hold_no_space(text.drop_last());
        lemma_words_not_empty(text.drop_last());
        let before = words(text.drop_last());
        assert forall|i: int, j: int|
            0 <= i < words(text).len() && 0 <= j < words(text)[i].len() implies !is_white_space(
            #[trigger] words(text)[i][j],
        ) by {
            if i < before.len() && j < before[i].len() {
                assert(words(text)[i][j] == before[i][j]);
            }
        }
    }
}

proof fn lemma_spaced_single_line(words: Seq<Seq<char>>)
    requires
        forall|i: int, j: int|
            0 <= i < words.len() && 0 <= j < words[i].len() ==> !is_white_space(
                #[trigger] words[i][j],
            ),
    ensures
        forall|k: int|
            0 <= k < spaced(words).len() ==> (#[trigger] spaced(words)[k]) == ' '
                || !is_white_space(spaced(words)[k]),
    decreases words.len(),
{
    if words.len() > 1 {
        let front = words.drop_last();
        assert forall|i: int, j: int|
            0 <= i < front.len() && 0 <= j < front[i].len() implies !is_white_space(
            #[trigger] front[i][j],
        ) by {
            assert(words[i][j] == front[i][j]);
        }
        lemma_spaced_single_line(front);
        let head = spaced(front).push(' ');
        assert forall|k: int| 0 <= k < spaced(words).len() implies (#[trigger] spaced(words)[k])
            == ' ' || !is_white_space(spaced(words)[k]) by {
            if k < spaced(front).len() {
                assert(spaced(words)[k] == spaced(front)[k]);
            } else if k >= head.len() {
                assert(spaced(words)[k] == words[words.len() - 1][k - head.len()]);
            }
        }
    } else if words.len() == 1 {
        assert forall|k: int| 0 <= k < spaced(words).len() implies (#[trigger] spaced(words)[k])
            == ' ' || !is_white_space(spaced(words)[k]) by {
            assert(spaced(words)[k] == words[0][k]);
        }
    }
}

/// The words of any text on one line hold no white space but the spaces
/// between them.
pub proof fn law_words_on_one_line(text: Seq<char>)
    ensures
        forall|k: int|
            0 <= k < spaced(words(text)).len() ==> (#[trigger] spaced(words(text))[k]) == ' '
                || !is_white_space(spaced(words(text))[k]),
{
    lemma_words_hold_no_space(text);
    lemma_spaced_single_line(words(text));
}

} // verus!
