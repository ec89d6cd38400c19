//! Effects on ranges of text.
use vstd::prelude::*;

use crate::escape::escaped;
use crate::html::attributes::{
    active_ranges, attributes_markup, cut_before, effects_markup, insert_by_start, is_active,
    later, pieces_markup, ranges_markup,
};
use crate::html::text_effects::{effect_markup, style_markup, styles_markup};
use crate::laws::order::{in_order, lemma_enclosed_segment, lemma_nothing, lemma_segment};
use crate::text::slices::{byte_len, byte_slice};
use crate::text_effects::{Animation, Style, TextAttributes, TextEffect, Unit};

verus! {

// One effect.

/// Plain text is left as it is.
pub proof fn law_plain_text_is_kept(text: Seq<char>)
    ensures
        effect_markup(text, TextEffect::Default) == text,
{
}

/// A mention encloses its text, with the mentioned contact in the tooltip.
pub proof fn law_mention_encloses_its_text(text: Seq<char>, contact: String)
    ensures
        in_order(
            effect_markup(text, TextEffect::Mention(contact)),
            seq![
                "<span title=\""@ + escaped(contact@),
                "\"><b>"@ + text + "</b></span>"@,
            ],
        ),
{
    let title = escaped(contact@);
    let t0 = "<span title=\""@ + title;
    lemma_nothing(Seq::empty());
    lemma_segment(Seq::empty(), t0, Seq::empty());
    assert(Seq::<char>::empty() + t0 =~= t0);
    let s0 = Seq::<Seq<char>>::empty().push(t0);
    lemma_enclosed_segment(t0, "\"><b>"@, text, "</b></span>"@, s0);
    let t1 = t0 + "\"><b>"@ + text + "</b></span>"@;
    let s1 = s0.push("\"><b>"@ + text + "</b></span>"@);
    assert(s1 =~= seq!["<span title=\""@ + title, "\"><b>"@ + text + "</b></span>"@]);
}

/// A link encloses its text and leads to its address.
pub proof fn law_link_encloses_its_text(text: Seq<char>, url: String)
    ensures
        in_order(
            effect_markup(text, TextEffect::Link(url)),
            seq!["<a href=\""@ + escaped(url@), "\">"@ + text + "</a>"@],
        ),
{
    let address = escaped(url@);
    let t0 = "<a href=\""@ + address;
    lemma_nothing(Seq::empty());
    lemma_segment(Seq::empty(), t0, Seq::empty());
    assert(Seq::<char>::empty() + t0 =~= t0);
    let s0 = Seq::<Seq<char>>::empty().push(t0);
    lemma_enclosed_segment(t0, "\">"@, text, "</a>"@, s0);
    let t1 = t0 + "\">"@ + text + "</a>"@;
    let s1 = s0.push("\">"@ + text + "</a>"@);
    assert(s1 =~= seq!["<a href=\""@ + address, "\">"@ + text + "</a>"@]);
}

/// An animation encloses its text under the class of its name.
pub proof fn law_animation_encloses_its_text(
    text: Seq<char>,
    animation: Animation,
)
    ensures
        in_order(
            effect_markup(text, TextEffect::Animated(animation)),
            seq![
                "<span class=\"animation"@ + animation.label(),
                "\">"@ + text + "</span>"@,
            ],
        ),
{
    let name = animation.label();
    let t0 = "<span class=\"animation"@ + name;
    lemma_nothing(Seq::empty());
    lemma_segment(Seq::empty(), t0, Seq::empty());
    assert(Seq::<char>::empty() + t0 =~= t0);
    let s0 = Seq::<Seq<char>>::empty().push(t0);
    lemma_enclosed_segment(t0, "\">"@, text, "</span>"@, s0);
    let t1 = t0 + "\">"@ + text + "</span>"@;
    let s1 = s0.push("\">"@ + text + "</span>"@);
    assert(s1 =~= seq!["<span class=\"animation"@ + name, "\">"@ + text + "</span>"@]);
}

/// A one-time code and any convertible quantity are underlined alike.
pub proof fn law_codes_and_quantities_are_underlined(
    text: Seq<char>,
    unit: Unit,
)
    ensures
        effect_markup(text, TextEffect::OTP) == "<u>"@ + text + "</u>"@,
        effect_markup(text, TextEffect::Conversion(unit)) == effect_markup(text, TextEffect::OTP),
{
}

/// Styles are applied in their order, each round what came before it: those of
/// two lists together are the second round the first.
pub proof fn law_styles_go_outward(text: Seq<char>, inner: Seq<Style>, outer: Seq<Style>)
    ensures
        styles_markup(text, inner + outer) == styles_markup(styles_markup(text, inner), outer),
        styles_markup(text, Seq::empty()) == text,
    decreases outer.len(),
{
    if outer.len() == 0 {
        assert(inner + outer =~= inner);
    } else {
        assert((inner + outer).drop_last() =~= inner + outer.drop_last());
        assert((inner + outer).last() == outer.last());
        law_styles_go_outward(text, inner, outer.drop_last());
    }
}

/// Each style has its own element.
pub proof fn law_style_has_its_element(text: Seq<char>)
    ensures
        styles_markup(text, seq![Style::Bold]) == "<b>"@ + text + "</b>"@,
        styles_markup(text, seq![Style::Italic]) == "<i>"@ + text + "</i>"@,
        styles_markup(text, seq![Style::Strikethrough]) == "<s>"@ + text + "</s>"@,
        styles_markup(text, seq![Style::Underline]) == "<u>"@ + text + "</u>"@,
{
    lemma_one_style(text, Style::Bold);
    lemma_one_style(text, Style::Italic);
    lemma_one_style(text, Style::Strikethrough);
    lemma_one_style(text, Style::Underline);
}

proof fn lemma_one_style(text: Seq<char>, style: Style)
    ensures
        styles_markup(text, seq![style]) == style_markup(text, style),
{
    reveal_with_fuel(styles_markup, 2);
    assert(seq![style].drop_last() =~= Seq::<Style>::empty());
}

// Several effects.

/// Effects are applied in their order, each round what came before it.
pub proof fn law_effects_go_outward(
    markup: Seq<char>,
    inner: Seq<TextEffect>,
    outer: Seq<TextEffect>,
)
    ensures
        effects_markup(markup, inner + outer) == effects_markup(
            effects_markup(markup, inner),
            outer,
        ),
        effects_markup(markup, Seq::empty()) == markup,
    decreases outer.len(),
{
    if outer.len() == 0 {
        assert(inner + outer =~= inner);
    } else {
        assert((inner + outer).drop_last() =~= inner + outer.drop_last());
        assert((inner + outer).last() == outer.last());
        law_effects_go_outward(markup, inner, outer.drop_last());
    }
}

/// One effect is applied as it is.
pub proof fn law_one_effect(markup: Seq<char>, effect: TextEffect)
    ensures
        effects_markup(markup, seq![effect]) == effect_markup(markup, effect),
{
    reveal_with_fuel(effects_markup, 2);
    assert(seq![effect].drop_last() =~= Seq::<TextEffect>::empty());
}

/// The effects of ranges are applied range by range, each round what came before
/// it.
pub proof fn law_ranges_go_outward(
    markup: Seq<char>,
    attributes: Seq<TextAttributes>,
    inner: Seq<int>,
    outer: Seq<int>,
)
    ensures
        ranges_markup(markup, attributes, inner + outer) == ranges_markup(
            ranges_markup(markup, attributes, inner),
            attributes,
            outer,
        ),
    decreases outer.len(),
{
    if outer.len() == 0 {
        assert(inner + outer =~= inner);
    } else {
        assert((inner + outer).drop_last() =~= inner + outer.drop_last());
        assert((inner + outer).last() == outer.last());
        law_ranges_go_outward(markup, attributes, inner, outer.drop_last());
    }
}

// Two ranges.

/// The escaped text of a range of bytes, with the effects of `round` put round
/// it, the first innermost.
pub open spec fn rendered(text: Seq<char>, from: int, to: int, round: Seq<TextAttributes>) -> Seq<
    char,
>
    decreases round.len(),
{
    if round.len() == 0 {
        escaped(byte_slice(text, from, to))
    } else {
        effects_markup(rendered(text, from, to, round.drop_last()), round.last().effects@)
    }
}

proof fn lemma_two_cuts(a: TextAttributes, b: TextAttributes, limit: int)
    ensures
        cut_before(seq![a, b], limit) == later(
            later(
                later(
                    later(None, a.start as int, limit),
                    a.end as int,
                    limit,
                ),
                b.start as int,
                limit,
            ),
            b.end as int,
            limit,
        ),
{
    reveal_with_fuel(cut_before, 3);
    assert(seq![a, b].drop_last() =~= seq![a]);
    assert(seq![a].drop_last() =~= Seq::<TextAttributes>::empty());
}

proof fn lemma_two_active(a: TextAttributes, b: TextAttributes, at: int)
    ensures
        active_ranges(seq![a, b], 2, at) == (if is_active(a, at) && is_active(b, at) {
            if a.start <= b.start {
                seq![0int, 1int]
            } else {
                seq![1int, 0int]
            }
        } else if is_active(a, at) {
            seq![0int]
        } else if is_active(b, at) {
            seq![1int]
        } else {
            Seq::<int>::empty()
        }),
{
    reveal_with_fuel(active_ranges, 3);
    reveal_with_fuel(insert_by_start, 3);
    let two = seq![a, b];
    assert(two[0] == a && two[1] == b);
    assert(Seq::<int>::empty().push(0) =~= seq![0int]);
    assert(Seq::<int>::empty().push(1) =~= seq![1int]);
    assert(Seq::<int>::empty().push(0).push(1) =~= seq![0int, 1int]);
    assert(seq![0int].drop_last() =~= Seq::<int>::empty());
    assert(Seq::<int>::empty().push(1).push(0) =~= seq![1int, 0int]);
    assert(active_ranges(two, 2, at) =~= (if is_active(a, at) && is_active(b, at) {
        if a.start <= b.start {
            seq![0int, 1int]
        } else {
            seq![1int, 0int]
        }
    } else if is_active(a, at) {
        seq![0int]
    } else if is_active(b, at) {
        seq![1int]
    } else {
        Seq::<int>::empty()
    }));
}

proof fn lemma_two_rendered(text: Seq<char>, a: TextAttributes, b: TextAttributes, from: int, to: int)
    ensures
        ({
            let plain = escaped(byte_slice(text, from, to));
            &&& ranges_markup(plain, seq![a, b], Seq::empty()) == rendered(
                text,
                from,
                to,
                Seq::empty(),
            )
            &&& ranges_markup(plain, seq![a, b], seq![0int]) == rendered(text, from, to, seq![a])
            &&& ranges_markup(plain, seq![a, b], seq![1int]) == rendered(text, from, to, seq![b])
            &&& ranges_markup(plain, seq![a, b], seq![0int, 1int]) == rendered(
                text,
                from,
                to,
                seq![a, b],
            )
            &&& ranges_markup(plain, seq![a, b], seq![1int, 0int]) == rendered(
                text,
                from,
                to,
                seq![b, a],
            )
        }),
{
    reveal_with_fuel(ranges_markup, 3);
    reveal_with_fuel(rendered, 3);
    assert(seq![0int].drop_last() =~= Seq::<int>::empty());
    assert(seq![1int].drop_last() =~= Seq::<int>::empty());
    assert(seq![0int, 1int].drop_last() =~= seq![0int]);
    assert(seq![1int, 0int].drop_last() =~= seq![1int]);
    assert(seq![a].drop_last() =~= Seq::<TextAttributes>::empty());
    assert(seq![b].drop_last() =~= Seq::<TextAttributes>::empty());
    assert(seq![a, b].drop_last() =~= seq![a]);
    assert(seq![b, a].drop_last() =~= seq![b]);
}

/// What is shown from one cut of two ranges to the next.
proof fn lemma_two_step(
    text: Seq<char>,
    a: TextAttributes,
    b: TextAttributes,
    from: int,
    to: int,
    round: Seq<TextAttributes>,
)
    requires
        0 <= from < to <= byte_len(text),
        cut_before(seq![a, b], to) == Some(from),
        round == (if is_active(a, from) && is_active(b, from) {
            if a.start <= b.start {
                seq![a, b]
            } else {
                seq![b, a]
            }
        } else if is_active(a, from) {
            seq![a]
        } else if is_active(b, from) {
            seq![b]
        } else {
            Seq::<TextAttributes>::empty()
        }),
    ensures
        pieces_markup(text, seq![a, b], to) == pieces_markup(text, seq![a, b], from) + rendered(
            text,
            from,
            to,
            round,
        ),
{
    lemma_two_active(a, b, from);
    lemma_two_rendered(text, a, b, from, to);
    assert(seq![a, b].len() == 2);
}

proof fn lemma_two_start(text: Seq<char>, a: TextAttributes, b: TextAttributes, first: int)
    requires
        cut_before(seq![a, b], first) is None,
    ensures
        pieces_markup(text, seq![a, b], first) == Seq::<char>::empty(),
{
}

/// Two ranges that overlap: the text that only the first holds has its effects,
/// the text that both hold has the effects of both, with those of the range that
/// starts later outside, and the text that only the second holds has its effects.
/// In which order the ranges are listed has no part in that.
pub proof fn law_overlapping_ranges(text: Seq<char>, a: TextAttributes, b: TextAttributes)
    requires
        a.start < b.start < a.end < b.end <= byte_len(text),
    ensures
        ({
            let expected = rendered(text, a.start as int, b.start as int, seq![a]) + rendered(
                text,
                b.start as int,
                a.end as int,
                seq![a, b],
            ) + rendered(text, a.end as int, b.end as int, seq![b]);
            attributes_markup(text, seq![a, b]) == expected && attributes_markup(text, seq![b, a])
                == expected
        }),
{
    lemma_overlap(text, a, b);
    lemma_overlap_listed_last(text, a, b);
}

proof fn lemma_overlap(text: Seq<char>, a: TextAttributes, b: TextAttributes)
    requires
        a.start < b.start < a.end < b.end <= byte_len(text),
    ensures
        attributes_markup(text, seq![a, b]) == rendered(text, a.start as int, b.start as int, seq![a]) + rendered(text, b.start as int, a.end as int, seq![a, b]) + rendered(text, a.end as int, b.end as int, seq![b]),
{
    let attributes = seq![a, b];
    lemma_two_cuts(a, b, a.start as int);
    lemma_two_cuts(a, b, b.start as int);
    lemma_two_cuts(a, b, a.end as int);
    lemma_two_cuts(a, b, b.end as int);
    lemma_two_cuts(a, b, usize::MAX + 1);
    lemma_two_start(text, a, b, a.start as int);
    lemma_two_step(text, a, b, a.start as int, b.start as int, seq![a]);
    lemma_two_step(text, a, b, b.start as int, a.end as int, seq![a, b]);
    lemma_two_step(text, a, b, a.end as int, b.end as int, seq![b]);
    let p0 = rendered(text, a.start as int, b.start as int, seq![a]);
    let p1 = rendered(text, b.start as int, a.end as int, seq![a, b]);
    let p2 = rendered(text, a.end as int, b.end as int, seq![b]);
    assert(Seq::<char>::empty() + p0 =~= p0);
}

proof fn lemma_overlap_listed_last(text: Seq<char>, a: TextAttributes, b: TextAttributes)
    requires
        a.start < b.start < a.end < b.end <= byte_len(text),
    ensures
        attributes_markup(text, seq![b, a]) == rendered(text, a.start as int, b.start as int, seq![a]) + rendered(text, b.start as int, a.end as int, seq![a, b]) + rendered(text, a.end as int, b.end as int, seq![b]),
{
    let attributes = seq![b, a];
    lemma_two_cuts(b, a, a.start as int);
    lemma_two_cuts(b, a, b.start as int);
    lemma_two_cuts(b, a, a.end as int);
    lemma_two_cuts(b, a, b.end as int);
    lemma_two_cuts(b, a, usize::MAX + 1);
    lemma_two_start(text, b, a, a.start as int);
    lemma_two_step(text, b, a, a.start as int, b.start as int, seq![a]);
    lemma_two_step(text, b, a, b.start as int, a.end as int, seq![a, b]);
    lemma_two_step(text, b, a, a.end as int, b.end as int, seq![b]);
    let p0 = rendered(text, a.start as int, b.start as int, seq![a]);
    let p1 = rendered(text, b.start as int, a.end as int, seq![a, b]);
    let p2 = rendered(text, a.end as int, b.end as int, seq![b]);
    assert(Seq::<char>::empty() + p0 =~= p0);
}

/// A range within another: its effects stand outside those of the other, which go
/// on before and behind it. In which order the ranges are listed has no part in
/// that.
pub proof fn law_range_within_a_range(text: Seq<char>, a: TextAttributes, b: TextAttributes)
    requires
        a.start < b.start < b.end < a.end <= byte_len(text),
    ensures
        ({
            let expected = rendered(text, a.start as int, b.start as int, seq![a]) + rendered(
                text,
                b.start as int,
                b.end as int,
                seq![a, b],
            ) + rendered(text, b.end as int, a.end as int, seq![a]);
            attributes_markup(text, seq![a, b]) == expected && attributes_markup(text, seq![b, a])
                == expected
        }),
{
    lemma_within_range(text, a, b);
    lemma_within_range_listed_last(text, a, b);
}

proof fn lemma_within_range(text: Seq<char>, a: TextAttributes, b: TextAttributes)
    requires
        a.start < b.start < b.end < a.end <= byte_len(text),
    ensures
        attributes_markup(text, seq![a, b]) == rendered(text, a.start as int, b.start as int, seq![a]) + rendered(text, b.start as int, b.end as int, seq![a, b]) + rendered(text, b.end as int, a.end as int, seq![a]),
{
    let attributes = seq![a, b];
    lemma_two_cuts(a, b, a.start as int);
    lemma_two_cuts(a, b, b.start as int);
    lemma_two_cuts(a, b, b.end as int);
    lemma_two_cuts(a, b, a.end as int);
    lemma_two_cuts(a, b, usize::MAX + 1);
    lemma_two_start(text, a, b, a.start as int);
    lemma_two_step(text, a, b, a.start as int, b.start as int, seq![a]);
    lemma_two_step(text, a, b, b.start as int, b.end as int, seq![a, b]);
    lemma_two_step(text, a, b, b.end as int, a.end as int, seq![a]);
    let p0 = rendered(text, a.start as int, b.start as int, seq![a]);
    let p1 = rendered(text, b.start as int, b.end as int, seq![a, b]);
    let p2 = rendered(text, b.end as int, a.end as int, seq![a]);
    assert(Seq::<char>::empty() + p0 =~= p0);
}

proof fn lemma_within_range_listed_last(text: Seq<char>, a: TextAttributes, b: TextAttributes)
    requires
        a.start < b.start < b.end < a.end <= byte_len(text),
    ensures
        attributes_markup(text, seq![b, a]) == rendered(text, a.start as int, b.start as int, seq![a]) + rendered(text, b.start as int, b.end as int, seq![a, b]) + rendered(text, b.end as int, a.end as int, seq![a]),
{
    let attributes = seq![b, a];
    lemma_two_cuts(b, a, a.start as int);
    lemma_two_cuts(b, a, b.start as int);
    lemma_two_cuts(b, a, b.end as int);
    lemma_two_cuts(b, a, a.end as int);
    lemma_two_cuts(b, a, usize::MAX + 1);
    lemma_two_start(text, b, a, a.start as int);
    lemma_two_step(text, b, a, a.start as int, b.start as int, seq![a]);
    lemma_two_step(text, b, a, b.start as int, b.end as int, seq![a, b]);
    lemma_two_step(text, b, a, b.end as int, a.end as int, seq![a]);
    let p0 = rendered(text, a.start as int, b.start as int, seq![a]);
    let p1 = rendered(text, b.start as int, b.end as int, seq![a, b]);
    let p2 = rendered(text, b.end as int, a.end as int, seq![a]);
    assert(Seq::<char>::empty() + p0 =~= p0);
}

/// Two ranges apart from each other: each has its own effects, and the text
/// between them has none. In which order the ranges are listed has no part in
/// that.
pub proof fn law_ranges_apart(text: Seq<char>, a: TextAttributes, b: TextAttributes)
    requires
        a.start < a.end < b.start < b.end <= byte_len(text),
    ensures
        ({
            let expected = rendered(text, a.start as int, a.end as int, seq![a]) + rendered(
                text,
                a.end as int,
                b.start as int,
                Seq::empty(),
            ) + rendered(text, b.start as int, b.end as int, seq![b]);
            attributes_markup(text, seq![a, b]) == expected && attributes_markup(text, seq![b, a])
                == expected
        }),
{
    lemma_apart(text, a, b);
    lemma_apart_listed_last(text, a, b);
}

proof fn lemma_apart(text: Seq<char>, a: TextAttributes, b: TextAttributes)
    requires
        a.start < a.end < b.start < b.end <= byte_len(text),
    ensures
        attributes_markup(text, seq![a, b]) == rendered(text, a.start as int, a.end as int, seq![a]) + rendered(text, a.end as int, b.start as int, Seq::empty()) + rendered(text, b.start as int, b.end as int, seq![b]),
{
    let attributes = seq![a, b];
    lemma_two_cuts(a, b, a.start as int);
    lemma_two_cuts(a, b, a.end as int);
    lemma_two_cuts(a, b, b.start as int);
    lemma_two_cuts(a, b, b.end as int);
    lemma_two_cuts(a, b, usize::MAX + 1);
    lemma_two_start(text, a, b, a.start as int);
    lemma_two_step(text, a, b, a.start as int, a.end as int, seq![a]);
    lemma_two_step(text, a, b, a.end as int, b.start as int, Seq::empty());
    lemma_two_step(text, a, b, b.start as int, b.end as int, seq![b]);
    let p0 = rendered(text, a.start as int, a.end as int, seq![a]);
    let p1 = rendered(text, a.end as int, b.start as int, Seq::empty());
    let p2 = rendered(text, b.start as int, b.end as int, seq![b]);
    assert(Seq::<char>::empty() + p0 =~= p0);
}

proof fn lemma_apart_listed_last(text: Seq<char>, a: TextAttributes, b: TextAttributes)
    requires
        a.start < a.end < b.start < b.end <= byte_len(text),
    ensures
        attributes_markup(text, seq![b, a]) == rendered(text, a.start as int, a.end as int, seq![a]) + rendered(text, a.end as int, b.start as int, Seq::empty()) + rendered(text, b.start as int, b.end as int, seq![b]),
{
    let attributes = seq![b, a];
    lemma_two_cuts(b, a, a.start as int);
    lemma_two_cuts(b, a, a.end as int);
    lemma_two_cuts(b, a, b.start as int);
    lemma_two_cuts(b, a, b.end as int);
    lemma_two_cuts(b, a, usize::MAX + 1);
    lemma_two_start(text, b, a, a.start as int);
    lemma_two_step(text, b, a, a.start as int, a.end as int, seq![a]);
    lemma_two_step(text, b, a, a.end as int, b.start as int, Seq::empty());
    lemma_two_step(text, b, a, b.start as int, b.end as int, seq![b]);
    let p0 = rendered(text, a.start as int, a.end as int, seq![a]);
    let p1 = rendered(text, a.end as int, b.start as int, Seq::empty());
    let p2 = rendered(text, b.start as int, b.end as int, seq![b]);
    assert(Seq::<char>::empty() + p0 =~= p0);
}

/// Two ranges that start together: the effects of the one that is listed first
/// stand inside, and the longer one goes on alone.
pub proof fn law_ranges_that_start_together(
    text: Seq<char>,
    a: TextAttributes,
    b: TextAttributes,
)
    requires
        a.start == b.start,
        b.start < a.end < b.end <= byte_len(text),
    ensures
        attributes_markup(text, seq![a, b]) == rendered(
            text,
            a.start as int,
            a.end as int,
            seq![a, b],
        ) + rendered(text, a.end as int, b.end as int, seq![b]),
        attributes_markup(text, seq![b, a]) == rendered(
            text,
            a.start as int,
            a.end as int,
            seq![b, a],
        ) + rendered(text, a.end as int, b.end as int, seq![b]),
{
    lemma_together(text, a, b);
    lemma_together_listed_last(text, a, b);
}

proof fn lemma_together(text: Seq<char>, a: TextAttributes, b: TextAttributes)
    requires
        a.start == b.start,
        b.start < a.end < b.end <= byte_len(text),
    ensures
        attributes_markup(text, seq![a, b]) == rendered(text, a.start as int, a.end as int, seq![a, b]) + rendered(text, a.end as int, b.end as int, seq![b]),
{
    let attributes = seq![a, b];
    lemma_two_cuts(a, b, a.start as int);
    lemma_two_cuts(a, b, a.end as int);
    lemma_two_cuts(a, b, b.end as int);
    lemma_two_cuts(a, b, usize::MAX + 1);
    lemma_two_start(text, a, b, a.start as int);
    lemma_two_step(text, a, b, a.start as int, a.end as int, seq![a, b]);
    lemma_two_step(text, a, b, a.end as int, b.end as int, seq![b]);
    let p0 = rendered(text, a.start as int, a.end as int, seq![a, b]);
    let p1 = rendered(text, a.end as int, b.end as int, seq![b]);
    assert(Seq::<char>::empty() + p0 =~= p0);
}

proof fn lemma_together_listed_last(text: Seq<char>, a: TextAttributes, b: TextAttributes)
    requires
        a.start == b.start,
        b.start < a.end < b.end <= byte_len(text),
    ensures
        attributes_markup(text, seq![b, a]) == rendered(text, a.start as int, a.end as int, seq![b, a]) + rendered(text, a.end as int, b.end as int, seq![b]),
{
    let attributes = seq![b, a];
    lemma_two_cuts(b, a, a.start as int);
    lemma_two_cuts(b, a, a.end as int);
    lemma_two_cuts(b, a, b.end as int);
    lemma_two_cuts(b, a, usize::MAX + 1);
    lemma_two_start(text, b, a, a.start as int);
    lemma_two_step(text, b, a, a.start as int, a.end as int, seq![b, a]);
    lemma_two_step(text, b, a, a.end as int, b.end as int, seq![b]);
    let p0 = rendered(text, a.start as int, a.end as int, seq![b, a]);
    let p1 = rendered(text, a.end as int, b.end as int, seq![b]);
    assert(Seq::<char>::empty() + p0 =~= p0);
}

/// Two ranges that end together: the one that starts later stands outside where
/// both hold.
pub proof fn law_ranges_that_end_together(text: Seq<char>, a: TextAttributes, b: TextAttributes)
    requires
        a.start < b.start < a.end <= byte_len(text),
        a.end == b.end,
    ensures
        ({
            let expected = rendered(text, a.start as int, b.start as int, seq![a]) + rendered(
                text,
                b.start as int,
                a.end as int,
                seq![a, b],
            );
            attributes_markup(text, seq![a, b]) == expected && attributes_markup(text, seq![b, a])
                == expected
        }),
{
    lemma_end_together(text, a, b);
    lemma_end_together_listed_last(text, a, b);
}

proof fn lemma_end_together(text: Seq<char>, a: TextAttributes, b: TextAttributes)
    requires
        a.start < b.start < a.end <= byte_len(text),
        a.end == b.end,
    ensures
        attributes_markup(text, seq![a, b]) == rendered(text, a.start as int, b.start as int, seq![a]) + rendered(text, b.start as int, a.end as int, seq![a, b]),
{
    let attributes = seq![a, b];
    lemma_two_cuts(a, b, a.start as int);
    lemma_two_cuts(a, b, b.start as int);
    lemma_two_cuts(a, b, a.end as int);
    lemma_two_cuts(a, b, usize::MAX + 1);
    lemma_two_start(text, a, b, a.start as int);
    lemma_two_step(text, a, b, a.start as int, b.start as int, seq![a]);
    lemma_two_step(text, a, b, b.start as int, a.end as int, seq![a, b]);
    let p0 = rendered(text, a.start as int, b.start as int, seq![a]);
    let p1 = rendered(text, b.start as int, a.end as int, seq![a, b]);
    assert(Seq::<char>::empty() + p0 =~= p0);
}

proof fn lemma_end_together_listed_last(text: Seq<char>, a: TextAttributes, b: TextAttributes)
    requires
        a.start < b.start < a.end <= byte_len(text),
        a.end == b.end,
    ensures
        attributes_markup(text, seq![b, a]) == rendered(text, a.start as int, b.start as int, seq![a]) + rendered(text, b.start as int, a.end as int, seq![a, b]),
{
    let attributes = seq![b, a];
    lemma_two_cuts(b, a, a.start as int);
    lemma_two_cuts(b, a, b.start as int);
    lemma_two_cuts(b, a, a.end as int);
    lemma_two_cuts(b, a, usize::MAX + 1);
    lemma_two_start(text, b, a, a.start as int);
    lemma_two_step(text, b, a, a.start as int, b.start as int, seq![a]);
    lemma_two_step(text, b, a, b.start as int, a.end as int, seq![a, b]);
    let p0 = rendered(text, a.start as int, b.start as int, seq![a]);
    let p1 = rendered(text, b.start as int, a.end as int, seq![a, b]);
    assert(Seq::<char>::empty() + p0 =~= p0);
}

} // verus!
