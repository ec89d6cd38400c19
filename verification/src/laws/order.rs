//! What is read on a page, in which order.
use vstd::prelude::*;

verus! {

/// Whether the segments occur in a text in this order, none overlapping
/// another.
#[verifier::opaque]
pub open spec fn in_order(text: Seq<char>, segments: Seq<Seq<char>>) -> bool
    decreases segments.len(),
{
    if segments.len() == 0 {
        true
    } else {
        exists|at: int|
            {
                &&& 0 <= at
                &&& at + segments.last().len() <= text.len()
                &&& text.subrange(at, at + segments.last().len() as int) == segments.last()
                &&& in_order(#[trigger] text.take(at), segments.drop_last())
            }
    }
}

/// Nothing occurs in any text.
pub proof fn lemma_nothing(text: Seq<char>)
    ensures
        in_order(text, Seq::<Seq<char>>::empty()),
{
    reveal(in_order);
}

/// What occurs in a text occurs in a longer one.
pub proof fn lemma_gap(text: Seq<char>, gap: Seq<char>, segments: Seq<Seq<char>>)
    requires
        in_order(text, segments),
    ensures
        in_order(text + gap, segments),
{
    reveal(in_order);
    if segments.len() > 0 {
        let last = segments.last();
        let at = choose|at: int|
            {
                &&& 0 <= at
                &&& at + last.len() <= text.len()
                &&& text.subrange(at, at + last.len() as int) == last
                &&& in_order(#[trigger] text.take(at), segments.drop_last())
            };
        let longer = text + gap;
        assert(longer.take(at) =~= text.take(at));
        assert(longer.subrange(at, at + last.len() as int) =~= text.subrange(
            at,
            at + last.len() as int,
        ));
    }
}

/// What is added at the end occurs behind all that occurs before it.
pub proof fn lemma_segment(text: Seq<char>, segment: Seq<char>, segments: Seq<Seq<char>>)
    requires
        in_order(text, segments),
    ensures
        in_order(text + segment, segments.push(segment)),
{
    reveal(in_order);
    let longer = text + segment;
    let at = text.len() as int;
    assert(longer.take(at) =~= text);
    assert(longer.subrange(at, at + segment.len() as int) =~= segment);
    assert(segments.push(segment).drop_last() =~= segments);
    assert(in_order(longer.take(at), segments.push(segment).drop_last()));
}

/// Two texts that are added at the end occur there as one.
pub proof fn lemma_joined_segment(
    text: Seq<char>,
    a: Seq<char>,
    b: Seq<char>,
    segments: Seq<Seq<char>>,
)
    requires
        in_order(text, segments),
    ensures
        in_order(text + a + b, segments.push(a + b)),
{
    lemma_segment(text, a + b, segments);
    assert(text + a + b =~= text + (a + b));
}

/// Three texts that are added at the end occur there as one.
pub proof fn lemma_enclosed_segment(
    text: Seq<char>,
    a: Seq<char>,
    b: Seq<char>,
    c: Seq<char>,
    segments: Seq<Seq<char>>,
)
    requires
        in_order(text, segments),
    ensures
        in_order(text + a + b + c, segments.push(a + b + c)),
{
    lemma_segment(text, a + b + c, segments);
    assert(text + a + b + c =~= text + (a + b + c));
}

/// What occurs in each of two texts occurs in both together, first the one and
/// then the other.
pub proof fn lemma_both(
    a: Seq<char>,
    in_a: Seq<Seq<char>>,
    b: Seq<char>,
    in_b: Seq<Seq<char>>,
)
    requires
        in_order(a, in_a),
        in_order(b, in_b),
    ensures
        in_order(a + b, in_a + in_b),
    decreases in_b.len(),
{
    if in_b.len() == 0 {
        lemma_gap(a, b, in_a);
        assert(in_a + in_b =~= in_a);
    } else {
        reveal(in_order);
        let last = in_b.last();
        let at = choose|at: int|
            {
                &&& 0 <= at
                &&& at + last.len() <= b.len()
                &&& b.subrange(at, at + last.len() as int) == last
                &&& in_order(#[trigger] b.take(at), in_b.drop_last())
            };
        lemma_both(a, in_a, b.take(at), in_b.drop_last());
        let whole = a + b;
        let shifted = a.len() as int + at;
        assert(whole.take(shifted) =~= a + b.take(at));
        assert((in_a + in_b).drop_last() =~= in_a + in_b.drop_last());
        assert(whole.subrange(shifted, shifted + last.len() as int) =~= last);
        assert((in_a + in_b).last() == last);
    }
}

/// Three texts behind another are one text behind it.
pub proof fn lemma_regroup(text: Seq<char>, a: Seq<char>, b: Seq<char>, c: Seq<char>)
    ensures
        text + a + b + c == text + (a + b + c),
{
    assert(text + a + b + c =~= text + (a + b + c));
}

/// A text occurs in itself.
pub proof fn lemma_itself(text: Seq<char>)
    ensures
        in_order(text, seq![text]),
{
    lemma_nothing(Seq::empty());
    lemma_segment(Seq::empty(), text, Seq::empty());
    assert(Seq::<char>::empty() + text =~= text);
}

/// What occurs in a text occurs wherever the text stands.
pub proof fn lemma_within(
    before: Seq<char>,
    text: Seq<char>,
    after: Seq<char>,
    segments: Seq<Seq<char>>,
)
    requires
        in_order(text, segments),
    ensures
        in_order(before + text + after, segments),
    decreases segments.len(),
{
    reveal(in_order);
    if segments.len() > 0 {
        let last = segments.last();
        let at = choose|at: int|
            {
                &&& 0 <= at
                &&& at + last.len() <= text.len()
                &&& text.subrange(at, at + last.len() as int) == last
                &&& in_order(#[trigger] text.take(at), segments.drop_last())
            };
        lemma_within(before, text.take(at), Seq::empty(), segments.drop_last());
        let whole = before + text + after;
        let shifted = before.len() as int + at;
        assert(before + text.take(at) + Seq::<char>::empty() =~= whole.take(shifted));
        assert(whole.subrange(shifted, shifted + last.len() as int) =~= text.subrange(
            at,
            at + last.len() as int,
        ));
    }
}

/// Texts one behind the other.
pub open spec fn joined(texts: Seq<Seq<char>>) -> Seq<char>
    decreases texts.len(),
{
    if texts.len() == 0 {
        Seq::empty()
    } else {
        joined(texts.drop_last()) + texts.last()
    }
}

/// Each of the texts stands in what they are joined to, behind the ones before
/// it.
pub proof fn lemma_joined(texts: Seq<Seq<char>>, i: int)
    requires
        0 <= i < texts.len(),
    ensures
        exists|after: Seq<char>|
            joined(texts) == #[trigger] (joined(texts.take(i)) + texts[i] + after),
    decreases texts.len(),
{
    if i == texts.len() - 1 {
        assert(texts.take(i) =~= texts.drop_last());
        assert(joined(texts) =~= joined(texts.take(i)) + texts[i] + Seq::<char>::empty());
    } else {
        let front = texts.drop_last();
        lemma_joined(front, i);
        assert(front.take(i) =~= texts.take(i));
        let after = choose|after: Seq<char>|
            joined(front) == #[trigger] (joined(front.take(i)) + front[i] + after);
        assert(joined(texts) =~= joined(texts.take(i)) + texts[i] + (after + texts.last()));
    }
}

} // verus!
