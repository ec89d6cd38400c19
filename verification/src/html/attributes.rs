//! Text with effects on ranges of it.
//!
//! The ranges may overlap in any way. The text is cut at every position where
//! a range starts or ends, and each piece gets the effects of the ranges that
//! hold it.
use std::borrow::Cow;

use vstd::prelude::*;

use crate::escape::{escaped, law_escaped_concat, sanitize_html};
use crate::html::text_effects::effect_markup;
use crate::html::HTML;
use crate::laws::order::{in_order, lemma_gap, lemma_itself, lemma_within};
use crate::text::seq_lemmas::{lemma_take_all, lemma_take_step};
use crate::text::slices::{
    byte_len, byte_slice, lemma_byte_slice_all, lemma_byte_slice_join, lemma_byte_slice_none,
    on_boundary, slice_text, text_byte_len,
};
use crate::text_effects::{TextAttributes, TextEffect};

verus! {

// The positions at which the text is cut.

/// Whether a range starts or ends at byte `at`.
pub open spec fn is_cut(attributes: Seq<TextAttributes>, at: int) -> bool {
    exists|i: int|
        0 <= i < attributes.len() && ((#[trigger] attributes[i]).start == at || attributes[i].end
            == at)
}

/// The later of `best` and `at`, as far as `at` lies before `limit`.
pub open spec fn later(best: Option<int>, at: int, limit: int) -> Option<int> {
    if at < limit && (best is None || best->0 < at) {
        Some(at)
    } else {
        best
    }
}

/// The last cut before byte `limit`.
pub open spec fn cut_before(attributes: Seq<TextAttributes>, limit: int) -> Option<int>
    decreases attributes.len(),
{
    if attributes.len() == 0 {
        None
    } else {
        let best = cut_before(attributes.drop_last(), limit);
        let last = attributes.last();
        later(later(best, last.start as int, limit), last.end as int, limit)
    }
}

/// The last cut of all.
pub open spec fn last_cut(attributes: Seq<TextAttributes>) -> Option<int> {
    cut_before(attributes, usize::MAX + 1)
}

proof fn lemma_cut_before(attributes: Seq<TextAttributes>, limit: int)
    ensures
        match cut_before(attributes, limit) {
            Some(at) => at < limit && is_cut(attributes, at),
            None => true,
        },
        forall|at: int|
            #[trigger] is_cut(attributes, at) && at < limit ==> {
                let last = cut_before(attributes, limit);
                last is Some && at <= last->0
            },
    decreases attributes.len(),
{
    if attributes.len() > 0 {
        let front = attributes.drop_last();
        let last = attributes.last();
        lemma_cut_before(front, limit);
        assert(attributes[attributes.len() - 1] == last);
        assert forall|at: int| is_cut(front, at) implies is_cut(attributes, at) by {
            let i = choose|i: int|
                0 <= i < front.len() && ((#[trigger] front[i]).start == at || front[i].end == at);
            assert(attributes[i] == front[i]);
        }
        assert forall|at: int|
            is_cut(attributes, at) && at != last.start && at != last.end implies is_cut(
            front,
            at,
        ) by {
            let i = choose|i: int|
                0 <= i < attributes.len() && ((#[trigger] attributes[i]).start == at
                    || attributes[i].end == at);
            assert(front[i] == attributes[i]);
        }
        assert(is_cut(attributes, last.start as int));
        assert(is_cut(attributes, last.end as int));
    }
}

/// Whether every piece that is cut from the text starts and ends between two
/// characters. Cuts past the end of the text count as its end.
pub open spec fn cuts_between_chars(text: Seq<char>, attributes: Seq<TextAttributes>) -> bool {
    forall|from: int, to: int|
        #[trigger] is_cut(attributes, from) && #[trigger] is_cut(attributes, to) && from < to
            && from < byte_len(text) ==> on_boundary(text, from) && (to < byte_len(text)
            ==> on_boundary(text, to))
}

// The effects on a piece.

/// Whether a range has started at byte `at` and not ended. A range that ends no
/// later than it starts never ends.
pub open spec fn is_active(attribute: TextAttributes, at: int) -> bool {
    attribute.start <= at && !(attribute.start < attribute.end <= at)
}

/// Put `id` behind the ranges that start no later than it does.
pub open spec fn insert_by_start(
    order: Seq<int>,
    attributes: Seq<TextAttributes>,
    id: int,
) -> Seq<int>
    decreases order.len(),
{
    if order.len() == 0 || attributes[order.last()].start <= attributes[id].start {
        order.push(id)
    } else {
        insert_by_start(order.drop_last(), attributes, id).push(order.last())
    }
}

/// Of the first `count` ranges those that are active at byte `at`, by where
/// they start; ranges that start together stay in their order.
pub open spec fn active_ranges(attributes: Seq<TextAttributes>, count: nat, at: int) -> Seq<int>
    decreases count,
{
    if count == 0 {
        Seq::empty()
    } else {
        let order = active_ranges(attributes, (count - 1) as nat, at);
        if is_active(attributes[count - 1], at) {
            insert_by_start(order, attributes, count - 1)
        } else {
            order
        }
    }
}

/// Markup with several effects put round it, the first innermost.
pub open spec fn effects_markup(markup: Seq<char>, effects: Seq<TextEffect>) -> Seq<char>
    decreases effects.len(),
{
    if effects.len() == 0 {
        markup
    } else {
        effect_markup(effects_markup(markup, effects.drop_last()), effects.last())
    }
}

/// Whether there is no effect but on plain text.
pub open spec fn is_plain(effects: Seq<TextEffect>) -> bool {
    forall|i: int| 0 <= i < effects.len() ==> (#[trigger] effects[i]) is Default
}

/// Markup with the effects of several ranges put round it, the first range
/// innermost.
pub open spec fn ranges_markup(
    markup: Seq<char>,
    attributes: Seq<TextAttributes>,
    order: Seq<int>,
) -> Seq<char>
    decreases order.len(),
{
    if order.len() == 0 {
        markup
    } else {
        effects_markup(
            ranges_markup(markup, attributes, order.drop_last()),
            attributes[order.last()].effects@,
        )
    }
}

// The whole text.

/// The piece of the text between two neighbouring cuts: escaped, with the
/// effects of the ranges that are active where it starts.
pub open spec fn piece_markup(
    text: Seq<char>,
    attributes: Seq<TextAttributes>,
    from: int,
    to: int,
) -> Seq<char> {
    let len = byte_len(text) as int;
    if from < len {
        let end = if to < len {
            to
        } else {
            len
        };
        ranges_markup(
            escaped(byte_slice(text, from, end)),
            attributes,
            active_ranges(attributes, attributes.len(), from),
        )
    } else {
        Seq::empty()
    }
}

/// All pieces of the text up to the cut at byte `to`.
pub open spec fn pieces_markup(text: Seq<char>, attributes: Seq<TextAttributes>, to: int) -> Seq<
    char,
>
    decreases to,
{
    match cut_before(attributes, to) {
        Some(from) => if 0 <= from < to {
            pieces_markup(text, attributes, from) + piece_markup(text, attributes, from, to)
        } else {
            Seq::empty()
        },
        None => Seq::empty(),
    }
}

/// A text with effects on ranges of it. Without ranges it is the escaped text;
/// else the part between the first and the last cut is rendered.
pub open spec fn attributes_markup(text: Seq<char>, attributes: Seq<TextAttributes>) -> Seq<char> {
    match last_cut(attributes) {
        Some(to) => pieces_markup(text, attributes, to),
        None => escaped(text),
    }
}

// The order of the active ranges.

/// Whether range `a` starts before range `b`, or with it and stands before it.
spec fn starts_before(attributes: Seq<TextAttributes>, a: int, b: int) -> bool {
    attributes[a].start < attributes[b].start || (attributes[a].start == attributes[b].start && a
        < b)
}

spec fn in_start_order(attributes: Seq<TextAttributes>, order: Seq<int>) -> bool {
    forall|a: int, b: int|
        0 <= a < b < order.len() ==> starts_before(
            attributes,
            #[trigger] order[a],
            #[trigger] order[b],
        )
}

proof fn lemma_insert_by_start(order: Seq<int>, attributes: Seq<TextAttributes>, id: int)
    requires
        in_start_order(attributes, order),
        forall|a: int| 0 <= a < order.len() ==> #[trigger] order[a] < id,
    ensures
        in_start_order(attributes, insert_by_start(order, attributes, id)),
        insert_by_start(order, attributes, id).len() == order.len() + 1,
        forall|x: int| #[trigger]
            insert_by_start(order, attributes, id).contains(x) <==> order.contains(x) || x == id,
    decreases order.len(),
{
    let inserted = insert_by_start(order, attributes, id);
    if order.len() == 0 || attributes[order.last()].start <= attributes[id].start {
        assert forall|x: int| #[trigger] inserted.contains(x) <==> order.contains(x) || x
            == id by {
            if order.contains(x) {
                let a = choose|a: int| 0 <= a < order.len() && order[a] == x;
                assert(inserted[a] == x);
            }
            if x == id {
                assert(inserted[order.len() as int] == x);
            }
        }
    } else {
        let front = order.drop_last();
        lemma_insert_by_start(front, attributes, id);
        let inner = insert_by_start(front, attributes, id);
        assert forall|x: int| #[trigger] inserted.contains(x) <==> order.contains(x) || x
            == id by {
            if inserted.contains(x) {
                let a = choose|a: int| 0 <= a < inserted.len() && inserted[a] == x;
                if a < inner.len() {
                    assert(inner[a] == x);
                    assert(inner.contains(x));
                    if x != id {
                        let b = choose|b: int| 0 <= b < front.len() && front[b] == x;
                        assert(order[b] == x);
                    }
                } else {
                    assert(order[order.len() - 1] == x);
                }
            }
            if order.contains(x) {
                let a = choose|a: int| 0 <= a < order.len() && order[a] == x;
                if a < front.len() {
                    assert(front[a] == x);
                    assert(front.contains(x));
                }
            }
            if x == id {
                assert(inner.contains(x));
            }
            if inner.contains(x) {
                let a = choose|a: int| 0 <= a < inner.len() && inner[a] == x;
                assert(inserted[a] == x);
            }
            assert(inserted[inner.len() as int] == order.last());
        }
        assert forall|a: int, b: int| 0 <= a < b < inserted.len() implies starts_before(
            attributes,
            #[trigger] inserted[a],
            #[trigger] inserted[b],
        ) by {
            if b == inner.len() {
                assert(inner.contains(inner[a]));
                if inner[a] != id {
                    assert(front.contains(inner[a]));
                    let c = choose|c: int| 0 <= c < front.len() && front[c] == inner[a];
                    assert(order[c] == inner[a]);
                }
            }
        }
    }
}

proof fn lemma_active_ranges(attributes: Seq<TextAttributes>, count: nat, at: int)
    requires
        count <= attributes.len(),
    ensures
        in_start_order(attributes, active_ranges(attributes, count, at)),
        forall|x: int| #[trigger]
            active_ranges(attributes, count, at).contains(x) <==> 0 <= x < count && is_active(
                attributes[x],
                at,
            ),
    decreases count,
{
    if count > 0 {
        let order = active_ranges(attributes, (count - 1) as nat, at);
        lemma_active_ranges(attributes, (count - 1) as nat, at);
        if is_active(attributes[count - 1], at) {
            assert forall|a: int| 0 <= a < order.len() implies #[trigger] order[a] < count - 1 by {
                assert(order.contains(order[a]));
            }
            lemma_insert_by_start(order, attributes, count - 1);
        }
    }
}

/// Ranges in start order are determined by which they are.
proof fn lemma_start_order_unique(attributes: Seq<TextAttributes>, a: Seq<int>, b: Seq<int>)
    requires
        in_start_order(attributes, a),
        in_start_order(attributes, b),
        forall|x: int| #[trigger] a.contains(x) <==> b.contains(x),
    ensures
        a == b,
    decreases a.len(),
{
    if a.len() == 0 {
        if b.len() > 0 {
            assert(b.contains(b[0]));
            assert(a.contains(b[0]));
        }
        assert(a =~= b);
    } else {
        assert(a.contains(a[0]));
        assert(b.len() > 0);
        assert(a.contains(a.last()));
        assert(b.contains(b.last()));
        assert(a.contains(b.last()));
        let i = choose|i: int| 0 <= i < a.len() && a[i] == b.last();
        let j = choose|j: int| 0 <= j < b.len() && b[j] == a.last();
        if a.last() != b.last() {
            assert(starts_before(attributes, a[i], a[a.len() - 1]));
            assert(starts_before(attributes, b[j], b[b.len() - 1]));
        }
        assert(a.last() == b.last());
        let fa = a.drop_last();
        let fb = b.drop_last();
        assert forall|x: int| #[trigger] fa.contains(x) <==> fb.contains(x) by {
            if fa.contains(x) {
                let k = choose|k: int| 0 <= k < fa.len() && fa[k] == x;
                assert(a[k] == x);
                assert(a.contains(x));
                let l = choose|l: int| 0 <= l < b.len() && b[l] == x;
                assert(starts_before(attributes, a[k], a[a.len() - 1]));
                assert(l < fb.len());
                assert(fb[l] == x);
            }
            if fb.contains(x) {
                let k = choose|k: int| 0 <= k < fb.len() && fb[k] == x;
                assert(b[k] == x);
                assert(b.contains(x));
                assert(a.contains(x));
                let l = choose|l: int| 0 <= l < a.len() && a[l] == x;
                assert(starts_before(attributes, b[k], b[b.len() - 1]));
                assert(l < fa.len());
                assert(fa[l] == x);
            }
        }
        assert forall|x: int, y: int| 0 <= x < y < fa.len() implies starts_before(
            attributes,
            #[trigger] fa[x],
            #[trigger] fa[y],
        ) by {
            assert(fa[x] == a[x] && fa[y] == a[y]);
        }
        assert forall|x: int, y: int| 0 <= x < y < fb.len() implies starts_before(
            attributes,
            #[trigger] fb[x],
            #[trigger] fb[y],
        ) by {
            assert(fb[x] == b[x] && fb[y] == b[y]);
        }
        lemma_start_order_unique(attributes, fa, fb);
        assert(a =~= fa.push(a.last()));
        assert(b =~= fb.push(b.last()));
    }
}

// The starts and ends of the ranges, in the order in which they are met.

/// A range starts or ends at byte `at`.
#[derive(Clone, Copy)]
struct RangeEvent {
    at: usize,
    starts: bool,
    id: usize,
}

/// Whether one event is met before another: by position, ends before starts,
/// then by the ranges' order.
spec fn met_before(a: RangeEvent, b: RangeEvent) -> bool {
    a.at < b.at || (a.at == b.at && ((!a.starts && b.starts) || (a.starts == b.starts && a.id
        < b.id)))
}

spec fn in_event_order(events: Seq<RangeEvent>) -> bool {
    forall|a: int, b: int|
        0 <= a < b < events.len() ==> met_before(#[trigger] events[a], #[trigger] events[b])
}

spec fn start_event(attributes: Seq<TextAttributes>, id: int) -> RangeEvent {
    RangeEvent { at: attributes[id].start, starts: true, id: id as usize }
}

spec fn end_event(attributes: Seq<TextAttributes>, id: int) -> RangeEvent {
    RangeEvent { at: attributes[id].end, starts: false, id: id as usize }
}

/// Whether `event` belongs to one of the first `count` ranges.
spec fn is_event(attributes: Seq<TextAttributes>, count: int, event: RangeEvent) -> bool {
    event.id < count && event.at == (if event.starts {
        attributes[event.id as int].start
    } else {
        attributes[event.id as int].end
    })
}

/// Put an event behind all that are not met after it.
fn insert_event(events: &mut Vec<RangeEvent>, event: RangeEvent)
    requires
        in_event_order(old(events)@),
        forall|i: int|
            0 <= i < old(events)@.len() && (#[trigger] old(events)@[i]).starts == event.starts
                ==> old(events)@[i].id < event.id,
    ensures
        in_event_order(final(events)@),
        forall|e: RangeEvent| #[trigger]
            final(events)@.contains(e) <==> old(events)@.contains(e) || e == event,
{
    let ghost before = events@;
    let mut i: usize = events.len();
    while i > 0 && (events[i - 1].at > event.at || (events[i - 1].at == event.at && events[i
        - 1].starts && !event.starts))
        invariant
            i <= events.len(),
            events@ == before,
            in_event_order(before),
            forall|j: int| i <= j < before.len() ==> met_before(event, #[trigger] before[j]),
        decreases i,
    {
        i = i - 1;
    }
    events.insert(i, event);
    proof {
        assert(events@ =~= before.insert(i as int, event));
        if i > 0 {
            assert(met_before(before[i - 1], event));
        }
        assert forall|a: int, b: int| 0 <= a < b < events@.len() implies met_before(
            #[trigger] events@[a],
            #[trigger] events@[b],
        ) by {
            if a < i && b == i {
                if a < i - 1 {
                    assert(met_before(before[a], before[i - 1]));
                }
            } else if a < i && b > i {
                assert(met_before(before[a], before[b - 1]));
            } else if a == i {
                assert(met_before(event, before[b - 1]));
            } else if b < i {
                assert(met_before(before[a], before[b]));
            } else {
                assert(met_before(before[a - 1], before[b - 1]));
            }
        }
        assert forall|e: RangeEvent| #[trigger] events@.contains(e) <==> before.contains(e) || e
            == event by {
            if before.contains(e) {
                let j = choose|j: int| 0 <= j < before.len() && before[j] == e;
                if j < i {
                    assert(events@[j] == e);
                } else {
                    assert(events@[j + 1] == e);
                }
            }
            if e == event {
                assert(events@[i as int] == e);
            }
            if events@.contains(e) {
                let j = choose|j: int| 0 <= j < events@.len() && events@[j] == e;
                if j < i {
                    assert(before[j] == e);
                } else if j > i {
                    assert(before[j - 1] == e);
                }
            }
        }
    }
}

/// The starts and ends of all ranges, in the order in which they are met.
fn range_events(attributes: &[TextAttributes]) -> (events: Vec<RangeEvent>)
    ensures
        in_event_order(events@),
        forall|e: RangeEvent| #[trigger]
            events@.contains(e) <==> is_event(attributes@, attributes@.len() as int, e),
{
    let mut events: Vec<RangeEvent> = Vec::new();
    for id in 0..attributes.len()
        invariant
            in_event_order(events@),
            forall|e: RangeEvent| #[trigger]
                events@.contains(e) <==> is_event(attributes@, id as int, e),
    {
        let ghost before = events@;
        assert forall|i: int| 0 <= i < before.len() implies (#[trigger] before[i]).id < id by {
            assert(before.contains(before[i]));
        }
        insert_event(&mut events, RangeEvent { at: attributes[id].start, starts: true, id });
        let ghost middle = events@;
        assert forall|i: int| 0 <= i < middle.len() && !(#[trigger] middle[i]).starts implies
            middle[i].id < id by {
            assert(middle.contains(middle[i]));
        }
        insert_event(&mut events, RangeEvent { at: attributes[id].end, starts: false, id });
        assert forall|e: RangeEvent| #[trigger] events@.contains(e) <==> is_event(
            attributes@,
            id + 1,
            e,
        ) by {
            assert(middle.contains(e) <==> before.contains(e) || e == start_event(
                attributes@,
                id as int,
            ));
        }
    }
    events
}

// Walking the events.

/// Whether `event` is among the first `count` events.
spec fn is_met(events: Seq<RangeEvent>, count: int, event: RangeEvent) -> bool {
    exists|i: int| 0 <= i < count && #[trigger] events[i] == event
}

/// Whether the range `id` has started within the first `count` events and not
/// ended after that.
spec fn is_open(
    attributes: Seq<TextAttributes>,
    events: Seq<RangeEvent>,
    count: int,
    id: int,
) -> bool {
    is_met(events, count, start_event(attributes, id)) && !(is_met(
        events,
        count,
        end_event(attributes, id),
    ) && attributes[id].start < attributes[id].end)
}

/// The ranges in `active`, as integers.
pub open spec fn ids(active: Seq<usize>) -> Seq<int> {
    active.map_values(|id: usize| id as int)
}

/// The open ranges after the first `count` events, in start order.
spec fn holds_open_ranges(
    attributes: Seq<TextAttributes>,
    events: Seq<RangeEvent>,
    count: int,
    active: Seq<usize>,
) -> bool {
    &&& in_start_order(attributes, ids(active))
    &&& forall|id: usize| #[trigger]
        active.contains(id) <==> id < attributes.len() && is_open(
            attributes,
            events,
            count,
            id as int,
        )
}

/// All events of `attributes`, in the order in which they are met.
spec fn are_events(attributes: Seq<TextAttributes>, events: Seq<RangeEvent>) -> bool {
    &&& in_event_order(events)
    &&& attributes.len() <= usize::MAX
    &&& forall|e: RangeEvent| #[trigger]
        events.contains(e) <==> is_event(attributes, attributes.len() as int, e)
}

proof fn lemma_is_met_step(events: Seq<RangeEvent>, count: int, event: RangeEvent)
    requires
        0 <= count < events.len(),
    ensures
        is_met(events, count + 1, event) <==> is_met(events, count, event) || event
            == events[count],
{
    if is_met(events, count, event) {
        let i = choose|i: int| 0 <= i < count && #[trigger] events[i] == event;
        assert(events[i] == event);
    }
    if event == events[count] {
        assert(events[count] == event);
    }
}

/// Where the next event lies further on, what has been met is what lies at
/// `from` or before.
proof fn lemma_met_by_position(
    attributes: Seq<TextAttributes>,
    events: Seq<RangeEvent>,
    count: int,
    event: RangeEvent,
)
    requires
        are_events(attributes, events),
        0 < count < events.len(),
        events[count - 1].at < events[count].at,
        is_event(attributes, attributes.len() as int, event),
    ensures
        is_met(events, count, event) <==> event.at <= events[count - 1].at,
{
    assert(events.contains(event));
    let i = choose|i: int| 0 <= i < events.len() && events[i] == event;
    if i < count {
        if i < count - 1 {
            assert(met_before(events[i], events[count - 1]));
        }
    } else {
        if i > count {
            assert(met_before(events[count], events[i]));
        }
        if is_met(events, count, event) {
            let j = choose|j: int| 0 <= j < count && #[trigger] events[j] == event;
            assert(met_before(events[j], events[i]));
        }
    }
}

/// Between two neighbouring cuts the open ranges are the active ones.
proof fn lemma_open_ranges_are_active(
    attributes: Seq<TextAttributes>,
    events: Seq<RangeEvent>,
    count: int,
    active: Seq<usize>,
)
    requires
        are_events(attributes, events),
        0 < count < events.len(),
        events[count - 1].at < events[count].at,
        holds_open_ranges(attributes, events, count, active),
    ensures
        ids(active) == active_ranges(
            attributes,
            attributes.len(),
            events[count - 1].at as int,
        ),
{
    let from = events[count - 1].at as int;
    let order = active_ranges(attributes, attributes.len(), from);
    lemma_active_ranges(attributes, attributes.len(), from);
    assert forall|x: int| #[trigger] ids(active).contains(x) <==> order.contains(x) by {
        if ids(active).contains(x) {
            let i = choose|i: int| 0 <= i < ids(active).len() && ids(active)[i] == x;
            assert(active[i] == x);
            assert(active.contains(x as usize));
        }
        if active.contains(x as usize) && 0 <= x < attributes.len() {
            let i = choose|i: int| 0 <= i < active.len() && active[i] == x as usize;
            assert(ids(active)[i] == x);
        }
        if 0 <= x < attributes.len() {
            lemma_met_by_position(attributes, events, count, start_event(attributes, x));
            lemma_met_by_position(attributes, events, count, end_event(attributes, x));
            assert(is_open(attributes, events, count, x) <==> is_active(attributes[x], from));
        }
    }
    lemma_start_order_unique(attributes, ids(active), order);
}

/// The events before the next one are the cuts before it.
proof fn lemma_cut_before_event(
    attributes: Seq<TextAttributes>,
    events: Seq<RangeEvent>,
    count: int,
)
    requires
        are_events(attributes, events),
        0 < count < events.len(),
        events[count - 1].at < events[count].at,
    ensures
        cut_before(attributes, events[count].at as int) == Some(events[count - 1].at as int),
        is_cut(attributes, events[count - 1].at as int),
        is_cut(attributes, events[count].at as int),
{
    let to = events[count].at as int;
    let from = events[count - 1].at as int;
    lemma_cut_before(attributes, to);
    assert(events.contains(events[count - 1]));
    assert(events.contains(events[count]));
    assert(attributes[events[count - 1].id as int].start == from
        || attributes[events[count - 1].id as int].end == from);
    assert(is_cut(attributes, from));
    assert(attributes[events[count].id as int].start == to
        || attributes[events[count].id as int].end == to);
    assert(is_cut(attributes, to));
    let last = cut_before(attributes, to)->0;
    let i = choose|i: int|
        0 <= i < attributes.len() && ((#[trigger] attributes[i]).start == last
            || attributes[i].end == last);
    let event = if attributes[i].start == last {
        start_event(attributes, i)
    } else {
        end_event(attributes, i)
    };
    lemma_met_by_position(attributes, events, count, event);
    if event.at > from {
        assert(events.contains(event));
        let j = choose|j: int| 0 <= j < events.len() && events[j] == event;
        if j < count {
            assert(is_met(events, count, event));
        } else if j > count {
            assert(met_before(events[count], events[j]));
        }
    }
}

/// Nothing is cut before the first event, and nothing after the last.
proof fn lemma_first_and_last_event(attributes: Seq<TextAttributes>, events: Seq<RangeEvent>)
    requires
        are_events(attributes, events),
        attributes.len() > 0,
    ensures
        events.len() > 0,
        cut_before(attributes, events[0].at as int) is None,
        last_cut(attributes) == Some(events.last().at as int),
{
    assert(events.contains(start_event(attributes, 0)));
    let first = events[0].at as int;
    let last = events.last().at as int;
    lemma_cut_before(attributes, first);
    lemma_cut_before(attributes, usize::MAX + 1);
    if cut_before(attributes, first) is Some {
        let at = cut_before(attributes, first)->0;
        let i = choose|i: int|
            0 <= i < attributes.len() && ((#[trigger] attributes[i]).start == at
                || attributes[i].end == at);
        let event = if attributes[i].start == at {
            start_event(attributes, i)
        } else {
            end_event(attributes, i)
        };
        assert(events.contains(event));
        let j = choose|j: int| 0 <= j < events.len() && events[j] == event;
        if j > 0 {
            assert(met_before(events[0], events[j]));
        }
    }
    assert(events.contains(events[events.len() - 1]));
    assert(attributes[events.last().id as int].start == last
        || attributes[events.last().id as int].end == last);
    assert(is_cut(attributes, last));
    let at = last_cut(attributes)->0;
    let i = choose|i: int|
        0 <= i < attributes.len() && ((#[trigger] attributes[i]).start == at || attributes[i].end
            == at);
    let event = if attributes[i].start == at {
        start_event(attributes, i)
    } else {
        end_event(attributes, i)
    };
    assert(events.contains(event));
    let j = choose|j: int| 0 <= j < events.len() && events[j] == event;
    if j < events.len() - 1 {
        assert(met_before(events[j], events[events.len() - 1]));
    }
}

/// The ranges in `active` but for `id`.
fn without_range(
    Ghost(attributes): Ghost<Seq<TextAttributes>>,
    active: &Vec<usize>,
    id: usize,
) -> (rest: Vec<usize>)
    requires
        in_start_order(attributes, ids(active@)),
    ensures
        in_start_order(attributes, ids(rest@)),
        forall|x: usize| #[trigger] rest@.contains(x) <==> active@.contains(x) && x != id,
{
    let mut rest: Vec<usize> = Vec::new();
    for i in 0..active.len()
        invariant
            in_start_order(attributes, ids(active@)),
            in_start_order(attributes, ids(rest@)),
            forall|x: usize| #[trigger]
                rest@.contains(x) <==> active@.take(i as int).contains(x) && x != id,
    {
        let ghost before = rest@;
        let ghost taken = active@.take(i as int);
        if active[i] != id {
            rest.push(active[i]);
        }
        proof {
            let next = active@.take(i + 1);
            assert(next =~= taken.push(active@[i as int]));
            assert forall|x: usize| #[trigger] rest@.contains(x) <==> next.contains(x) && x
                != id by {
                if taken.contains(x) {
                    let j = choose|j: int| 0 <= j < taken.len() && taken[j] == x;
                    assert(next[j] == x);
                }
                if x == active@[i as int] {
                    assert(next[i as int] == x);
                }
                if before.contains(x) {
                    let j = choose|j: int| 0 <= j < before.len() && before[j] == x;
                    assert(rest@[j] == x);
                }
                if rest@.len() > before.len() {
                    assert(rest@[before.len() as int] == active@[i as int]);
                }
            }
            assert forall|a: int, b: int| 0 <= a < b < ids(rest@).len() implies starts_before(
                attributes,
                #[trigger] ids(rest@)[a],
                #[trigger] ids(rest@)[b],
            ) by {
                if b < before.len() {
                    assert(ids(before)[a] == ids(rest@)[a]);
                    assert(ids(before)[b] == ids(rest@)[b]);
                } else {
                    assert(before.contains(before[a]));
                    let j = choose|j: int| 0 <= j < taken.len() && taken[j] == before[a];
                    assert(ids(active@)[j] == ids(rest@)[a]);
                    assert(ids(active@)[i as int] == ids(rest@)[b]);
                }
            }
        }
    }
    proof {
        lemma_take_all(active@);
    }
    rest
}

proof fn lemma_start_of_range(
    attributes: Seq<TextAttributes>,
    events: Seq<RangeEvent>,
    count: int,
    active: Seq<usize>,
)
    requires
        are_events(attributes, events),
        0 <= count < events.len(),
        events[count].starts,
        holds_open_ranges(attributes, events, count, active),
    ensures
        holds_open_ranges(attributes, events, count + 1, active.push(events[count].id)),
{
    let event = events[count];
    let next = active.push(event.id);
    assert(events.contains(event));
    assert(event == start_event(attributes, event.id as int));
    assert forall|id: usize| #[trigger] next.contains(id) <==> id < attributes.len() && is_open(
        attributes,
        events,
        count + 1,
        id as int,
    ) by {
        if active.contains(id) {
            let i = choose|i: int| 0 <= i < active.len() && active[i] == id;
            assert(next[i] == id);
        }
        if id == event.id {
            assert(next[active.len() as int] == id);
        }
        if id < attributes.len() {
            lemma_is_met_step(events, count, start_event(attributes, id as int));
            lemma_is_met_step(events, count, end_event(attributes, id as int));
        }
        if id == event.id {
            let end = end_event(attributes, id as int);
            if is_met(events, count, end) {
                let i = choose|i: int| 0 <= i < count && #[trigger] events[i] == end;
                assert(met_before(events[i], events[count]));
            }
        }
    }
    assert forall|a: int, b: int| 0 <= a < b < ids(next).len() implies starts_before(
        attributes,
        #[trigger] ids(next)[a],
        #[trigger] ids(next)[b],
    ) by {
        if b < active.len() {
            assert(ids(active)[a] == ids(next)[a]);
            assert(ids(active)[b] == ids(next)[b]);
        } else {
            assert(active.contains(active[a]));
            let start = start_event(attributes, active[a] as int);
            assert(is_met(events, count, start));
            let i = choose|i: int| 0 <= i < count && #[trigger] events[i] == start;
            assert(met_before(events[i], events[count]));
        }
    }
}

proof fn lemma_end_of_range(
    attributes: Seq<TextAttributes>,
    events: Seq<RangeEvent>,
    count: int,
    active: Seq<usize>,
    rest: Seq<usize>,
)
    requires
        are_events(attributes, events),
        0 <= count < events.len(),
        !events[count].starts,
        holds_open_ranges(attributes, events, count, active),
        in_start_order(attributes, ids(rest)),
        forall|x: usize| #[trigger]
            rest.contains(x) <==> active.contains(x) && x != events[count].id,
    ensures
        holds_open_ranges(attributes, events, count + 1, rest),
{
    let event = events[count];
    assert(events.contains(event));
    assert(event == end_event(attributes, event.id as int));
    assert forall|id: usize| #[trigger] rest.contains(id) <==> id < attributes.len() && is_open(
        attributes,
        events,
        count + 1,
        id as int,
    ) by {
        assert(active.contains(id) <==> id < attributes.len() && is_open(
            attributes,
            events,
            count,
            id as int,
        ));
        if id < attributes.len() {
            lemma_is_met_step(events, count, start_event(attributes, id as int));
            lemma_is_met_step(events, count, end_event(attributes, id as int));
        }
        if id == event.id {
            let start = start_event(attributes, id as int);
            if is_met(events, count, start) {
                let i = choose|i: int| 0 <= i < count && #[trigger] events[i] == start;
                assert(met_before(events[i], events[count]));
            }
        }
    }
}

impl<'a> HTML<'a> {
    /// Render a text with effects on ranges of its bytes.
    pub fn format_attributes(&self, text: &str, attributes: &[TextAttributes]) -> (markup: String)
        requires
            cuts_between_chars(text@, attributes@),
        ensures
            markup@ == attributes_markup(text@, attributes@),
    {
        if attributes.len() == 0 {
            return sanitize_html(text);
        }
        let events = range_events(attributes);
        let len: usize = text_byte_len(text);
        proof {
            lemma_first_and_last_event(attributes@, events@);
        }
        let mut markup = String::new();
        let mut active: Vec<usize> = Vec::new();
        let mut last: usize = events[0].at;
        proof {
            assert forall|id: usize| id < attributes@.len() implies !is_open(
                attributes@,
                events@,
                0,
                id as int,
            ) by {}
        }
        for k in 0..events.len()
            invariant
                are_events(attributes@, events@),
                cuts_between_chars(text@, attributes@),
                len == byte_len(text@),
                last == (if k == 0 {
                    events@[0].at
                } else {
                    events@[k - 1].at
                }),
                holds_open_ranges(attributes@, events@, k as int, active@),
                markup@ == pieces_markup(text@, attributes@, last as int),
        {
            let event = events[k];
            proof {
                if k > 0 {
                    assert(met_before(events@[k - 1], events@[k as int]));
                }
            }
            if event.at > last {
                proof {
                    lemma_cut_before_event(attributes@, events@, k as int);
                    lemma_open_ranges_are_active(attributes@, events@, k as int, active@);
                }
                if last < len {
                    let end: usize = if event.at < len {
                        event.at
                    } else {
                        len
                    };
                    proof {
                        vstd::utf8::encode_utf8_valid_utf8(text@);
                        vstd::utf8::is_char_boundary_start_end_of_seq(
                            vstd::utf8::encode_utf8(text@),
                        );
                        assert(forall|i: int| 0 <= i < active@.len() ==> active@.contains(
                            #[trigger] active@[i],
                        ));
                    }
                    let piece = sanitize_html(slice_text(text, last, end));
                    match self.apply_active_attributes(
                        piece.as_str(),
                        attributes,
                        active.as_slice(),
                    ) {
                        Cow::Borrowed(piece) => markup.append(piece),
                        Cow::Owned(piece) => markup.append(piece.as_str()),
                    }
                } else {
                    assert(markup@ + Seq::<char>::empty() =~= markup@);
                }
            }
            let ghost before = active@;
            if event.starts {
                active.push(event.id);
                proof {
                    lemma_start_of_range(attributes@, events@, k as int, before);
                }
            } else {
                active = without_range(Ghost(attributes@), &active, event.id);
                proof {
                    lemma_end_of_range(attributes@, events@, k as int, before, active@);
                }
            }
            last = event.at;
        }
        markup
    }

    /// Put the effects of the `active` ranges round `text`, which is markup
    /// already, the first range innermost. Where there is no effect to put
    /// round it, the text is handed back without copying it.
    pub fn apply_active_attributes<'t>(
        &self,
        text: &'t str,
        attributes: &[TextAttributes],
        active: &[usize],
    ) -> (markup: Cow<'t, str>)
        requires
            forall|i: int| 0 <= i < active@.len() ==> #[trigger] active@[i] < attributes@.len(),
        ensures
            markup@ == ranges_markup(text@, attributes@, ids(active@)),
            markup is Borrowed <==> forall|i: int|
                0 <= i < active@.len() ==> #[trigger] is_plain(
                    attributes@[active@[i] as int].effects@,
                ),
    {
        let mut owned: Option<String> = None;
        for i in 0..active.len()
            invariant
                forall|i: int|
                    0 <= i < active@.len() ==> #[trigger] active@[i] < attributes@.len(),
                (match owned {
                    Some(markup) => markup@,
                    None => text@,
                }) == ranges_markup(text@, attributes@, ids(active@).take(i as int)),
                owned is None <==> forall|a: int|
                    0 <= a < i ==> #[trigger] is_plain(attributes@[active@[a] as int].effects@),
        {
            proof {
                lemma_take_step(ids(active@), i as int);
            }
            let effects: &Vec<TextEffect> = &attributes[active[i]].effects;
            let ghost inner = ranges_markup(text@, attributes@, ids(active@).take(i as int));
            let ghost inner_plain = owned is None;
            for j in 0..effects.len()
                invariant
                    (match owned {
                        Some(markup) => markup@,
                        None => text@,
                    }) == effects_markup(inner, effects@.take(j as int)),
                    owned is None <==> inner_plain && is_plain(effects@.take(j as int)),
            {
                proof {
                    lemma_take_step(effects@, j as int);
                    assert(effects@.take(j + 1) =~= effects@.take(j as int).push(
                        effects@[j as int],
                    ));
                    assert(effects@.take(j + 1)[j as int] == effects@[j as int]);
                    assert forall|a: int| 0 <= a < j implies #[trigger] effects@.take(j as int)[a]
                        == effects@.take(j + 1)[a] by {}
                }
                if !matches!(effects[j], TextEffect::Default) {
                    let current = match &owned {
                        Some(markup) => markup.as_str(),
                        None => text,
                    };
                    let next = match self.format_effect(current, &effects[j]) {
                        Cow::Borrowed(markup) => markup.to_string(),
                        Cow::Owned(markup) => markup,
                    };
                    owned = Some(next);
                }
            }
            proof {
                lemma_take_all(effects@);
            }
        }
        proof {
            lemma_take_all(ids(active@));
        }
        match owned {
            Some(markup) => Cow::Owned(markup),
            None => Cow::Borrowed(text),
        }
    }
}

/// Every position at which a range starts or ends.
fn cut_positions(attributes: &[TextAttributes]) -> (positions: Vec<usize>)
    ensures
        forall|at: usize| #[trigger] positions@.contains(at) <==> is_cut(attributes@, at as int),
{
    let mut positions: Vec<usize> = Vec::new();
    for i in 0..attributes.len()
        invariant
            positions@.len() == 2 * i,
            forall|j: int|
                0 <= j < i ==> positions@[2 * j] == (#[trigger] attributes@[j]).start
                    && positions@[2 * j + 1] == attributes@[j].end,
    {
        positions.push(attributes[i].start);
        positions.push(attributes[i].end);
    }
    proof {
        assert forall|at: usize| #[trigger] positions@.contains(at) <==> is_cut(
            attributes@,
            at as int,
        ) by {
            if positions@.contains(at) {
                let k = choose|k: int| 0 <= k < positions@.len() && positions@[k] == at;
                let j = k / 2;
                assert(attributes@[j].start == at || attributes@[j].end == at);
            }
            if is_cut(attributes@, at as int) {
                let j = choose|j: int|
                    0 <= j < attributes@.len() && ((#[trigger] attributes@[j]).start == at
                        || attributes@[j].end == at);
                assert(positions@[2 * j] == at || positions@[2 * j + 1] == at);
            }
        }
    }
    positions
}

/// Whether the ranges cut the text between two characters only, so that it can
/// be rendered with them.
pub fn can_format_attributes(text: &str, attributes: &[TextAttributes]) -> (can: bool)
    ensures
        can == cuts_between_chars(text@, attributes@),
{
    let positions = cut_positions(attributes);
    let len: usize = text_byte_len(text);
    for i in 0..positions.len()
        invariant
            len == byte_len(text@),
            forall|at: usize| #[trigger]
                positions@.contains(at) <==> is_cut(attributes@, at as int),
            forall|a: int, b: int|
                0 <= a < i && 0 <= b < positions@.len() ==> fits(
                    text@,
                    #[trigger] positions@[a] as int,
                    #[trigger] positions@[b] as int,
                ),
    {
        for j in 0..positions.len()
            invariant
                i < positions@.len(),
                len == byte_len(text@),
                forall|at: usize| #[trigger]
                    positions@.contains(at) <==> is_cut(attributes@, at as int),
                forall|b: int|
                    0 <= b < j ==> fits(
                        text@,
                        positions@[i as int] as int,
                        #[trigger] positions@[b] as int,
                    ),
        {
            let from: usize = positions[i];
            let to: usize = positions[j];
            if from < to && from < len && !(text.is_char_boundary(from) && (to >= len
                || text.is_char_boundary(to))) {
                assert(positions@.contains(positions@[i as int]));
                assert(positions@.contains(positions@[j as int]));
                assert(is_cut(attributes@, from as int) && is_cut(attributes@, to as int));
                return false;
            }
        }
    }
    proof {
        assert forall|from: int, to: int|
            #[trigger] is_cut(attributes@, from) && #[trigger] is_cut(attributes@, to) && from < to
                && from < byte_len(text@) implies on_boundary(text@, from) && (to < byte_len(
            text@,
        ) ==> on_boundary(text@, to)) by {
            assert(positions@.contains(from as usize));
            assert(positions@.contains(to as usize));
            let a = choose|a: int| 0 <= a < positions@.len() && positions@[a] == from as usize;
            let b = choose|b: int| 0 <= b < positions@.len() && positions@[b] == to as usize;
            assert(fits(text@, positions@[a] as int, positions@[b] as int));
        }
    }
    true
}

spec fn fits(text: Seq<char>, from: int, to: int) -> bool {
    from < to && from < byte_len(text) ==> on_boundary(text, from) && (to < byte_len(text)
        ==> on_boundary(text, to))
}

// What holds of every rendering.

proof fn lemma_plain_effects(markup: Seq<char>, effects: Seq<TextEffect>)
    requires
        is_plain(effects),
    ensures
        effects_markup(markup, effects) == markup,
    decreases effects.len(),
{
    if effects.len() > 0 {
        assert(effects[effects.len() - 1] is Default);
        assert forall|i: int| 0 <= i < effects.drop_last().len() implies (
        #[trigger] effects.drop_last()[i]) is Default by {
            assert(effects[i] is Default);
        }
        lemma_plain_effects(markup, effects.drop_last());
    }
}

proof fn lemma_plain_ranges(markup: Seq<char>, attributes: Seq<TextAttributes>, order: Seq<int>)
    requires
        forall|i: int| 0 <= i < attributes.len() ==> is_plain(#[trigger] attributes[i].effects@),
        forall|a: int| 0 <= a < order.len() ==> 0 <= #[trigger] order[a] < attributes.len(),
    ensures
        ranges_markup(markup, attributes, order) == markup,
    decreases order.len(),
{
    if order.len() > 0 {
        assert(0 <= order[order.len() - 1] < attributes.len());
        lemma_plain_ranges(markup, attributes, order.drop_last());
        lemma_plain_effects(markup, attributes[order.last()].effects@);
    }
}

/// A text without ranges is the escaped text.
pub proof fn law_no_ranges(text: Seq<char>)
    ensures
        attributes_markup(text, Seq::empty()) == escaped(text),
{
}

/// A position, or the limit where it lies behind that.
pub open spec fn at_most(at: int, limit: int) -> int {
    if at < limit {
        at
    } else {
        limit
    }
}

proof fn lemma_plain_pieces(text: Seq<char>, attributes: Seq<TextAttributes>, first: int, to: int)
    requires
        cuts_between_chars(text, attributes),
        forall|i: int| 0 <= i < attributes.len() ==> is_plain(#[trigger] attributes[i].effects@),
        is_cut(attributes, first),
        forall|at: int| #[trigger] is_cut(attributes, at) ==> first <= at,
        is_cut(attributes, to),
    ensures
        pieces_markup(text, attributes, to) == escaped(
            byte_slice(
                text,
                at_most(first, byte_len(text) as int),
                at_most(to, byte_len(text) as int),
            ),
        ),
    decreases to,
{
    let len = byte_len(text) as int;
    lemma_cut_before(attributes, to);
    vstd::utf8::encode_utf8_valid_utf8(text);
    vstd::utf8::is_char_boundary_start_end_of_seq(vstd::utf8::encode_utf8(text));
    match cut_before(attributes, to) {
        Some(from) => {
            assert(first <= from < to);
            lemma_plain_pieces(text, attributes, first, from);
            if from < len {
                let order = active_ranges(attributes, attributes.len(), from);
                lemma_active_ranges(attributes, attributes.len(), from);
                assert forall|a: int| 0 <= a < order.len() implies 0 <= #[trigger] order[a]
                    < attributes.len() by {
                    assert(order.contains(order[a]));
                }
                let end = at_most(to, len);
                lemma_plain_ranges(escaped(byte_slice(text, from, end)), attributes, order);
                assert(first < to);
                assert(on_boundary(text, first));
                lemma_byte_slice_join(text, first, from, end);
                law_escaped_concat(byte_slice(text, first, from), byte_slice(text, from, end));
            } else {
                assert(pieces_markup(text, attributes, to) =~= pieces_markup(
                    text,
                    attributes,
                    from,
                ));
            }
        },
        None => {
            assert(to == first);
            lemma_byte_slice_none(text, at_most(first, len));
        },
    }
}

/// Ranges without effects change nothing: what they cover of the text is
/// rendered as the escaped text.
pub proof fn law_plain_ranges(
    text: Seq<char>,
    attributes: Seq<TextAttributes>,
    first: int,
    last: int,
)
    requires
        cuts_between_chars(text, attributes),
        forall|i: int| 0 <= i < attributes.len() ==> is_plain(#[trigger] attributes[i].effects@),
        is_cut(attributes, first),
        is_cut(attributes, last),
        forall|at: int| #[trigger] is_cut(attributes, at) ==> first <= at <= last,
    ensures
        first <= byte_len(text) ==> attributes_markup(text, attributes) == escaped(
            byte_slice(
                text,
                first,
                if last < byte_len(text) {
                    last
                } else {
                    byte_len(text) as int
                },
            ),
        ),
        byte_len(text) < first ==> attributes_markup(text, attributes) == Seq::<char>::empty(),
        first == 0 && byte_len(text) <= last ==> attributes_markup(text, attributes) == escaped(
            text,
        ),
{
    lemma_cut_before(attributes, usize::MAX + 1);
    assert(last_cut(attributes) == Some(last));
    lemma_plain_pieces(text, attributes, first, last);
    lemma_byte_slice_all(text);
    lemma_byte_slice_none(text, byte_len(text) as int);
}

/// Effects on the whole of a text are put round the escaped text, the first
/// effect innermost.
pub proof fn law_one_range(text: Seq<char>, attribute: TextAttributes)
    requires
        attribute.start == 0,
        attribute.end == byte_len(text),
        byte_len(text) > 0,
    ensures
        attributes_markup(text, seq![attribute]) == effects_markup(
            escaped(text),
            attribute.effects@,
        ),
{
    let attributes = seq![attribute];
    let len = byte_len(text) as int;
    assert(attributes.drop_last() =~= Seq::empty());
    reveal_with_fuel(cut_before, 3);
    reveal_with_fuel(pieces_markup, 3);
    reveal_with_fuel(active_ranges, 2);
    assert(active_ranges(attributes, 1, 0) =~= seq![0int]);
    reveal_with_fuel(ranges_markup, 2);
    lemma_byte_slice_all(text);
    assert(seq![0int].drop_last() =~= Seq::<int>::empty());
    assert(pieces_markup(text, attributes, len) =~= piece_markup(text, attributes, 0, len));
}

/// Whether the ranges stand side by side: none is empty, and each starts where
/// the one before it ends.
pub open spec fn side_by_side(attributes: Seq<TextAttributes>) -> bool {
    &&& forall|i: int|
        0 <= i < attributes.len() ==> (#[trigger] attributes[i]).start < attributes[i].end
    &&& forall|i: int|
        1 <= i < attributes.len() ==> (#[trigger] attributes[i]).start == attributes[i - 1].end
}

/// The first `count` ranges one after the other, each the escaped text of the
/// range with its own effects.
pub open spec fn ranges_in_turn(
    text: Seq<char>,
    attributes: Seq<TextAttributes>,
    count: nat,
) -> Seq<char>
    decreases count,
{
    if count == 0 {
        Seq::empty()
    } else {
        let range = attributes[count - 1];
        ranges_in_turn(text, attributes, (count - 1) as nat) + effects_markup(
            escaped(byte_slice(text, range.start as int, range.end as int)),
            range.effects@,
        )
    }
}

proof fn lemma_side_by_side(attributes: Seq<TextAttributes>, i: int, j: int)
    requires
        side_by_side(attributes),
        0 <= i < j < attributes.len(),
    ensures
        attributes[i].end <= attributes[j].start,
    decreases j - i,
{
    assert(attributes[j].start == attributes[j - 1].end);
    if i < j - 1 {
        lemma_side_by_side(attributes, i, j - 1);
        assert(attributes[j - 1].start < attributes[j - 1].end);
    }
}

proof fn lemma_ranges_in_turn(text: Seq<char>, attributes: Seq<TextAttributes>, k: int)
    requires
        side_by_side(attributes),
        0 <= k < attributes.len(),
        attributes.last().end <= byte_len(text),
    ensures
        pieces_markup(text, attributes, attributes[k].end as int) == ranges_in_turn(
            text,
            attributes,
            (k + 1) as nat,
        ),
    decreases k,
{
    let range = attributes[k];
    let from = range.start as int;
    let to = range.end as int;
    assert(from < to);
    if k < attributes.len() - 1 {
        lemma_side_by_side(attributes, k, attributes.len() - 1);
        assert(attributes.last().start < attributes.last().end);
    }
    // The cut before the end of a range is its start.
    lemma_cut_before(attributes, to);
    assert(is_cut(attributes, from));
    let last = cut_before(attributes, to)->0;
    assert(is_cut(attributes, last));
    let i = choose|i: int|
        0 <= i < attributes.len() && ((#[trigger] attributes[i]).start == last
            || attributes[i].end == last);
    assert(attributes[i].start < attributes[i].end);
    if i < k {
        lemma_side_by_side(attributes, i, k);
    } else if i > k {
        lemma_side_by_side(attributes, k, i);
    }
    assert(last == from);
    // The range alone is active there.
    let order = active_ranges(attributes, attributes.len(), from);
    lemma_active_ranges(attributes, attributes.len(), from);
    assert forall|x: int| #[trigger] order.contains(x) <==> seq![k].contains(x) by {
        assert(seq![k][0] == k);
        assert(seq![k].contains(k));
        if 0 <= x < attributes.len() {
            assert(attributes[x].start < attributes[x].end);
            if x < k {
                lemma_side_by_side(attributes, x, k);
            } else if x > k {
                lemma_side_by_side(attributes, k, x);
            }
        }
    }
    lemma_start_order_unique(attributes, order, seq![k]);
    reveal_with_fuel(ranges_markup, 2);
    assert(seq![k].drop_last() =~= Seq::<int>::empty());
    // What stands before it is the ranges before it.
    if k == 0 {
        lemma_cut_before(attributes, from);
        if cut_before(attributes, from) is Some {
            let at = cut_before(attributes, from)->0;
            let j = choose|j: int|
                0 <= j < attributes.len() && ((#[trigger] attributes[j]).start == at
                    || attributes[j].end == at);
            assert(attributes[j].start < attributes[j].end);
            if j > 0 {
                lemma_side_by_side(attributes, 0, j);
            }
        }
        assert(pieces_markup(text, attributes, from) =~= Seq::<char>::empty());
        assert(ranges_in_turn(text, attributes, 0) =~= Seq::<char>::empty());
    } else {
        assert(attributes[k].start == attributes[k - 1].end);
        lemma_ranges_in_turn(text, attributes, k - 1);
    }
}

/// Ranges that stand side by side are rendered one after the other, each with
/// its own effects and no others.
pub proof fn law_ranges_side_by_side(text: Seq<char>, attributes: Seq<TextAttributes>)
    requires
        attributes.len() > 0,
        side_by_side(attributes),
        attributes.last().end <= byte_len(text),
    ensures
        attributes_markup(text, attributes) == ranges_in_turn(text, attributes, attributes.len()),
{
    let n = attributes.len() as int;
    lemma_cut_before(attributes, usize::MAX + 1);
    let to = attributes.last().end as int;
    assert(attributes[n - 1].end == to);
    assert(is_cut(attributes, to));
    let last = last_cut(attributes)->0;
    let i = choose|i: int|
        0 <= i < attributes.len() && ((#[trigger] attributes[i]).start == last
            || attributes[i].end == last);
    assert(attributes[i].start < attributes[i].end);
    if i < n - 1 {
        lemma_side_by_side(attributes, i, n - 1);
        assert(attributes[n - 1].start < attributes[n - 1].end);
    }
    lemma_ranges_in_turn(text, attributes, n - 1);
}

// What holds of any number of ranges.

/// Whether a range holds the text behind byte `at`: it has started, and it has
/// not ended. A range that ends no later than it starts never ends.
pub open spec fn holds_byte(attribute: TextAttributes, at: int) -> bool {
    attribute.start <= at && (at < attribute.end || attribute.end <= attribute.start)
}

/// Whether `order` lists the ranges that hold the text behind byte `at`, each
/// once, by where they start, and those that start together as they are listed.
pub open spec fn lists_holders(attributes: Seq<TextAttributes>, at: int, order: Seq<int>) -> bool {
    &&& forall|x: int| #[trigger]
        order.contains(x) <==> 0 <= x < attributes.len() && holds_byte(attributes[x], at)
    &&& forall|a: int, b: int|
        0 <= a < b < order.len() ==> {
            let first = attributes[#[trigger] order[a]];
            let second = attributes[#[trigger] order[b]];
            first.start < second.start || (first.start == second.start && order[a] < order[b])
        }
}

/// The pieces before a cut stand at the start of the pieces before any later
/// cut.
proof fn lemma_pieces_go_on(text: Seq<char>, attributes: Seq<TextAttributes>, from: int, to: int)
    requires
        is_cut(attributes, from),
        0 <= from <= to,
        is_cut(attributes, to),
    ensures
        exists|rest: Seq<char>|
            pieces_markup(text, attributes, to) == #[trigger] (pieces_markup(
                text,
                attributes,
                from,
            ) + rest),
    decreases to,
{
    let before = pieces_markup(text, attributes, from);
    if from == to {
        assert(pieces_markup(text, attributes, to) =~= before + Seq::<char>::empty());
    } else {
        lemma_cut_before(attributes, to);
        let last = cut_before(attributes, to)->0;
        lemma_pieces_go_on(text, attributes, from, last);
        let rest = choose|rest: Seq<char>|
            pieces_markup(text, attributes, last) == #[trigger] (before + rest);
        let piece = piece_markup(text, attributes, last, to);
        assert(before + rest + piece =~= before + (rest + piece));
    }
}

/// The text between two neighbouring cuts is shown, escaped, with the effects of
/// just the ranges that hold it: the range that starts first innermost, and of
/// those that start together the one that is listed first.
pub proof fn law_text_has_the_effects_of_its_ranges(
    text: Seq<char>,
    attributes: Seq<TextAttributes>,
    from: int,
    to: int,
    order: Seq<int>,
)
    requires
        is_cut(attributes, from),
        is_cut(attributes, to),
        0 <= from < to,
        from < byte_len(text),
        forall|at: int| #[trigger] is_cut(attributes, at) ==> at <= from || to <= at,
        lists_holders(attributes, from, order),
    ensures
        in_order(
            attributes_markup(text, attributes),
            seq![
                ranges_markup(
                    escaped(byte_slice(text, from, at_most(to, byte_len(text) as int))),
                    attributes,
                    order,
                ),
            ],
        ),
{
    lemma_cut_before(attributes, to);
    let actives = active_ranges(attributes, attributes.len(), from);
    lemma_active_ranges(attributes, attributes.len(), from);
    assert forall|x: int| #[trigger] order.contains(x) <==> actives.contains(x) by {
        assert(0 <= x < attributes.len() ==> (holds_byte(attributes[x], from) <==> is_active(
            attributes[x],
            from,
        )));
    }
    assert(in_start_order(attributes, order)) by {
        assert forall|a: int, b: int| 0 <= a < b < order.len() implies starts_before(
            attributes,
            #[trigger] order[a],
            #[trigger] order[b],
        ) by {}
    }
    lemma_start_order_unique(attributes, order, actives);
    let piece = piece_markup(text, attributes, from, to);
    lemma_itself(piece);
    lemma_within(pieces_markup(text, attributes, from), piece, Seq::empty(), seq![piece]);
    let before = pieces_markup(text, attributes, to);
    assert(pieces_markup(text, attributes, from) + piece + Seq::<char>::empty() =~= before);
    lemma_cut_before(attributes, usize::MAX + 1);
    let i = choose|i: int|
        0 <= i < attributes.len() && ((#[trigger] attributes[i]).start == to || attributes[i].end
            == to);
    assert(to <= usize::MAX);
    let last = last_cut(attributes)->0;
    lemma_pieces_go_on(text, attributes, to, last);
    let rest = choose|rest: Seq<char>|
        pieces_markup(text, attributes, last) == #[trigger] (before + rest);
    lemma_gap(before, rest, seq![piece]);
}

/// Ranges that start and end between characters, or past the end of the text,
/// can be rendered, however they overlap; so can any ranges that all start and
/// end at one place.
pub proof fn law_ranges_between_characters_fit(text: Seq<char>, attributes: Seq<TextAttributes>)
    ensures
        (forall|i: int|
            0 <= i < attributes.len() ==> {
                &&& (#[trigger] attributes[i]).start < byte_len(text) ==> on_boundary(
                    text,
                    attributes[i].start as int,
                )
                &&& attributes[i].end < byte_len(text) ==> on_boundary(
                    text,
                    attributes[i].end as int,
                )
            }) ==> cuts_between_chars(text, attributes),
        (forall|a: int, b: int|
            #[trigger] is_cut(attributes, a) && #[trigger] is_cut(attributes, b) ==> a == b)
            ==> cuts_between_chars(text, attributes),
        attributes.len() == 0 ==> cuts_between_chars(text, attributes),
{
}

} // verus!
