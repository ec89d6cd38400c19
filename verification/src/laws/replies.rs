//! Replies and reactions below the part of a message that they belong to.
use vstd::prelude::*;

use crate::config::Config;
use crate::error::RuntimeErrorView;
use crate::escape::escaped;
use crate::html::message::{
    message_markup, replies_markup, reply_lines, tapback_lines, tapbacks_markup,
};
use crate::html::tapback::tapback_markup;
use crate::laws::order::{
    in_order, lemma_gap, lemma_joined_segment, lemma_nothing, lemma_segment, lemma_within,
};
use crate::reply::{
    is_lifted, lifts, lifts_replies, part_replies, part_tapbacks, rendered_replies,
    rendered_tapbacks, RenderContext, ReplyEntry, ThreadedMessage,
};
use crate::tapback::TapbackMessage;

verus! {

/// Those of the messages that are no reactions, in their order.
pub open spec fn without_reactions(messages: Seq<ThreadedMessage>) -> Seq<ThreadedMessage> {
    messages.filter(|message: ThreadedMessage| message.message.reaction() is None)
}

proof fn lemma_replies_filtered(config: Config, replies: Seq<ThreadedMessage>, count: nat)
    requires
        count <= replies.len(),
        rendered_replies(config, replies, count) is Ok,
    ensures
        ({
            let entries = rendered_replies(config, replies, count)->Ok_0;
            let shown = without_reactions(replies.take(count as int));
            &&& entries.len() == shown.len()
            &&& forall|k: int|
                0 <= k < shown.len() ==> {
                    let (guid, body) = #[trigger] entries[k];
                    guid == shown[k].message.guid@ && message_markup(
                        config,
                        shown[k],
                        RenderContext::Reply,
                    ) == Ok::<Seq<char>, RuntimeErrorView>(body)
                }
        }),
    decreases count,
{
    reveal(Seq::filter);
    if count > 0 {
        lemma_replies_filtered(config, replies, (count - 1) as nat);
        assert(replies.take(count as int).drop_last() =~= replies.take(count - 1));
        assert(replies.take(count as int).last() == replies[count - 1]);
    }
}

/// The thread below a part is the list of its replies without the reactions:
/// none is lost, none is added, and they stand in their order, each under its
/// own identifier and as it is rendered in a thread.
pub proof fn law_thread_is_all_replies_in_order(config: Config, replies: Vec<ThreadedMessage>)
    requires
        part_replies(config, Some(replies)) is Ok,
    ensures
        ({
            let shown = without_reactions(replies@);
            match part_replies(config, Some(replies))->Ok_0 {
                Some(entries) => {
                    &&& shown.len() > 0
                    &&& entries.len() == shown.len()
                    &&& forall|k: int|
                        0 <= k < shown.len() ==> {
                            let (guid, body) = #[trigger] entries[k];
                            guid == shown[k].message.guid@ && message_markup(
                                config,
                                shown[k],
                                RenderContext::Reply,
                            ) == Ok::<Seq<char>, RuntimeErrorView>(body)
                        }
                },
                None => shown.len() == 0,
            }
        }),
{
    lemma_replies_filtered(config, replies@, replies@.len());
    assert(replies@.take(replies@.len() as int) =~= replies@);
}

/// Every reply that is no reaction is in the thread.
pub proof fn law_every_reply_is_in_the_thread(
    config: Config,
    replies: Vec<ThreadedMessage>,
    i: int,
)
    requires
        part_replies(config, Some(replies)) is Ok,
        0 <= i < replies@.len(),
        replies@[i].message.reaction() is None,
    ensures
        part_replies(config, Some(replies))->Ok_0 matches Some(entries) && message_markup(
            config,
            replies@[i],
            RenderContext::Reply,
        ) matches Ok(body) && entries.contains((replies@[i].message.guid@, body)),
{
    law_thread_is_all_replies_in_order(config, replies);
    let pred = |message: ThreadedMessage| message.message.reaction() is None;
    replies@.lemma_filter_contains(pred, i);
    let shown = without_reactions(replies@);
    assert(shown.contains(replies@[i]));
    let k = choose|k: int| 0 <= k < shown.len() && shown[k] == replies@[i];
    let entries = part_replies(config, Some(replies))->Ok_0->0;
    assert(entries[k] == entries[k]);
    let body = message_markup(config, replies@[i], RenderContext::Reply)->Ok_0;
    assert(entries[k] == (replies@[i].message.guid@, body));
}

proof fn lemma_replies_outcome(config: Config, replies: Seq<ThreadedMessage>, count: nat)
    requires
        count <= replies.len(),
    ensures
        match rendered_replies(config, replies, count) {
            Ok(_) => forall|i: int|
                0 <= i < count && replies[i].message.reaction() is None
                    ==> #[trigger] message_markup(config, replies[i], RenderContext::Reply) is Ok,
            Err(why) => exists|i: int|
                {
                    &&& 0 <= i < count
                    &&& replies[i].message.reaction() is None
                    &&& #[trigger] message_markup(config, replies[i], RenderContext::Reply) == Err::<
                        Seq<char>,
                        RuntimeErrorView,
                    >(why)
                    &&& forall|j: int|
                        0 <= j < i && replies[j].message.reaction() is None
                            ==> #[trigger] message_markup(
                            config,
                            replies[j],
                            RenderContext::Reply,
                        ) is Ok
                },
        },
    decreases count,
{
    if count > 0 {
        lemma_replies_outcome(config, replies, (count - 1) as nat);
        let last = replies[count - 1];
        if rendered_replies(config, replies, (count - 1) as nat) is Ok
            && last.message.reaction() is None {
            assert(message_markup(config, last, RenderContext::Reply) is Ok || message_markup(
                config,
                last,
                RenderContext::Reply,
            ) is Err);
        }
    }
}

/// A thread fails with the first of its replies that fails, and only then.
pub proof fn law_thread_fails_with_its_first_failure(
    config: Config,
    replies: Vec<ThreadedMessage>,
)
    ensures
        match part_replies(config, Some(replies)) {
            Ok(_) => forall|i: int|
                0 <= i < replies@.len() && replies@[i].message.reaction() is None
                    ==> #[trigger] message_markup(
                    config,
                    replies@[i],
                    RenderContext::Reply,
                ) is Ok,
            Err(why) => exists|i: int|
                {
                    &&& 0 <= i < replies@.len()
                    &&& replies@[i].message.reaction() is None
                    &&& #[trigger] message_markup(config, replies@[i], RenderContext::Reply)
                        == Err::<Seq<char>, RuntimeErrorView>(why)
                    &&& forall|j: int|
                        0 <= j < i && replies@[j].message.reaction() is None
                            ==> #[trigger] message_markup(
                            config,
                            replies@[j],
                            RenderContext::Reply,
                        ) is Ok
                },
        },
{
    lemma_replies_outcome(config, replies@, replies@.len());
}

/// A part to which nobody replied has no thread.
pub proof fn law_no_replies_no_thread(config: Config)
    ensures
        part_replies(config, None) matches Ok(None),
{
}

/// Those of the reactions that are shown, in their order.
pub open spec fn shown_reactions(config: Config, tapbacks: Seq<TapbackMessage>) -> Seq<
    TapbackMessage,
> {
    tapbacks.filter(
        |tapback: TapbackMessage|
            tapback_markup(config, tapback) matches Ok(markup) && markup.len() > 0,
    )
}

proof fn lemma_tapbacks_filtered(config: Config, tapbacks: Seq<TapbackMessage>, count: nat)
    requires
        count <= tapbacks.len(),
        rendered_tapbacks(config, tapbacks, count) is Ok,
    ensures
        ({
            let markups = rendered_tapbacks(config, tapbacks, count)->Ok_0;
            let shown = shown_reactions(config, tapbacks.take(count as int));
            &&& markups.len() == shown.len()
            &&& forall|k: int|
                0 <= k < shown.len() ==> tapback_markup(config, shown[k]) == Ok::<
                    Seq<char>,
                    RuntimeErrorView,
                >(#[trigger] markups[k])
        }),
    decreases count,
{
    reveal(Seq::filter);
    if count > 0 {
        lemma_tapbacks_filtered(config, tapbacks, (count - 1) as nat);
        assert(tapbacks.take(count as int).drop_last() =~= tapbacks.take(count - 1));
        assert(tapbacks.take(count as int).last() == tapbacks[count - 1]);
    }
}

/// What is shown of the reactions to a part is the list that is recorded for
/// this part of this message, without those that render as nothing: none is
/// lost, none is added, and they stand in their order.
pub proof fn law_reactions_shown_are_those_recorded(config: Config, guid: Seq<char>, part: usize)
    requires
        part_tapbacks(config, guid, part) is Ok,
    ensures
        match (config.tapbacks_of(guid, part), part_tapbacks(config, guid, part)->Ok_0) {
            (Some(recorded), Some(markups)) => {
                let shown = shown_reactions(config, recorded);
                &&& shown.len() > 0
                &&& markups.len() == shown.len()
                &&& forall|k: int|
                    0 <= k < shown.len() ==> tapback_markup(config, shown[k]) == Ok::<
                        Seq<char>,
                        RuntimeErrorView,
                    >(#[trigger] markups[k])
            },
            (Some(recorded), None) => shown_reactions(config, recorded).len() == 0,
            (None, shown) => shown is None,
        },
{
    if let Some(recorded) = config.tapbacks_of(guid, part) {
        lemma_tapbacks_filtered(config, recorded, recorded.len());
        assert(recorded.take(recorded.len() as int) =~= recorded);
    }
}

/// Every reaction that is recorded for a part and does not render as nothing is
/// among those shown there.
pub proof fn law_every_reaction_is_shown(config: Config, guid: Seq<char>, part: usize, i: int)
    requires
        part_tapbacks(config, guid, part) is Ok,
        config.tapbacks_of(guid, part) is Some,
        0 <= i < config.tapbacks_of(guid, part)->0.len(),
        tapback_markup(config, config.tapbacks_of(guid, part)->0[i]) matches Ok(markup)
            && markup.len() > 0,
    ensures
        part_tapbacks(config, guid, part)->Ok_0 matches Some(markups) && markups.contains(
            tapback_markup(config, config.tapbacks_of(guid, part)->0[i])->Ok_0,
        ),
{
    law_reactions_shown_are_those_recorded(config, guid, part);
    let recorded = config.tapbacks_of(guid, part)->0;
    let pred = |tapback: TapbackMessage|
        tapback_markup(config, tapback) matches Ok(markup) && markup.len() > 0;
    assert(pred(recorded[i]));
    recorded.lemma_filter_contains(pred, i);
    let shown = shown_reactions(config, recorded);
    assert(shown == recorded.filter(pred));
    let k = choose|k: int| 0 <= k < shown.len() && shown[k] == recorded[i];
    let markups = part_tapbacks(config, guid, part)->Ok_0->0;
    assert(tapback_markup(config, shown[k]) == Ok::<Seq<char>, RuntimeErrorView>(markups[k]));
}

proof fn lemma_tapbacks_outcome(config: Config, tapbacks: Seq<TapbackMessage>, count: nat)
    requires
        count <= tapbacks.len(),
    ensures
        match rendered_tapbacks(config, tapbacks, count) {
            Ok(_) => forall|i: int|
                0 <= i < count ==> #[trigger] tapback_markup(config, tapbacks[i]) is Ok,
            Err(why) => exists|i: int|
                {
                    &&& 0 <= i < count
                    &&& #[trigger] tapback_markup(config, tapbacks[i]) == Err::<
                        Seq<char>,
                        RuntimeErrorView,
                    >(why)
                    &&& forall|j: int|
                        0 <= j < i ==> #[trigger] tapback_markup(config, tapbacks[j]) is Ok
                },
        },
    decreases count,
{
    if count > 0 {
        lemma_tapbacks_outcome(config, tapbacks, (count - 1) as nat);
        assert(tapback_markup(config, tapbacks[count - 1]) is Ok || tapback_markup(
            config,
            tapbacks[count - 1],
        ) is Err);
    }
}

/// The reactions to a part fail with the first of them that fails, and only
/// then.
pub proof fn law_reactions_fail_with_their_first_failure(
    config: Config,
    guid: Seq<char>,
    part: usize,
)
    requires
        config.tapbacks_of(guid, part) is Some,
    ensures
        ({
            let recorded = config.tapbacks_of(guid, part)->0;
            match part_tapbacks(config, guid, part) {
                Ok(_) => forall|i: int|
                    0 <= i < recorded.len() ==> #[trigger] tapback_markup(config, recorded[i])
                        is Ok,
                Err(why) => exists|i: int|
                    {
                        &&& 0 <= i < recorded.len()
                        &&& #[trigger] tapback_markup(config, recorded[i]) == Err::<
                            Seq<char>,
                            RuntimeErrorView,
                        >(why)
                        &&& forall|j: int|
                            0 <= j < i ==> #[trigger] tapback_markup(config, recorded[j]) is Ok
                    },
            }
        }),
{
    let recorded = config.tapbacks_of(guid, part)->0;
    lemma_tapbacks_outcome(config, recorded, recorded.len());
}

// How the lists are written.

/// Reactions are written one after the other: those of two lists together are
/// those of the first and then those of the second.
pub proof fn law_tapback_lines_concat(a: Seq<Seq<char>>, b: Seq<Seq<char>>)
    ensures
        tapback_lines(a + b) == tapback_lines(a) + tapback_lines(b),
    decreases b.len(),
{
    if b.len() == 0 {
        assert(a + b =~= a);
        assert(tapback_lines(a) + tapback_lines(b) =~= tapback_lines(a));
    } else {
        assert((a + b).drop_last() =~= a + b.drop_last());
        law_tapback_lines_concat(a, b.drop_last());
        assert(tapback_lines(a + b) =~= tapback_lines(a) + tapback_lines(b));
    }
}

/// One reaction is one line, which shows it once.
pub proof fn law_one_tapback_line(tapback: Seq<char>)
    ensures
        tapback_lines(seq![tapback]) == "\n    <div class=\"tapback\">"@ + tapback + "</div>"@,
{
    reveal_with_fuel(tapback_lines, 2);
    assert(seq![tapback].drop_last() =~= Seq::<Seq<char>>::empty());
    assert(tapback_lines(seq![tapback]) =~= "\n    <div class=\"tapback\">"@ + tapback
        + "</div>"@);
}

/// One reply is one line, which shows it once, under its identifier.
pub proof fn law_one_reply_line(guid: Seq<char>, body: Seq<char>)
    ensures
        reply_lines(seq![(guid, body)]) == "\n    <div class=\"reply\" id=\""@ + escaped(guid)
            + "\">"@ + body + "</div>"@,
{
    reveal_with_fuel(reply_lines, 2);
    assert(seq![(guid, body)].drop_last() =~= Seq::<(Seq<char>, Seq<char>)>::empty());
    assert(reply_lines(seq![(guid, body)]) =~= "\n    <div class=\"reply\" id=\""@ + escaped(guid)
        + "\">"@ + body + "</div>"@);
}

proof fn lemma_tapback_lines_show(tapbacks: Seq<Seq<char>>)
    ensures
        in_order(tapback_lines(tapbacks), tapbacks),
    decreases tapbacks.len(),
{
    if tapbacks.len() == 0 {
        lemma_nothing(tapback_lines(tapbacks));
        assert(tapbacks =~= Seq::empty());
    } else {
        let before = tapback_lines(tapbacks.drop_last());
        lemma_tapback_lines_show(tapbacks.drop_last());
        lemma_gap(before, "\n    <div class=\"tapback\">"@, tapbacks.drop_last());
        let opened = before + "\n    <div class=\"tapback\">"@;
        lemma_segment(opened, tapbacks.last(), tapbacks.drop_last());
        assert(tapbacks.drop_last().push(tapbacks.last()) =~= tapbacks);
        lemma_gap(opened + tapbacks.last(), "</div>"@, tapbacks);
    }
}

/// The block of reactions shows each of them, in their order. Where there are
/// none, there is no block.
pub proof fn law_block_shows_all_reactions(tapbacks: Seq<Seq<char>>)
    ensures
        in_order(tapbacks_markup(Some(tapbacks)), tapbacks),
        tapbacks_markup(None).len() == 0,
{
    lemma_tapback_lines_show(tapbacks);
    let lines = tapback_lines(tapbacks);
    lemma_within(
        "\n<hr><p>Tapbacks:</p>\n<div class=\"tapbacks\">"@,
        lines,
        "\n</div>"@,
        tapbacks,
    );
}

/// Replies are written one after the other: those of two lists together are
/// those of the first and then those of the second.
pub proof fn law_reply_lines_concat(a: Seq<(Seq<char>, Seq<char>)>, b: Seq<(Seq<char>, Seq<char>)>)
    ensures
        reply_lines(a + b) == reply_lines(a) + reply_lines(b),
    decreases b.len(),
{
    if b.len() == 0 {
        assert(a + b =~= a);
        assert(reply_lines(a) + reply_lines(b) =~= reply_lines(a));
    } else {
        assert((a + b).drop_last() =~= a + b.drop_last());
        law_reply_lines_concat(a, b.drop_last());
        assert(reply_lines(a + b) =~= reply_lines(a) + reply_lines(b));
    }
}

/// What is read of a thread: for each reply the anchor under its identifier,
/// and then the reply.
pub open spec fn thread_segments(replies: Seq<(Seq<char>, Seq<char>)>) -> Seq<Seq<char>>
    decreases replies.len(),
{
    if replies.len() == 0 {
        Seq::empty()
    } else {
        let (guid, body) = replies.last();
        thread_segments(replies.drop_last()).push(
            "\n    <div class=\"reply\" id=\""@ + escaped(guid),
        ).push(body)
    }
}

proof fn lemma_reply_lines_show(replies: Seq<(Seq<char>, Seq<char>)>)
    ensures
        in_order(reply_lines(replies), thread_segments(replies)),
    decreases replies.len(),
{
    if replies.len() == 0 {
        lemma_nothing(reply_lines(replies));
    } else {
        let (guid, body) = replies.last();
        let before = reply_lines(replies.drop_last());
        let segments = thread_segments(replies.drop_last());
        lemma_reply_lines_show(replies.drop_last());
        lemma_joined_segment(before, "\n    <div class=\"reply\" id=\""@, escaped(guid), segments);
        let anchored = before + "\n    <div class=\"reply\" id=\""@ + escaped(guid);
        let with_anchor = segments.push("\n    <div class=\"reply\" id=\""@ + escaped(guid));
        lemma_gap(anchored, "\">"@, with_anchor);
        lemma_segment(anchored + "\">"@, body, with_anchor);
        lemma_gap(anchored + "\">"@ + body, "</div>"@, with_anchor.push(body));
    }
}

/// The block of replies shows each of them, in their order, under an anchor of
/// its own identifier. Where there are none, there is no block.
pub proof fn law_block_shows_all_replies(replies: Seq<(Seq<char>, Seq<char>)>)
    ensures
        in_order(replies_markup(Some(replies)), thread_segments(replies)),
        replies_markup(None).len() == 0,
{
    lemma_reply_lines_show(replies);
    lemma_within(
        "\n<div class=\"replies\">"@,
        reply_lines(replies),
        "\n</div>"@,
        thread_segments(replies),
    );
}

/// Reactions that are lifted into another type keep their number and their
/// places: each is what is made of the text at its place.
pub proof fn law_lifted_reactions_keep_their_places<T>(
    lifting: spec_fn(String, T) -> bool,
    texts: Seq<Seq<char>>,
    found: Seq<T>,
    at: int,
)
    requires
        lifts(lifting, texts, found),
    ensures
        found.len() == texts.len(),
        0 <= at < texts.len() ==> exists|markup: String|
            markup@ == texts[at] && #[trigger] lifting(markup, found[at]),
{
    if 0 <= at < texts.len() {
        assert(is_lifted(lifting, texts[at], found[at]));
    }
}

/// Replies that are lifted into another type keep their number and their places:
/// each has the identifier at its place, and is what is made of the text there.
pub proof fn law_lifted_replies_keep_their_places<S>(
    lifting: spec_fn(String, S) -> bool,
    replies: Seq<(Seq<char>, Seq<char>)>,
    found: Seq<ReplyEntry<S>>,
    at: int,
)
    requires
        lifts_replies(lifting, replies, found),
    ensures
        found.len() == replies.len(),
        0 <= at < replies.len() ==> found[at].guid@ == replies[at].0 && exists|markup: String|
            markup@ == replies[at].1 && #[trigger] lifting(markup, found[at].body),
{
    if 0 <= at < replies.len() {
        let (guid, body) = replies[at];
        assert(found[at].guid@ == guid && is_lifted(lifting, body, found[at].body));
    }
}

} // verus!
