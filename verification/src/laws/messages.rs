//! Messages: their parts, and what the page says of them.
use vstd::prelude::*;

use crate::config::Config;
use crate::database::{associated_guid_of, expressive_label, service_label};
use crate::error::RuntimeErrorView;
use crate::escape::{escaped, Html};
use crate::html::forensic::{
    chat_number, forensic_meta, forensic_meta_markup, in_reaction_to, in_reaction_to_markup,
    meta_field, meta_flag, reference_by_guid, reference_of, replying_to, replying_to_markup,
    shortened_guid, ReferenceView,
};
use crate::html::message::{
    anchor_markup, anchor_of, deleted_markup, expressive_markup, message_markup, meta_markup,
    page_markup, part_markup, parts_markup, quote_markup, read_note, replies_markup,
    reply_anchor_markup, reply_context_markup, shared_location_markup, shareplay_markup,
    subject_markup, tapbacks_markup,
};
use crate::html::part::{body_markup, PartBody};
use crate::html::tapback::{bubble_class, tapback_markup};
use crate::laws::order::{
    in_order, joined, lemma_both, lemma_enclosed_segment, lemma_gap, lemma_itself, lemma_joined,
    lemma_joined_segment, lemma_nothing, lemma_regroup, lemma_segment, lemma_within,
};
use crate::laws::replies::{law_block_shows_all_reactions, law_every_reaction_is_shown};
use crate::messages::{EditStatus, Message};
use crate::reply::{
    part_replies, part_tapbacks, snippet, MessagePart, RenderContext, ThreadedMessage,
};
use crate::text::decimal::decimal;
use crate::text::optional_text;

verus! {

// The parts of a message.

/// Whether a text is what the page shows of a part of a message: its body with
/// the effect that the message was sent with, and, unless forensic mode is on,
/// the reactions recorded for this part and the replies to this part.
pub open spec fn shows_part(
    config: Config,
    message: Message,
    part: MessagePart,
    index: usize,
    text: Seq<char>,
) -> bool {
    let effect = expressive_label(optional_text(message.expressive_send_style_id));
    if config.options.forensic {
        text == "\n        "@ + part_markup(part.body, effect, None, None) + "\n        "@
    } else {
        &&& part_tapbacks(config, message.guid@, index) is Ok
        &&& part_replies(config, part.replies) is Ok
        &&& text == "\n        "@ + part_markup(
            part.body,
            effect,
            part_tapbacks(config, message.guid@, index)->Ok_0,
            part_replies(config, part.replies)->Ok_0,
        ) + "\n        "@
    }
}

/// Whether the texts are what the page shows of the first parts of a message,
/// one for each.
pub open spec fn show_parts(
    config: Config,
    message: Message,
    parts: Seq<MessagePart>,
    texts: Seq<Seq<char>>,
) -> bool {
    &&& texts.len() <= parts.len()
    &&& forall|i: int|
        0 <= i < texts.len() ==> shows_part(
            config,
            message,
            parts[i],
            i as usize,
            #[trigger] texts[i],
        )
}

proof fn lemma_parts_shown(
    config: Config,
    message: Message,
    parts: Seq<MessagePart>,
    count: nat,
) -> (texts: Seq<Seq<char>>)
    requires
        count <= parts.len(),
        parts_markup(
            config,
            message,
            parts,
            expressive_label(optional_text(message.expressive_send_style_id)),
            count,
        ) is Ok,
    ensures
        texts.len() == count,
        show_parts(config, message, parts, texts),
        parts_markup(
            config,
            message,
            parts,
            expressive_label(optional_text(message.expressive_send_style_id)),
            count,
        ) == Ok::<Seq<char>, RuntimeErrorView>(joined(texts)),
    decreases count,
{
    if count == 0 {
        Seq::empty()
    } else {
        let effect = expressive_label(optional_text(message.expressive_send_style_id));
        let before = lemma_parts_shown(config, message, parts, (count - 1) as nat);
        let part = parts[count - 1];
        let markup = if config.options.forensic {
            part_markup(part.body, effect, None, None)
        } else {
            part_markup(
                part.body,
                effect,
                part_tapbacks(config, message.guid@, (count - 1) as usize)->Ok_0,
                part_replies(config, part.replies)->Ok_0,
            )
        };
        let text = "\n        "@ + markup + "\n        "@;
        let texts = before.push(text);
        assert(texts.drop_last() =~= before);
        lemma_regroup(joined(before), "\n        "@, markup, "\n        "@);
        assert forall|i: int| 0 <= i < texts.len() implies shows_part(
            config,
            message,
            parts[i],
            i as usize,
            #[trigger] texts[i],
        ) by {
            if i < before.len() {
                assert(texts[i] == before[i]);
            }
        }
        texts
    }
}

/// A message shows all its parts, one for one and in their order: the i-th with
/// the i-th body, the reactions recorded for the i-th part and no others, and
/// the replies to the i-th part.
pub proof fn law_message_shows_its_parts_in_order(
    config: Config,
    message: ThreadedMessage,
    context: RenderContext,
)
    requires
        message_markup(config, message, context) is Ok,
    ensures
        exists|texts: Seq<Seq<char>>|
            {
                &&& message.parts is Ok
                &&& texts.len() == message.parts->Ok_0@.len()
                &&& #[trigger] show_parts(
                    config,
                    message.message,
                    message.parts->Ok_0@,
                    texts,
                )
                &&& message_markup(config, message, context) == Ok::<Seq<char>, RuntimeErrorView>(
                    page_markup(config, message.message, context, joined(texts)),
                )
            },
{
    let parts = message.parts->Ok_0;
    let texts = lemma_parts_shown(config, message.message, parts@, parts@.len());
    assert(show_parts(config, message.message, parts@, texts));
}

/// Whether a part of a message cannot be shown, and why: the replies to it fail,
/// or else the reactions to it do.
pub open spec fn part_fails(
    config: Config,
    message: Message,
    part: MessagePart,
    index: usize,
    why: RuntimeErrorView,
) -> bool {
    match part_replies(config, part.replies) {
        Err(found) => found == why,
        Ok(_) => match part_tapbacks(config, message.guid@, index) {
            Err(found) => found == why,
            Ok(_) => false,
        },
    }
}

/// Whether neither the replies nor the reactions to the first `count` parts of a
/// message fail.
pub open spec fn parts_do_not_fail(
    config: Config,
    message: Message,
    parts: Seq<MessagePart>,
    count: int,
) -> bool {
    forall|i: int|
        0 <= i < count ==> part_replies(config, (#[trigger] parts[i]).replies) is Ok
            && part_tapbacks(config, message.guid@, i as usize) is Ok
}

proof fn lemma_parts_fail_first(
    config: Config,
    message: Message,
    parts: Seq<MessagePart>,
    effect: Seq<char>,
    count: nat,
)
    requires
        count <= parts.len(),
    ensures
        match parts_markup(config, message, parts, effect, count) {
            Err(why) => !config.options.forensic && exists|i: int|
                0 <= i < count && #[trigger] part_fails(
                    config,
                    message,
                    parts[i],
                    i as usize,
                    why,
                ) && parts_do_not_fail(config, message, parts, i),
            Ok(_) => !config.options.forensic ==> parts_do_not_fail(
                config,
                message,
                parts,
                count as int,
            ),
        },
    decreases count,
{
    if count > 0 {
        lemma_parts_fail_first(config, message, parts, effect, (count - 1) as nat);
        let part = parts[count - 1];
        if parts_markup(config, message, parts, effect, (count - 1) as nat) is Ok {
            if let Err(why) = parts_markup(config, message, parts, effect, count) {
                assert(part_fails(config, message, part, (count - 1) as usize, why));
            }
        } else {
            let why = parts_markup(config, message, parts, effect, (count - 1) as nat)->Err_0;
            let i = choose|i: int|
                0 <= i < count - 1 && #[trigger] part_fails(
                    config,
                    message,
                    parts[i],
                    i as usize,
                    why,
                ) && parts_do_not_fail(config, message, parts, i);
            assert(part_fails(config, message, parts[i], i as usize, why));
        }
    }
}

/// A message fails where its parts could not be read, with what was said of
/// that.
pub proof fn law_message_fails_unread(
    config: Config,
    message: ThreadedMessage,
    context: RenderContext,
)
    requires
        message.parts is Err,
    ensures
        message_markup(config, message, context) == Err::<Seq<char>, RuntimeErrorView>(
            RuntimeErrorView::DatabaseError(message.parts->Err_0@),
        ),
{
}

/// A message whose parts were read fails only without forensic mode, and with
/// what the replies or the reactions to the first of its parts that fails fail
/// with.
pub proof fn law_message_fails_with_its_parts(
    config: Config,
    message: ThreadedMessage,
    context: RenderContext,
) -> (index: usize)
    requires
        message.parts is Ok,
        message_markup(config, message, context) is Err,
    ensures
        !config.options.forensic,
        index < message.parts->Ok_0@.len(),
        part_fails(
            config,
            message.message,
            message.parts->Ok_0@[index as int],
            index,
            message_markup(config, message, context)->Err_0,
        ),
        parts_do_not_fail(config, message.message, message.parts->Ok_0@, index as int),
{
    let parts = message.parts->Ok_0@;
    let effect = expressive_label(optional_text(message.message.expressive_send_style_id));
    lemma_parts_fail_first(config, message.message, parts, effect, parts.len());
    let why = parts_markup(config, message.message, parts, effect, parts.len())->Err_0;
    let i = choose|i: int|
        0 <= i < parts.len() && #[trigger] part_fails(
            config,
            message.message,
            parts[i],
            i as usize,
            why,
        ) && parts_do_not_fail(config, message.message, parts, i);
    assert(message.parts->Ok_0.len() == parts.len());
    i as usize
}

/// A message that is shown has no part whose replies or reactions fail, unless
/// forensic mode is on, which does not show them.
pub proof fn law_shown_message_has_no_failing_part(
    config: Config,
    message: ThreadedMessage,
    context: RenderContext,
    index: usize,
)
    requires
        !config.options.forensic,
        message_markup(config, message, context) is Ok,
        message.parts is Ok,
        index < message.parts->Ok_0@.len(),
    ensures
        part_replies(config, message.parts->Ok_0@[index as int].replies) is Ok,
        part_tapbacks(config, message.message.guid@, index) is Ok,
{
    let parts = message.parts->Ok_0@;
    let effect = expressive_label(optional_text(message.message.expressive_send_style_id));
    lemma_parts_fail_first(config, message.message, parts, effect, parts.len());
    assert(part_replies(config, parts[index as int].replies) is Ok);
}

/// The body of a part shows what it is made of; a translation stands below what
/// it translates.
pub proof fn law_body_shows_its_content(html: Html, other: Html)
    ensures
        in_order(body_markup(PartBody::TextBubble { html }), seq![html@]),
        in_order(body_markup(PartBody::TextEdited { html }), seq![html@]),
        in_order(body_markup(PartBody::Attachment { html }), seq![html@]),
        in_order(body_markup(PartBody::AttachmentError { error: html }), seq![html@]),
        in_order(body_markup(PartBody::Sticker { html }), seq![html@]),
        in_order(body_markup(PartBody::App { html }), seq![html@]),
        in_order(body_markup(PartBody::AppError { html }), seq![html@]),
        in_order(body_markup(PartBody::Retracted { html }), seq![html@]),
        in_order(
            body_markup(PartBody::TextTranslated { translated: html, original: other }),
            seq![other@, html@],
        ),
        body_markup(PartBody::Empty) == ""@,
{
    let text = html@;
    lemma_itself(text);
    lemma_within("<span class=\"bubble\">"@, text, "</span>"@, seq![text]);
    lemma_within("<div class=\"edited\">"@, text, "</div>"@, seq![text]);
    lemma_within("<div class=\"attachment\">"@, text, "</div>"@, seq![text]);
    lemma_within(
        "<span class=\"attachment_error\">Unable to locate attachment: "@,
        text,
        "</span>"@,
        seq![text],
    );
    lemma_within("<div class=\"sticker\">"@, text, "</div>"@, seq![text]);
    lemma_within("<div class=\"app\">"@, text, "</div>"@, seq![text]);
    lemma_within("<div class=\"app_error\">"@, text, "</div>"@, seq![text]);
    lemma_within("<span class=\"unsent\">"@, text, "</span>"@, seq![text]);
    let t0 = "<span class=\"bubble\">"@;
    lemma_nothing(t0);
    lemma_segment(t0, other@, Seq::empty());
    let s1 = Seq::<Seq<char>>::empty().push(other@);
    let between = "</span>\n    <div class=\"translated\"><span class=\"bubble\">"@;
    lemma_gap(t0 + other@, between, s1);
    lemma_segment(t0 + other@ + between, text, s1);
    lemma_gap(t0 + other@ + between + text, "</span></div>"@, s1.push(text));
    assert(s1.push(text) =~= seq![other@, text]);
}

/// A part shows its body, then the effect that the message was sent with, then
/// the reactions to it, then the replies to it.
pub proof fn law_part_shows_what_belongs_to_it(
    body: PartBody,
    effect: Seq<char>,
    tapbacks: Option<Seq<Seq<char>>>,
    replies: Option<Seq<(Seq<char>, Seq<char>)>>,
)
    ensures
        in_order(
            part_markup(body, effect, tapbacks, replies),
            seq![
                body_markup(body),
                expressive_markup(effect),
                tapbacks_markup(tapbacks),
                replies_markup(replies),
            ],
        ),
        effect.len() > 0 ==> in_order(expressive_markup(effect), seq![escaped(effect)]),
        effect.len() == 0 ==> expressive_markup(effect).len() == 0,
{
    let t0 = "<hr>\n<div class=\"message_part\">\n    "@;
    lemma_nothing(t0);
    let s0 = Seq::<Seq<char>>::empty();
    lemma_segment(t0, body_markup(body), s0);
    let t1 = t0 + body_markup(body);
    let s1 = s0.push(body_markup(body));
    lemma_gap(t1, "\n    </div>"@, s1);
    let t2 = t1 + "\n    </div>"@;
    lemma_segment(t2, expressive_markup(effect), s1);
    let t3 = t2 + expressive_markup(effect);
    let s2 = s1.push(expressive_markup(effect));
    lemma_segment(t3, tapbacks_markup(tapbacks), s2);
    let t4 = t3 + tapbacks_markup(tapbacks);
    let s3 = s2.push(tapbacks_markup(tapbacks));
    lemma_segment(t4, replies_markup(replies), s3);
    let t5 = t4 + replies_markup(replies);
    let s4 = s3.push(replies_markup(replies));
    lemma_gap(t5, "\n"@, s4);
    let t6 = t5 + "\n"@;
    assert(s4 =~= seq![body_markup(body), expressive_markup(effect), tapbacks_markup(tapbacks), replies_markup(replies)]);
    lemma_itself(escaped(effect));
    lemma_within(
        "\n<span class=\"expressive\">"@,
        escaped(effect),
        "</span>"@,
        seq![escaped(effect)],
    );
}

/// The reactions and the replies to a part are all that they add to it.
pub proof fn law_part_without_reactions_and_replies(
    body: PartBody,
    effect: Seq<char>,
    tapbacks: Option<Seq<Seq<char>>>,
    replies: Option<Seq<(Seq<char>, Seq<char>)>>,
)
    ensures
        part_markup(body, effect, tapbacks, replies) == part_markup(
            body,
            effect,
            None,
            None,
        ).drop_last() + tapbacks_markup(tapbacks) + replies_markup(replies) + "\n"@,
{
    reveal_strlit("\n");
    let bare = "<hr>\n<div class=\"message_part\">\n    "@ + body_markup(body) + "\n    </div>"@
        + expressive_markup(effect);
    let alone = part_markup(body, effect, None, None);
    assert(alone =~= bare + "\n"@);
    assert(alone.drop_last() =~= bare);
}

/// A reaction that is recorded for a part of a message, and does not render as
/// nothing, is read on the page behind the body of that part.
#[verifier::rlimit(30)]
pub proof fn law_reaction_stands_below_its_part(
    config: Config,
    message: ThreadedMessage,
    context: RenderContext,
    index: usize,
    i: int,
)
    requires
        !config.options.forensic,
        message_markup(config, message, context) is Ok,
        message.parts is Ok,
        index < message.parts->Ok_0@.len(),
        config.tapbacks_of(message.message.guid@, index) is Some,
        0 <= i < config.tapbacks_of(message.message.guid@, index)->0.len(),
        tapback_markup(config, config.tapbacks_of(message.message.guid@, index)->0[i]) matches Ok(
            markup,
        ) && markup.len() > 0,
    ensures
        in_order(
            message_markup(config, message, context)->Ok_0,
            seq![
                body_markup(message.parts->Ok_0@[index as int].body),
                tapback_markup(
                    config,
                    config.tapbacks_of(message.message.guid@, index)->0[i],
                )->Ok_0,
            ],
        ),
{
    let guid = message.message.guid@;
    let parts = message.parts->Ok_0@;
    let reaction = tapback_markup(config, config.tapbacks_of(guid, index)->0[i])->Ok_0;
    let texts = lemma_parts_shown(config, message.message, parts, parts.len());
    assert(shows_part(config, message.message, parts[index as int], index, texts[index as int]));
    law_every_reaction_is_shown(config, guid, index, i);
    lemma_reaction_on_page(config, message, context, index, reaction);
}

#[verifier::rlimit(50)]
proof fn lemma_reaction_on_page(
    config: Config,
    message: ThreadedMessage,
    context: RenderContext,
    index: usize,
    reaction: Seq<char>,
)
    requires
        !config.options.forensic,
        message_markup(config, message, context) is Ok,
        message.parts is Ok,
        index < message.parts->Ok_0@.len(),
        part_tapbacks(config, message.message.guid@, index) matches Ok(Some(shown))
            && shown.contains(reaction),
    ensures
        in_order(
            message_markup(config, message, context)->Ok_0,
            seq![body_markup(message.parts->Ok_0@[index as int].body), reaction],
        ),
{
    let parts = message.parts->Ok_0@;
    let part = parts[index as int];
    let both = seq![body_markup(part.body), reaction];
    let texts = lemma_parts_shown(config, message.message, parts, parts.len());
    assert(shows_part(config, message.message, part, index, texts[index as int]));
    lemma_text_shows_reaction(config, message.message, part, index, texts[index as int], reaction);
    lemma_text_on_page(config, message.message, context, texts, index as int, both);
}

proof fn lemma_text_shows_reaction(
    config: Config,
    message: Message,
    part: MessagePart,
    index: usize,
    text: Seq<char>,
    reaction: Seq<char>,
)
    requires
        !config.options.forensic,
        shows_part(config, message, part, index, text),
        part_tapbacks(config, message.guid@, index) matches Ok(Some(shown)) && shown.contains(
            reaction,
        ),
    ensures
        in_order(text, seq![body_markup(part.body), reaction]),
{
    let effect = expressive_label(optional_text(message.expressive_send_style_id));
    let shown = part_tapbacks(config, message.guid@, index)->Ok_0;
    let replies = part_replies(config, part.replies)->Ok_0;
    lemma_part_shows_reaction(part.body, effect, shown->0, replies, reaction);
    lemma_within(
        "\n        "@,
        part_markup(part.body, effect, shown, replies),
        "\n        "@,
        seq![body_markup(part.body), reaction],
    );
}

proof fn lemma_text_on_page(
    config: Config,
    message: Message,
    context: RenderContext,
    texts: Seq<Seq<char>>,
    index: int,
    segments: Seq<Seq<char>>,
)
    requires
        0 <= index < texts.len(),
        in_order(texts[index], segments),
    ensures
        in_order(page_markup(config, message, context, joined(texts)), segments),
{
    lemma_joined(texts, index);
    let after = choose|after: Seq<char>|
        joined(texts) == #[trigger] (joined(texts.take(index)) + texts[index] + after);
    lemma_within(joined(texts.take(index)), texts[index], after, segments);
    lemma_page_holds_parts(config, message, context, joined(texts), segments);
}

proof fn lemma_part_shows_reaction(
    body: PartBody,
    effect: Seq<char>,
    tapbacks: Seq<Seq<char>>,
    replies: Option<Seq<(Seq<char>, Seq<char>)>>,
    reaction: Seq<char>,
)
    requires
        tapbacks.contains(reaction),
    ensures
        in_order(
            part_markup(body, effect, Some(tapbacks), replies),
            seq![body_markup(body), reaction],
        ),
{
    let block = tapbacks_markup(Some(tapbacks));
    law_block_shows_all_reactions(tapbacks);
    let k = choose|k: int| 0 <= k < tapbacks.len() && tapbacks[k] == reaction;
    lemma_one_of(block, tapbacks, k);
    let head = "<hr>\n<div class=\"message_part\">\n    "@;
    let shown = body_markup(body);
    lemma_nothing(head);
    lemma_segment(head, shown, Seq::empty());
    let with_body = Seq::<Seq<char>>::empty().push(shown);
    lemma_gap(head + shown, "\n    </div>"@, with_body);
    lemma_gap(head + shown + "\n    </div>"@, expressive_markup(effect), with_body);
    let front = head + shown + "\n    </div>"@ + expressive_markup(effect);
    lemma_both(front, with_body, block, seq![reaction]);
    let both = with_body + seq![reaction];
    lemma_gap(front + block, replies_markup(replies), both);
    lemma_gap(front + block + replies_markup(replies), "\n"@, both);
    assert(both =~= seq![shown, reaction]);
}

/// One of the segments that occur in a text occurs in it.
proof fn lemma_one_of(text: Seq<char>, segments: Seq<Seq<char>>, k: int)
    requires
        in_order(text, segments),
        0 <= k < segments.len(),
    ensures
        in_order(text, seq![segments[k]]),
    decreases segments.len(),
{
    reveal(in_order);
    let last = segments.last();
    let at = choose|at: int|
        {
            &&& 0 <= at
            &&& at + last.len() <= text.len()
            &&& text.subrange(at, at + last.len() as int) == last
            &&& in_order(#[trigger] text.take(at), segments.drop_last())
        };
    if k == segments.len() - 1 {
        assert(seq![last].drop_last() =~= Seq::<Seq<char>>::empty());
        assert(in_order(text.take(at), seq![last].drop_last()));
    } else {
        lemma_one_of(text.take(at), segments.drop_last(), k);
        lemma_gap(text.take(at), text.skip(at), seq![segments[k]]);
        assert(text.take(at) + text.skip(at) =~= text);
    }
}

proof fn lemma_page_holds_parts(
    config: Config,
    message: Message,
    context: RenderContext,
    parts: Seq<char>,
    segments: Seq<Seq<char>>,
)
    requires
        in_order(parts, segments),
    ensures
        in_order(page_markup(config, message, context, parts), segments),
{
    let head = page_head(config, message, context);
    lemma_within(head, parts, Seq::empty(), segments);
    assert(head + parts + Seq::<char>::empty() =~= head + parts);
    let t0 = head + parts;
    lemma_gap(t0, "\n        "@, segments);
    let t1 = t0 + "\n        "@;
    lemma_gap(t1, reply_context_markup(config, message, context), segments);
    let t2 = t1 + reply_context_markup(config, message, context);
    lemma_gap(t2, meta_markup(config, message), segments);
    let t3 = t2 + meta_markup(config, message);
    lemma_gap(t3, "\n    </div>\n</div>\n"@, segments);
}

/// What stands on a page before the parts of the message.
spec fn page_head(config: Config, message: Message, context: RenderContext) -> Seq<char> {
    "<div class=\"message\""@ + anchor_markup(anchor_of(config, message, context)) + ">\n    <div class=\""@ + bubble_class(message) + "\">\n        <p>\n            <span class=\"timestamp\">\n                <a title=\"Reveal in Messages app\" href=\"sms://open?message-guid="@ + escaped(message.guid@) + "\">"@ + escaped(message.sent_at@) + "</a>\n                "@ + escaped(read_note(config, message)) + "\n            </span>\n            "@ + reply_anchor_markup(config, message, context) + "\n            <span class=\"sender\">"@ + escaped(message.sender@) + "</span>\n        </p>"@ + quote_markup(config, message, context) + "\n        "@ + deleted_markup(message) + "\n        "@ + subject_markup(message) + "\n        "@ + shareplay_markup(message) + "\n        "@ + shared_location_markup(message) + "\n        "@
}

// What the page says of a message.

/// A page says, in this order: under which anchor the message stands, over which
/// service it came, where it is found in the Messages app and when it was sent,
/// who read it when, the link between the places of a reply, who sent it, what
/// it responds to, that it was deleted, its subject, what happened to a shared
/// session or location, its parts, that it responded to a message, and its
/// metadata.
pub proof fn law_page_order(
    config: Config,
    message: Message,
    context: RenderContext,
    parts: Seq<char>,
)
    ensures
        in_order(
            page_markup(config, message, context, parts),
            seq![
                anchor_markup(anchor_of(config, message, context)),
                bubble_class(message),
                "\">\n        <p>\n            <span class=\"timestamp\">\n                <a title=\"Reveal in Messages app\" href=\"sms://open?message-guid="@ + escaped(message.guid@),
                "\">"@ + escaped(message.sent_at@) + "</a>\n                "@,
                escaped(read_note(config, message)),
                reply_anchor_markup(config, message, context),
                "\n            <span class=\"sender\">"@ + escaped(message.sender@) + "</span>\n        </p>"@,
                quote_markup(config, message, context),
                deleted_markup(message),
                subject_markup(message),
                shareplay_markup(message),
                shared_location_markup(message),
                parts,
                reply_context_markup(config, message, context),
                meta_markup(config, message),
            ],
        ),
{
    let t0 = "<div class=\"message\""@;
    lemma_nothing(t0);
    let s0 = Seq::<Seq<char>>::empty();
    lemma_segment(t0, anchor_markup(anchor_of(config, message, context)), s0);
    let t1 = t0 + anchor_markup(anchor_of(config, message, context));
    let s1 = s0.push(anchor_markup(anchor_of(config, message, context)));
    lemma_gap(t1, ">\n    <div class=\""@, s1);
    let t2 = t1 + ">\n    <div class=\""@;
    lemma_segment(t2, bubble_class(message), s1);
    let t3 = t2 + bubble_class(message);
    let s2 = s1.push(bubble_class(message));
    lemma_joined_segment(t3, "\">\n        <p>\n            <span class=\"timestamp\">\n                <a title=\"Reveal in Messages app\" href=\"sms://open?message-guid="@, escaped(message.guid@), s2);
    let t4 = t3 + "\">\n        <p>\n            <span class=\"timestamp\">\n                <a title=\"Reveal in Messages app\" href=\"sms://open?message-guid="@ + escaped(message.guid@);
    let s3 = s2.push("\">\n        <p>\n            <span class=\"timestamp\">\n                <a title=\"Reveal in Messages app\" href=\"sms://open?message-guid="@ + escaped(message.guid@));
    lemma_enclosed_segment(t4, "\">"@, escaped(message.sent_at@), "</a>\n                "@, s3);
    let t5 = t4 + "\">"@ + escaped(message.sent_at@) + "</a>\n                "@;
    let s4 = s3.push("\">"@ + escaped(message.sent_at@) + "</a>\n                "@);
    lemma_segment(t5, escaped(read_note(config, message)), s4);
    let t6 = t5 + escaped(read_note(config, message));
    let s5 = s4.push(escaped(read_note(config, message)));
    lemma_gap(t6, "\n            </span>\n            "@, s5);
    let t7 = t6 + "\n            </span>\n            "@;
    lemma_segment(t7, reply_anchor_markup(config, message, context), s5);
    let t8 = t7 + reply_anchor_markup(config, message, context);
    let s6 = s5.push(reply_anchor_markup(config, message, context));
    lemma_enclosed_segment(t8, "\n            <span class=\"sender\">"@, escaped(message.sender@), "</span>\n        </p>"@, s6);
    let t9 = t8 + "\n            <span class=\"sender\">"@ + escaped(message.sender@) + "</span>\n        </p>"@;
    let s7 = s6.push("\n            <span class=\"sender\">"@ + escaped(message.sender@) + "</span>\n        </p>"@);
    lemma_segment(t9, quote_markup(config, message, context), s7);
    let t10 = t9 + quote_markup(config, message, context);
    let s8 = s7.push(quote_markup(config, message, context));
    lemma_gap(t10, "\n        "@, s8);
    let t11 = t10 + "\n        "@;
    lemma_segment(t11, deleted_markup(message), s8);
    let t12 = t11 + deleted_markup(message);
    let s9 = s8.push(deleted_markup(message));
    lemma_gap(t12, "\n        "@, s9);
    let t13 = t12 + "\n        "@;
    lemma_segment(t13, subject_markup(message), s9);
    let t14 = t13 + subject_markup(message);
    let s10 = s9.push(subject_markup(message));
    lemma_gap(t14, "\n        "@, s10);
    let t15 = t14 + "\n        "@;
    lemma_segment(t15, shareplay_markup(message), s10);
    let t16 = t15 + shareplay_markup(message);
    let s11 = s10.push(shareplay_markup(message));
    lemma_gap(t16, "\n        "@, s11);
    let t17 = t16 + "\n        "@;
    lemma_segment(t17, shared_location_markup(message), s11);
    let t18 = t17 + shared_location_markup(message);
    let s12 = s11.push(shared_location_markup(message));
    lemma_gap(t18, "\n        "@, s12);
    let t19 = t18 + "\n        "@;
    lemma_segment(t19, parts, s12);
    let t20 = t19 + parts;
    let s13 = s12.push(parts);
    lemma_gap(t20, "\n        "@, s13);
    let t21 = t20 + "\n        "@;
    lemma_segment(t21, reply_context_markup(config, message, context), s13);
    let t22 = t21 + reply_context_markup(config, message, context);
    let s14 = s13.push(reply_context_markup(config, message, context));
    lemma_segment(t22, meta_markup(config, message), s14);
    let t23 = t22 + meta_markup(config, message);
    let s15 = s14.push(meta_markup(config, message));
    lemma_gap(t23, "\n    </div>\n</div>\n"@, s15);
    let t24 = t23 + "\n    </div>\n</div>\n"@;
    assert(s15 =~= seq![anchor_markup(anchor_of(config, message, context)), bubble_class(message), "\">\n        <p>\n            <span class=\"timestamp\">\n                <a title=\"Reveal in Messages app\" href=\"sms://open?message-guid="@ + escaped(message.guid@), "\">"@ + escaped(message.sent_at@) + "</a>\n                "@, escaped(read_note(config, message)), reply_anchor_markup(config, message, context), "\n            <span class=\"sender\">"@ + escaped(message.sender@) + "</span>\n        </p>"@, quote_markup(config, message, context), deleted_markup(message), subject_markup(message), shareplay_markup(message), shared_location_markup(message), parts, reply_context_markup(config, message, context), meta_markup(config, message)]);
}

/// The parts of a message stand on its page as they are, and nothing else on the
/// page depends on them.
pub proof fn law_page_is_independent_of_its_parts(
    config: Config,
    message: Message,
    context: RenderContext,
    a: Seq<char>,
    b: Seq<char>,
)
    ensures
        exists|before: Seq<char>, after: Seq<char>|
            {
                &&& page_markup(config, message, context, a) == #[trigger] (before + a + after)
                &&& page_markup(config, message, context, b) == before + b + after
            },
{
    let head = page_head(config, message, context);
    let tail = "\n        "@ + reply_context_markup(config, message, context) + meta_markup(
        config,
        message,
    ) + "\n    </div>\n</div>\n"@;
    assert(page_markup(config, message, context, a) =~= head + a + tail);
    assert(page_markup(config, message, context, b) =~= head + b + tail);
}

/// What the database's owner sent was read by others, whatever the owner is
/// called; what came to the owner was read by the owner, under the name they
/// chose. Nothing is said where it is not known how long that took.
pub proof fn law_read_note(config: Config, message: Message)
    ensures
        message.read_after is None ==> read_note(config, message).len() == 0,
        message.read_after is Some && message.sent_by_owner() ==> in_order(
            read_note(config, message),
            seq!["(Read by "@ + "them"@, message.read_after->0@],
        ),
        message.read_after is Some && !message.sent_by_owner() && config.options.custom_name is Some
            ==> in_order(
            read_note(config, message),
            seq!["(Read by "@ + config.options.custom_name->0@, message.read_after->0@],
        ),
        message.read_after is Some && !message.sent_by_owner() && config.options.custom_name is None
            ==> in_order(
            read_note(config, message),
            seq!["(Read by "@ + "you"@, message.read_after->0@],
        ),
{
    if message.read_after is Some {
        let reader = if message.sent_by_owner() {
            "them"@
        } else {
            match config.options.custom_name {
                Some(name) => name@,
                None => "you"@,
            }
        };
        let t0 = "(Read by "@ + reader;
        lemma_nothing(Seq::empty());
        lemma_segment(Seq::empty(), t0, Seq::empty());
        assert(Seq::<char>::empty() + t0 =~= t0);
        let s0 = Seq::<Seq<char>>::empty().push(t0);
        lemma_gap(t0, " after "@, s0);
        let t1 = t0 + " after "@;
        lemma_segment(t1, message.read_after->0@, s0);
        let t2 = t1 + message.read_after->0@;
        let s1 = s0.push(message.read_after->0@);
        lemma_gap(t2, ")"@, s1);
        let t3 = t2 + ")"@;
        assert(s1 =~= seq!["(Read by "@ + reader, message.read_after->0@]);
    }
}

/// Only a shared location can come from the owner without being marked so.
pub proof fn law_sent_by_owner(message: Message)
    ensures
        message.is_from_me ==> message.sent_by_owner(),
        message.item_type != 4 ==> message.sent_by_owner() == message.is_from_me,
        message.sent_by_owner() && !message.is_from_me ==> message.share_direction == Some(false)
            && message.other_handle is Some && message.other_handle != Some(0i32),
        message.item_type == 4 && message.share_direction == Some(false) && message.other_handle
            is Some && message.other_handle != Some(0i32) ==> message.sent_by_owner(),
{
}

/// All of a message was taken back just where its parts are recorded and no
/// part is left that was not: one more part leaves it so just where that part
/// was taken back too, and a record without parts leaves nothing.
pub proof fn law_taken_back_part_by_part(
    message: Message,
    longer: Message,
    parts: Vec<EditStatus>,
    more: Vec<EditStatus>,
    part: EditStatus,
)
    requires
        message.edited_parts == Some(parts),
        longer.edited_parts == Some(more),
        more@ == parts@.push(part),
    ensures
        longer.all_unsent() <==> message.all_unsent() && part is Unsent,
        parts@.len() == 0 ==> message.all_unsent(),
{
    if longer.all_unsent() {
        assert forall|i: int| 0 <= i < parts@.len() implies (#[trigger] parts@[i]) is Unsent by {
            assert(more@[i] is Unsent);
        }
        assert(more@[parts@.len() as int] is Unsent);
        assert(message.edited_parts->0@ == parts@);
    }
    if message.all_unsent() && part is Unsent {
        assert forall|i: int| 0 <= i < more@.len() implies (#[trigger] more@[i]) is Unsent by {
            if i < parts@.len() {
                assert(message.edited_parts->0@[i] is Unsent);
            }
        }
    }
}

/// A message without a record of its parts was not taken back.
pub proof fn law_unrecorded_parts_were_not_taken_back(message: Message)
    requires
        message.edited_parts is None,
    ensures
        !message.all_unsent(),
{
}

/// What a message records as a reaction: stickers and reactions that are put on,
/// and those that are taken off again, each told apart by its number. An edited
/// message is no reaction, and neither is one without such a number.
pub proof fn law_which_messages_are_reactions(message: Message)
    ensures
        message.date_edited != 0 || message.associated_message_type is None ==> message.reaction()
            is None,
        message.date_edited == 0 && message.associated_message_type is Some ==> {
            let number = message.associated_message_type->0;
            let reaction = message.reaction();
            &&& reaction is Some <==> number == 1000 || 2000 <= number <= 2007 || 3000 <= number
                <= 3007
            &&& match reaction {
                Some((action, sticker, label)) => {
                    &&& action is Removed <==> number >= 3000
                    &&& sticker <==> number == 1000 || number == 2007 || number == 3007
                    &&& sticker ==> label == "Sticker"@
                    &&& (number == 2006 || number == 3006) && message.associated_message_emoji
                        is Some ==> label == message.associated_message_emoji->0@
                },
                None => true,
            }
        },
{
}

/// The bubble of what the owner sent is classed by the service; that of what
/// came to the owner is the same for every service.
pub proof fn law_bubble_class(a: Message, b: Message)
    ensures
        a.sent_by_owner() ==> in_order(
            bubble_class(a),
            seq!["sent "@, escaped(service_label(optional_text(a.service)))],
        ),
        !a.sent_by_owner() && !b.sent_by_owner() ==> bubble_class(a) == bubble_class(b),
        !a.sent_by_owner() ==> bubble_class(a) == "received"@,
{
    if a.sent_by_owner() {
        let service = escaped(service_label(optional_text(a.service)));
        lemma_itself("sent "@);
        lemma_itself(service);
        lemma_both("sent "@, seq!["sent "@], service, seq![service]);
        assert(seq!["sent "@] + seq![service] =~= seq!["sent "@, service]);
    }
}

/// A page says that a message was deleted just where it was, tells its subject
/// just where it has one, tells of a session just where one ended, and of a
/// location just where one was shared or no longer is.
pub proof fn law_notes_on_a_page(message: Message)
    ensures
        deleted_markup(message).len() > 0 <==> message.deleted_from is Some,
        shareplay_markup(message).len() > 0 <==> message.item_type == 6,
        message.subject is None ==> subject_markup(message).len() == 0,
        message.subject is Some ==> in_order(
            subject_markup(message),
            seq!["<span class=\"subject\">"@, escaped(message.subject->0@), "</span>"@],
        ),
        message.item_type != 4 || message.group_action_type != 0 ==> shared_location_markup(
            message,
        ).len() == 0,
        message.item_type == 4 && message.group_action_type == 0 ==> in_order(
            shared_location_markup(message),
            seq![
                if message.share_status {
                    "<hr>Stopped sharing location!"@
                } else {
                    "<hr>Started sharing location!"@
                },
            ],
        ),
{
    reveal_strlit(
        "\n        <span class=\"deleted\">This message was deleted from the conversation!</span>\n        ",
    );
    reveal_strlit("</span>\n        ");
    if message.subject is Some {
        let text = escaped(message.subject->0@);
        let open = "\n        <p>Subject: <span class=\"subject\">"@;
        let close = "</span></p>\n        "@;
        reveal_strlit("\n        <p>Subject: <span class=\"subject\">");
        reveal_strlit("<span class=\"subject\">");
        reveal_strlit("</span></p>\n        ");
        reveal_strlit("</span>");
        assert(open.skip(21) =~= "<span class=\"subject\">"@);
        assert(close.take(7) =~= "</span>"@);
        lemma_nothing(open.take(21));
        lemma_segment(open.take(21), "<span class=\"subject\">"@, Seq::empty());
        assert(open.take(21) + "<span class=\"subject\">"@ =~= open);
        let s1 = Seq::<Seq<char>>::empty().push("<span class=\"subject\">"@);
        lemma_segment(open, text, s1);
        let s2 = s1.push(text);
        lemma_segment(open + text, "</span>"@, s2);
        lemma_gap(open + text + "</span>"@, close.skip(7), s2.push("</span>"@));
        assert(open + text + "</span>"@ + close.skip(7) =~= open + text + close);
        assert(s2.push("</span>"@) =~= seq!["<span class=\"subject\">"@, text, "</span>"@]);
    }
    if message.item_type == 4 && message.group_action_type == 0 {
        let text = if message.share_status {
            "<hr>Stopped sharing location!"@
        } else {
            "<hr>Started sharing location!"@
        };
        lemma_itself(text);
        lemma_within(
            "\n        <span class=\"shared_location\">"@,
            text,
            "</span>\n        "@,
            seq![text],
        );
    }
}

/// An anchor is written under its name; where there is none, nothing is.
pub proof fn law_anchor_is_its_name(anchor: Seq<char>)
    ensures
        in_order(anchor_markup(Some(anchor)), seq![" id=\""@ + escaped(anchor) + "\""@]),
        anchor_markup(None).len() == 0,
{
    lemma_itself(" id=\""@ + escaped(anchor) + "\""@);
}

/// The notes of a reply: at its own place in time it links to the thread, under
/// its identifier, and says that it responds; in the thread it links back. In
/// forensic mode, and where there is no reply, nothing of this is shown.
pub proof fn law_reply_notes(config: Config, message: Message)
    ensures
        config.options.forensic || message.thread_originator_guid is None ==> reply_anchor_markup(
            config,
            message,
            RenderContext::TopLevel,
        ).len() == 0 && reply_anchor_markup(config, message, RenderContext::Reply).len() == 0
            && reply_context_markup(config, message, RenderContext::TopLevel).len() == 0,
        reply_context_markup(config, message, RenderContext::Reply).len() == 0,
        !config.options.forensic && message.thread_originator_guid is Some ==> {
            &&& reply_context_markup(config, message, RenderContext::TopLevel).len() > 0
            &&& in_order(
                reply_anchor_markup(config, message, RenderContext::TopLevel),
                seq![
                    "\n            \n            <span class=\"reply_anchor\"><a title=\"View in thread\" href=\"#"@
                        + escaped(message.guid@),
                ],
            )
            &&& in_order(
                reply_anchor_markup(config, message, RenderContext::Reply),
                seq![
                    "\n            \n            <span class=\"reply_anchor\"><a title=\"View in context\" href=\"#r-"@
                        + escaped(message.guid@),
                ],
            )
        },
{
    reveal_strlit(
        "\n        <span class=\"reply_context\">This message responded to an earlier message.</span>\n        ",
    );
    if !config.options.forensic && message.thread_originator_guid is Some {
        let there =
            "\n            \n            <span class=\"reply_anchor\"><a title=\"View in thread\" href=\"#"@
            + escaped(message.guid@);
        let back =
            "\n            \n            <span class=\"reply_anchor\"><a title=\"View in context\" href=\"#r-"@
            + escaped(message.guid@);
        lemma_itself(there);
        lemma_itself(back);
        lemma_gap(there, "\">⇱</a></span>\n            \n            "@, seq![there]);
        lemma_gap(back, "\">⇲</a></span>\n            \n            "@, seq![back]);
    }
}

// References and metadata.

/// What refers to a known message links to that message and names its sender and
/// what it says; nothing refers to one that is not known.
pub proof fn law_reference_is_to_the_message(config: Config, guid: Seq<char>)
    ensures
        match config.message_of(guid) {
            Some(target) => reference_by_guid(config, Some(guid)) matches Some(found)
                && found.anchor_target == target.guid@ && found.sender == target.sender@
                && found.snippet == snippet(optional_text(target.text), target.num_attachments),
            None => reference_by_guid(config, Some(guid)) is None,
        },
        reference_by_guid(config, None) is None,
{
}

/// The line above a reply links to what it responds to, and then names the
/// sender and shows the preview; so does the line above a reaction.
pub proof fn law_lines_to_other_messages(target: ReferenceView)
    ensures
        in_order(
            replying_to_markup(target),
            seq![
                "<div class=\"replying_to\"><a href=\"#"@ + escaped(target.anchor_target),
                escaped(target.sender),
                escaped(target.snippet),
            ],
        ),
        in_order(
            in_reaction_to_markup(target),
            seq![
                "<div class=\"in_reaction_to\"><a href=\"#"@ + escaped(target.anchor_target),
                escaped(target.sender),
                escaped(target.snippet),
            ],
        ),
{
    let t0 = "<div class=\"replying_to\"><a href=\"#"@ + escaped(target.anchor_target);
    lemma_nothing(Seq::empty());
    lemma_segment(Seq::empty(), t0, Seq::empty());
    assert(Seq::<char>::empty() + t0 =~= t0);
    let s0 = Seq::<Seq<char>>::empty().push(t0);
    lemma_gap(t0, "\">↪ "@, s0);
    let t1 = t0 + "\">↪ "@;
    lemma_segment(t1, escaped(target.sender), s0);
    let t2 = t1 + escaped(target.sender);
    let s1 = s0.push(escaped(target.sender));
    lemma_gap(t2, ": "@, s1);
    let t3 = t2 + ": "@;
    lemma_segment(t3, escaped(target.snippet), s1);
    let t4 = t3 + escaped(target.snippet);
    let s2 = s1.push(escaped(target.snippet));
    lemma_gap(t4, "</a></div>"@, s2);
    let t5 = t4 + "</a></div>"@;
    assert(s2 =~= seq!["<div class=\"replying_to\"><a href=\"#"@ + escaped(target.anchor_target), escaped(target.sender), escaped(target.snippet)]);
    let u0 = "<div class=\"in_reaction_to\"><a href=\"#"@ + escaped(target.anchor_target);
    lemma_nothing(Seq::empty());
    lemma_segment(Seq::empty(), u0, Seq::empty());
    assert(Seq::<char>::empty() + u0 =~= u0);
    let v0 = Seq::<Seq<char>>::empty().push(u0);
    lemma_gap(u0, "\">in reaction to "@, v0);
    let u1 = u0 + "\">in reaction to "@;
    lemma_segment(u1, escaped(target.sender), v0);
    let u2 = u1 + escaped(target.sender);
    let v1 = v0.push(escaped(target.sender));
    lemma_gap(u2, ": "@, v1);
    let u3 = u2 + ": "@;
    lemma_segment(u3, escaped(target.snippet), v1);
    let u4 = u3 + escaped(target.snippet);
    let v2 = v1.push(escaped(target.snippet));
    lemma_gap(u4, "</a></div>"@, v2);
    let u5 = u4 + "</a></div>"@;
    assert(v2 =~= seq!["<div class=\"in_reaction_to\"><a href=\"#"@ + escaped(target.anchor_target), escaped(target.sender), escaped(target.snippet)]);
}

/// In forensic mode a reply at its own place in time, whose parent is known,
/// shows the line that leads to the parent: the message whose identifier the
/// reply names.
pub proof fn law_reply_leads_to_its_parent(config: Config, message: Message, parent: Message)
    requires
        config.options.forensic,
        message.thread_originator_guid is Some,
        config.message_of(message.thread_originator_guid->0@) == Some(parent),
    ensures
        in_order(
            quote_markup(config, message, RenderContext::TopLevel),
            seq![
                "<div class=\"replying_to\"><a href=\"#"@ + escaped(parent.guid@),
                escaped(parent.sender@),
                escaped(snippet(optional_text(parent.text), parent.num_attachments)),
            ],
        ),
        quote_markup(config, message, RenderContext::Reply).len() == 0,
{
    let target = reference_of(parent);
    law_lines_to_other_messages(target);
    let line = replying_to_markup(target);
    let segments = seq![
        "<div class=\"replying_to\"><a href=\"#"@ + escaped(target.anchor_target),
        escaped(target.sender),
        escaped(target.snippet),
    ];
    lemma_within("\n        "@, line, Seq::empty(), segments);
    assert("\n        "@ + line + Seq::<char>::empty() =~= "\n        "@ + line);
}

/// A reaction leads to the message that it was made to: the one whose identifier
/// its reference holds. Where that is not known, it leads nowhere.
pub proof fn law_reaction_leads_to_its_target(config: Config, msg: Message)
    ensures
        match associated_guid_of(optional_text(msg.associated_message_guid)) {
            Some(guid) => match config.message_of(guid) {
                Some(target) => in_reaction_to(config, msg) == Some(reference_of(target)),
                None => in_reaction_to(config, msg) is None,
            },
            None => in_reaction_to(config, msg) is None,
        },
{
}

/// In a thread a message has no anchor of its own on its page, in either mode.
pub proof fn law_no_anchor_in_a_thread(config: Config, message: Message)
    ensures
        anchor_of(config, message, RenderContext::Reply) is None,
{
}

/// One field of the metadata, where a condition holds.
pub open spec fn field_where(shown: bool, text: Seq<char>) -> Seq<char> {
    if shown {
        " <span>"@ + text + "</span>"@
    } else {
        Seq::empty()
    }
}

/// The metadata of a message: its identifier in short, when it was delivered and
/// when it was read, each just where that was recorded, that it was edited, that
/// it was deleted, and the number of its conversation.
pub proof fn law_metadata_of_a_message(message: Message)
    ensures
        in_order(
            forensic_meta_markup(forensic_meta(message)),
            seq![
                escaped(shortened_guid(message.guid@)),
                field_where(
                    message.date_delivered != 0,
                    "delivered: "@ + escaped(message.delivered_at@),
                ),
                field_where(message.date_read != 0, "read: "@ + escaped(message.read_at@)),
                field_where(message.date_edited != 0, "edited"@),
                field_where(message.deleted_from is Some, "deleted"@),
                field_where(
                    message.chat_id is Some,
                    "chat: "@ + escaped(decimal(message.chat_id->0 as int)),
                ),
            ],
        ),
{
    let meta = forensic_meta(message);
    let delivered = meta_field("delivered: "@, meta.delivered);
    let read = meta_field("read: "@, meta.read);
    let edited = meta_flag(meta.edited, "edited"@);
    let deleted = meta_flag(meta.deleted, "deleted"@);
    let chat = meta_field("chat: "@, chat_number(meta.chat_id));
    assert(delivered =~= field_where(
        message.date_delivered != 0,
        "delivered: "@ + escaped(message.delivered_at@),
    ));
    assert(chat =~= field_where(
        message.chat_id is Some,
        "chat: "@ + escaped(decimal(message.chat_id->0 as int)),
    ));
    assert(read =~= field_where(message.date_read != 0, "read: "@ + escaped(message.read_at@)));
    let t0 = "<div class=\"forensic_meta\"><span>guid: "@;
    lemma_nothing(t0);
    let s0 = Seq::<Seq<char>>::empty();
    lemma_segment(t0, escaped(shortened_guid(message.guid@)), s0);
    let t1 = t0 + escaped(shortened_guid(message.guid@));
    let s1 = s0.push(escaped(shortened_guid(message.guid@)));
    lemma_gap(t1, "</span>"@, s1);
    let t2 = t1 + "</span>"@;
    lemma_segment(t2, delivered, s1);
    let t3 = t2 + delivered;
    let s2 = s1.push(delivered);
    lemma_segment(t3, read, s2);
    let t4 = t3 + read;
    let s3 = s2.push(read);
    lemma_segment(t4, edited, s3);
    let t5 = t4 + edited;
    let s4 = s3.push(edited);
    lemma_segment(t5, deleted, s4);
    let t6 = t5 + deleted;
    let s5 = s4.push(deleted);
    lemma_segment(t6, chat, s5);
    let t7 = t6 + chat;
    let s6 = s5.push(chat);
    lemma_gap(t7, "</div>"@, s6);
    let t8 = t7 + "</div>"@;
    assert(s6 =~= seq![escaped(shortened_guid(message.guid@)), delivered, read, edited, deleted, chat]);
    assert(edited == field_where(message.date_edited != 0, "edited"@));
    assert(deleted == field_where(message.deleted_from is Some, "deleted"@));
}

} // verus!
