//! Reactions.
use vstd::prelude::*;

use crate::attachments::Attachment;
use crate::config::Config;
use crate::error::RuntimeErrorView;
use crate::escape::escaped;
use crate::html::attachment::sticker_markup;
use crate::html::forensic::{in_reaction_to_markup, shortened_guid, ReferenceView};
use crate::html::tapback::{
    bubble_class, reaction_markup, sticker_missing_markup, sticker_tapback_markup,
    tapback_bubble_markup, tapback_markup, tapback_time_markup,
};
use crate::laws::order::{
    in_order, lemma_enclosed_segment, lemma_gap, lemma_itself, lemma_joined_segment,
    lemma_nothing, lemma_segment,
};
use crate::messages::{Message, TapbackAction};
use crate::tapback::{is_kind_of, TapbackKind, TapbackMessage};

verus! {

/// A reaction that is told in words names the reaction, and then who made it.
/// Without forensic mode nothing else is told of it.
pub proof fn law_reaction_in_words(config: Config, msg: TapbackMessage)
    requires
        msg.is_reaction(),
        msg.action() is Added,
        !msg.is_sticker(),
    ensures
        tapback_markup(config, msg) matches Ok(markup) && in_order(
            markup,
            seq![
                "\"><b>"@ + escaped(msg.label()) + "</b> "@,
                "by "@ + escaped(msg.message.sender@),
                tapback_time_markup(config.options.forensic, msg.message.sent_at@),
            ],
        ),
{
    let time = tapback_time_markup(config.options.forensic, msg.message.sent_at@);
    let label = escaped(msg.label());
    let who = escaped(msg.message.sender@);
    let t0 = "<span class=\"tapback"@;
    lemma_nothing(t0);
    let s0 = Seq::<Seq<char>>::empty();
    lemma_gap(t0, ""@, s0);
    let t1 = t0 + ""@;
    lemma_enclosed_segment(t1, "\"><b>"@, label, "</b> "@, s0);
    let t2 = t1 + "\"><b>"@ + label + "</b> "@;
    let s1 = s0.push("\"><b>"@ + label + "</b> "@);
    lemma_gap(t2, ""@, s1);
    let t3 = t2 + ""@;
    lemma_joined_segment(t3, "by "@, who, s1);
    let t4 = t3 + "by "@ + who;
    let s2 = s1.push("by "@ + who);
    lemma_segment(t4, time, s2);
    let t5 = t4 + time;
    let s3 = s2.push(time);
    lemma_gap(t5, "</span>"@, s3);
    let t6 = t5 + "</span>"@;
    assert(s3 =~= seq!["\"><b>"@ + label + "</b> "@, "by "@ + who, time]);
    assert(reaction_markup(msg.label(), msg.message.sender@, ""@, ""@, time) == t6);
}

/// In forensic mode a reaction that was taken off again is told in words, a
/// sticker too: what it was, that it was removed, by whom and when. It is set
/// off from the others.
pub proof fn law_removed_reaction_in_words(config: Config, msg: TapbackMessage)
    requires
        msg.is_reaction(),
        msg.action() is Removed,
        config.options.forensic,
    ensures
        tapback_markup(config, msg) matches Ok(markup) && in_order(
            markup,
            seq![
                " tapback_removed"@,
                "\"><b>"@ + escaped(msg.label()) + "</b> "@,
                "removed "@ + "by "@ + escaped(msg.message.sender@),
                tapback_time_markup(true, msg.message.sent_at@),
            ],
        ),
{
    let time = tapback_time_markup(true, msg.message.sent_at@);
    let label = escaped(msg.label());
    let who = escaped(msg.message.sender@);
    let t0 = "<span class=\"tapback"@;
    lemma_nothing(t0);
    let s0 = Seq::<Seq<char>>::empty();
    lemma_segment(t0, " tapback_removed"@, s0);
    let t1 = t0 + " tapback_removed"@;
    let s1 = s0.push(" tapback_removed"@);
    lemma_enclosed_segment(t1, "\"><b>"@, label, "</b> "@, s1);
    let t2 = t1 + "\"><b>"@ + label + "</b> "@;
    let s2 = s1.push("\"><b>"@ + label + "</b> "@);
    lemma_enclosed_segment(t2, "removed "@, "by "@, who, s2);
    let t3 = t2 + "removed "@ + "by "@ + who;
    let s3 = s2.push("removed "@ + "by "@ + who);
    lemma_segment(t3, time, s3);
    let t4 = t3 + time;
    let s4 = s3.push(time);
    lemma_gap(t4, "</span>"@, s4);
    let t5 = t4 + "</span>"@;
    assert(s4 =~= seq![" tapback_removed"@, "\"><b>"@ + label + "</b> "@, "removed "@ + "by "@ + who, time]);
    assert(reaction_markup(
        msg.label(),
        msg.message.sender@,
        "removed "@,
        " tapback_removed"@,
        time,
    ) == t5);
}

/// In forensic mode the time of a reaction is shown as it is; else it has no part
/// in what is shown.
pub proof fn law_time_of_a_reaction(config: Config, a: TapbackMessage, b: TapbackMessage)
    requires
        a.is_reaction(),
        a.message.reaction() == b.message.reaction(),
        a.message.sender@ == b.message.sender@,
        a.attachments == b.attachments,
    ensures
        !config.options.forensic ==> tapback_markup(config, a) == tapback_markup(config, b),
        in_order(
            tapback_time_markup(true, a.message.sent_at@),
            seq!["<div class=\"tapback_time\">"@ + a.message.sent_at@ + "</div>"@],
        ),
        tapback_time_markup(false, a.message.sent_at@).len() == 0,
{
    lemma_itself(tapback_time_markup(true, a.message.sent_at@));
}

/// A sticker is shown as its first attachment is, then by whom it was put on. The
/// attachments behind the first have no part in that.
pub proof fn law_sticker_is_shown_by_its_first_attachment(
    config: Config,
    msg: TapbackMessage,
    first: Attachment,
)
    requires
        msg.is_reaction(),
        msg.action() is Added,
        msg.is_sticker(),
        msg.attachments matches Ok(found) && found@.len() > 0 && found@[0] == first,
    ensures
        tapback_markup(config, msg) matches Ok(markup) && in_order(
            markup,
            seq![
                sticker_markup(first, !config.options.no_lazy),
                "<div class=\"sticker_tapback\">&nbsp;by "@ + escaped(msg.message.sender@),
                tapback_time_markup(config.options.forensic, msg.message.sent_at@),
            ],
        ),
{
    let payload = sticker_markup(first, !config.options.no_lazy);
    let who = escaped(msg.message.sender@);
    let time = tapback_time_markup(config.options.forensic, msg.message.sent_at@);
    let t0 = payload;
    lemma_nothing(Seq::empty());
    lemma_segment(Seq::empty(), t0, Seq::empty());
    assert(Seq::<char>::empty() + t0 =~= t0);
    let s0 = Seq::<Seq<char>>::empty().push(t0);
    lemma_joined_segment(t0, "<div class=\"sticker_tapback\">&nbsp;by "@, who, s0);
    let t1 = t0 + "<div class=\"sticker_tapback\">&nbsp;by "@ + who;
    let s1 = s0.push("<div class=\"sticker_tapback\">&nbsp;by "@ + who);
    lemma_segment(t1, time, s1);
    let t2 = t1 + time;
    let s2 = s1.push(time);
    lemma_gap(t2, "</div>"@, s2);
    let t3 = t2 + "</div>"@;
    assert(s2 =~= seq![payload, "<div class=\"sticker_tapback\">&nbsp;by "@ + who, time]);
    assert(sticker_tapback_markup(payload, msg.message.sender@, time) == t3);
}

/// A sticker without an attachment is said to be missing, with whose it was.
pub proof fn law_missing_sticker_names_its_owner(config: Config, msg: TapbackMessage)
    requires
        msg.is_reaction(),
        msg.action() is Added,
        msg.is_sticker(),
        msg.attachments matches Ok(found) && found@.len() == 0,
    ensures
        tapback_markup(config, msg) matches Ok(markup) && in_order(
            markup,
            seq![
                "\">Sticker from "@ + escaped(msg.message.sender@) + " not found!"@,
                tapback_time_markup(config.options.forensic, msg.message.sent_at@),
            ],
        ),
{
    let who = escaped(msg.message.sender@);
    let time = tapback_time_markup(config.options.forensic, msg.message.sent_at@);
    let t0 = "<span class=\"tapback"@;
    lemma_nothing(t0);
    let s0 = Seq::<Seq<char>>::empty();
    lemma_gap(t0, ""@, s0);
    let t1 = t0 + ""@;
    lemma_enclosed_segment(t1, "\">Sticker from "@, who, " not found!"@, s0);
    let t2 = t1 + "\">Sticker from "@ + who + " not found!"@;
    let s1 = s0.push("\">Sticker from "@ + who + " not found!"@);
    lemma_segment(t2, time, s1);
    let t3 = t2 + time;
    let s2 = s1.push(time);
    lemma_gap(t3, "</span>"@, s2);
    let t4 = t3 + "</span>"@;
    assert(s2 =~= seq!["\">Sticker from "@ + who + " not found!"@, time]);
    assert(sticker_missing_markup(msg.message.sender@, ""@, time) == t4);
}

/// Only a sticker that was put on can fail, and just where its attachments could
/// not be read: with what was said of that.
pub proof fn law_only_stickers_fail(config: Config, msg: TapbackMessage)
    requires
        msg.is_reaction(),
    ensures
        tapback_markup(config, msg) is Err <==> msg.action() is Added && msg.is_sticker()
            && msg.attachments is Err,
        tapback_markup(config, msg) matches Err(why) ==> why == RuntimeErrorView::DatabaseError(
            msg.attachments->Err_0@,
        ),
{
}

/// What is no sticker that was put on is shown the same whatever its attachments
/// are.
pub proof fn law_other_reactions_ignore_attachments(
    config: Config,
    a: TapbackMessage,
    b: TapbackMessage,
)
    requires
        a.is_reaction(),
        a.message == b.message,
        !(a.action() is Added && a.is_sticker()),
    ensures
        tapback_markup(config, a) == tapback_markup(config, b),
{
}

/// What sets the bubble of a reaction off that was taken off again.
pub open spec fn set_off(action: TapbackAction) -> Seq<char> {
    if action is Removed {
        " tapback_bubble_removed"@
    } else {
        ""@
    }
}

/// Whether a reaction was put on or taken off, in a word.
pub open spec fn word_for(action: TapbackAction) -> Seq<char> {
    if action is Removed {
        "Removed"@
    } else {
        "Added"@
    }
}

/// The line that leads to what a reaction was made to, where that is known.
pub open spec fn line_to(target: Option<ReferenceView>) -> Seq<char> {
    match target {
        Some(target) => "\n        "@ + in_reaction_to_markup(target),
        None => Seq::empty(),
    }
}

/// What a reaction comes down to: an added sticker to its first attachment as it
/// is rendered, or to a missing sticker where it has none, and anything else to
/// the reaction itself; always with who made it.
pub proof fn law_what_a_reaction_comes_down_to<S>(
    kind: TapbackKind<'_, S>,
    msg: TapbackMessage,
    renders: spec_fn(Attachment, S) -> bool,
)
    requires
        msg.is_reaction(),
        is_kind_of(kind, msg, renders),
        msg.action() is Added && msg.is_sticker() ==> msg.attachments is Ok,
    ensures
        match kind {
            TapbackKind::Reaction { tapback, who } => who@ == msg.message.sender@
                && tapback.label() == msg.label() && !(msg.action() is Added && msg.is_sticker()),
            TapbackKind::Sticker { payload, who } => who@ == msg.message.sender@ && msg.action()
                is Added && msg.is_sticker() && msg.attachments->Ok_0@.len() > 0 && renders(
                msg.attachments->Ok_0@[0],
                payload,
            ),
            TapbackKind::StickerMissing { who } => who@ == msg.message.sender@ && msg.action()
                is Added && msg.is_sticker() && msg.attachments->Ok_0@.len() == 0,
        },
{
}

/// A reaction's bubble stands under an anchor of its identifier and says, in this
/// order: when and by whom it was made, what it was made to, what it was,
/// whether it was put on or taken off and by whom, and its identifier in short.
pub proof fn law_bubble_says_what_was_done(msg: Message, target: Option<ReferenceView>)
    requires
        msg.reaction() is Some,
    ensures
        ({
            let (action, _, label) = msg.reaction()->0;
            in_order(
                tapback_bubble_markup(msg, target),
                seq![
                    "<div class=\"message\" id=\""@ + escaped(msg.guid@),
                    bubble_class(msg),
                    set_off(action),
                    escaped(msg.sent_at@),
                    "</span>\n            <span class=\"sender\">"@ + escaped(msg.sender@),
                    line_to(target),
                    "\n        <div class=\"tapback_summary\"><b>"@ + escaped(label) + "</b> "@,
                    word_for(action) + " by "@ + escaped(msg.sender@),
                    escaped(shortened_guid(msg.guid@)),
                ],
            )
        }),
{
    let (action, sticker, label) = msg.reaction()->0;
    let class = set_off(action);
    let line = line_to(target);
    let word = word_for(action);
    let t0 = "<div class=\"message\" id=\""@ + escaped(msg.guid@);
    lemma_nothing(Seq::empty());
    lemma_segment(Seq::empty(), t0, Seq::empty());
    assert(Seq::<char>::empty() + t0 =~= t0);
    let s0 = Seq::<Seq<char>>::empty().push(t0);
    lemma_gap(t0, "\">\n    <div class=\""@, s0);
    let t1 = t0 + "\">\n    <div class=\""@;
    lemma_segment(t1, bubble_class(msg), s0);
    let t2 = t1 + bubble_class(msg);
    let s1 = s0.push(bubble_class(msg));
    lemma_gap(t2, " tapback_bubble"@, s1);
    let t3 = t2 + " tapback_bubble"@;
    lemma_segment(t3, class, s1);
    let t4 = t3 + class;
    let s2 = s1.push(class);
    lemma_gap(t4, "\">\n        <p>\n            <span class=\"timestamp\">"@, s2);
    let t5 = t4 + "\">\n        <p>\n            <span class=\"timestamp\">"@;
    lemma_segment(t5, escaped(msg.sent_at@), s2);
    let t6 = t5 + escaped(msg.sent_at@);
    let s3 = s2.push(escaped(msg.sent_at@));
    lemma_joined_segment(t6, "</span>\n            <span class=\"sender\">"@, escaped(msg.sender@), s3);
    let t7 = t6 + "</span>\n            <span class=\"sender\">"@ + escaped(msg.sender@);
    let s4 = s3.push("</span>\n            <span class=\"sender\">"@ + escaped(msg.sender@));
    lemma_gap(t7, "</span>\n        </p>"@, s4);
    let t8 = t7 + "</span>\n        </p>"@;
    lemma_segment(t8, line, s4);
    let t9 = t8 + line;
    let s5 = s4.push(line);
    lemma_enclosed_segment(t9, "\n        <div class=\"tapback_summary\"><b>"@, escaped(label), "</b> "@, s5);
    let t10 = t9 + "\n        <div class=\"tapback_summary\"><b>"@ + escaped(label) + "</b> "@;
    let s6 = s5.push("\n        <div class=\"tapback_summary\"><b>"@ + escaped(label) + "</b> "@);
    lemma_enclosed_segment(t10, word, " by "@, escaped(msg.sender@), s6);
    let t11 = t10 + word + " by "@ + escaped(msg.sender@);
    let s7 = s6.push(word + " by "@ + escaped(msg.sender@));
    lemma_gap(t11, "</div>\n        <div class=\"forensic_meta\">guid: "@, s7);
    let t12 = t11 + "</div>\n        <div class=\"forensic_meta\">guid: "@;
    lemma_segment(t12, escaped(shortened_guid(msg.guid@)), s7);
    let t13 = t12 + escaped(shortened_guid(msg.guid@));
    let s8 = s7.push(escaped(shortened_guid(msg.guid@)));
    lemma_gap(t13, "</div>\n    </div>\n</div>\n"@, s8);
    let t14 = t13 + "</div>\n    </div>\n</div>\n"@;
    assert(s8 =~= seq!["<div class=\"message\" id=\""@ + escaped(msg.guid@), bubble_class(msg), class, escaped(msg.sent_at@), "</span>\n            <span class=\"sender\">"@ + escaped(msg.sender@), line, "\n        <div class=\"tapback_summary\"><b>"@ + escaped(label) + "</b> "@, word + " by "@ + escaped(msg.sender@), escaped(shortened_guid(msg.guid@))]);
}

} // verus!
