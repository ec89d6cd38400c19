//! Edited parts of messages, and events in a conversation.
use vstd::prelude::*;

use crate::announcements::{announcer, AnnouncementView};
use crate::config::Config;
use crate::edited::{EditDiff, EditEvent, EditedPart};
use crate::escape::escaped;
use crate::html::announcement::{announcement_markup, event_markup};
use crate::html::attributes::{attributes_markup, cuts_between_chars};
use crate::html::edited::{
    edit_time, edited_markup, is_part_fit, is_version_fit, version_markup, version_row,
    version_rows,
};
use crate::laws::order::{
    in_order, lemma_both, lemma_enclosed_segment, lemma_gap, lemma_itself, lemma_joined_segment,
    lemma_nothing, lemma_segment, lemma_within,
};
use crate::messages::Message;
use crate::text::optional_text;

verus! {

// Edits.

/// The rows of a history are those of its versions in their order: the rows of
/// two histories one after the other are the rows of the first and then those
/// of the second.
pub proof fn law_history_keeps_its_order(a: Seq<EditEvent>, b: Seq<EditEvent>)
    ensures
        version_rows(a + b) == version_rows(a) + version_rows(b),
    decreases b.len(),
{
    if b.len() == 0 {
        assert(a + b =~= a);
        assert(version_rows(a) + version_rows(b) =~= version_rows(a));
    } else {
        assert((a + b).drop_last() =~= a + b.drop_last());
        law_history_keeps_its_order(a, b.drop_last());
        assert(version_rows(a + b) =~= version_rows(a) + version_rows(b));
    }
}

/// One version is one row.
pub proof fn law_one_version_is_one_row(event: EditEvent)
    ensures
        version_rows(seq![event]) == version_row(event),
{
    reveal_with_fuel(version_rows, 2);
    assert(seq![event].drop_last() =~= Seq::<EditEvent>::empty());
    assert(version_rows(seq![event]) =~= version_row(event));
}

/// A history can be rendered just where each of its versions can, and a version
/// wherever its body does not start with text, or the ranges there cut its text
/// between characters. What was taken back can always be rendered.
pub proof fn law_which_histories_fit(events: Vec<EditEvent>, who: String, diff: Option<String>)
    ensures
        is_part_fit(EditedPart::Unsent { who, diff }),
        is_part_fit(EditedPart::Edited(events)) <==> forall|i: int|
            0 <= i < events@.len() ==> {
                let event = #[trigger] events@[i];
                event.components@.len() == 0 || !(event.components@[0] is Text)
                    || cuts_between_chars(event.text@, event.components@[0]->Text_0@)
            },
{
    if forall|i: int|
        0 <= i < events@.len() ==> {
            let event = #[trigger] events@[i];
            event.components@.len() == 0 || !(event.components@[0] is Text) || cuts_between_chars(
                event.text@,
                event.components@[0]->Text_0@,
            )
        } {
        assert forall|i: int| 0 <= i < events@.len() implies is_version_fit(
            #[trigger] events@[i],
        ) by {}
    }
    let part = EditedPart::Edited(events);
    if is_part_fit(part) {
        assert(part->Edited_0 == events);
        assert(forall|i: int| 0 <= i < events@.len() ==> is_version_fit(#[trigger] events@[i]));
    }
}

/// What is read of a history: the row of each version, in their order.
pub open spec fn history_segments(events: Seq<EditEvent>) -> Seq<Seq<char>> {
    events.map_values(|event: EditEvent| version_row(event))
}

proof fn lemma_rows_in_order(events: Seq<EditEvent>)
    ensures
        in_order(version_rows(events), history_segments(events)),
    decreases events.len(),
{
    if events.len() == 0 {
        lemma_nothing(version_rows(events));
        assert(history_segments(events) =~= Seq::empty());
    } else {
        let before = events.drop_last();
        lemma_rows_in_order(before);
        lemma_segment(version_rows(before), version_row(events.last()), history_segments(before));
        assert(history_segments(before).push(version_row(events.last())) =~= history_segments(
            events,
        ));
    }
}

/// The history of an edited part shows all its versions, one row for each, in
/// their order.
pub proof fn law_history_shows_all_versions(events: Vec<EditEvent>)
    ensures
        in_order(edited_markup(EditedPart::Edited(events)), history_segments(events@)),
        history_segments(events@).len() == events@.len(),
        edited_markup(EditedPart::Edited(events)).len() == "<table>"@.len() + version_rows(
            events@,
        ).len() + "</table>"@.len(),
{
    lemma_rows_in_order(events@);
    lemma_within("<table>"@, version_rows(events@), "</table>"@, history_segments(events@));
}

/// What a row is enclosed by: the version that stands is the foot of the table.
pub open spec fn row_start(is_last: bool) -> Seq<char> {
    if is_last {
        "<tfoot>"@
    } else {
        "<tbody>"@
    }
}

/// A row tells when its version was made, and then shows that version. The
/// version that stands, and no other, is the foot of the table.
pub proof fn law_row_shows_its_version(event: EditEvent)
    ensures
        in_order(
            version_row(event),
            seq![
                row_start(event.is_last),
                escaped(edit_time(event.diff_since_previous)),
                version_markup(event),
            ],
        ),
        row_start(event.is_last).is_prefix_of(version_row(event)),
{
    let time = escaped(edit_time(event.diff_since_previous));
    let shown = version_markup(event);
    let row = "\n        <tr>\n            <td><span class=\"timestamp\">"@ + time
        + "</span></td>\n            <td>"@ + shown + "</td>\n        </tr>\n    "@;
    let t0 = "\n        <tr>\n            <td><span class=\"timestamp\">"@;
    lemma_nothing(t0);
    let s0 = Seq::<Seq<char>>::empty();
    lemma_segment(t0, time, s0);
    let t1 = t0 + time;
    let s1 = s0.push(time);
    lemma_gap(t1, "</span></td>\n            <td>"@, s1);
    let t2 = t1 + "</span></td>\n            <td>"@;
    lemma_segment(t2, shown, s1);
    let t3 = t2 + shown;
    let s2 = s1.push(shown);
    lemma_gap(t3, "</td>\n        </tr>\n    "@, s2);
    let t4 = t3 + "</td>\n        </tr>\n    "@;
    let start = row_start(event.is_last);
    let end = if event.is_last {
        "</tfoot>"@
    } else {
        "</tbody>"@
    };
    lemma_itself(start);
    lemma_both(start, seq![start], row, s2);
    lemma_gap(start + row, end, seq![start] + s2);
    assert(version_row(event) == start + row + end);
    assert(seq![start] + s2 =~= seq![start, time, shown]);
    assert(version_row(event).subrange(0, start.len() as int) =~= start);
}

/// A first version has no time; a later one tells how long after the version
/// before it it was made.
pub proof fn law_time_of_a_version(diff: EditDiff)
    ensures
        diff is First ==> edit_time(diff).len() == 0,
        diff is Failed ==> edit_time(diff) == "Edited later"@,
        diff matches EditDiff::Computed(after) ==> in_order(
            edit_time(diff),
            seq!["Edited "@ + after@ + " later"@],
        ),
{
    lemma_itself(edit_time(diff));
}

/// A version is shown with the effects on its text that stand first in its body,
/// and else as its plain text. What stands behind that has no part in it.
pub proof fn law_version_shows_its_text(a: EditEvent, b: EditEvent)
    ensures
        a.components@.len() > 0 && a.components@[0] is Text ==> version_markup(a)
            == attributes_markup(a.text@, a.components@[0]->Text_0@),
        a.components@.len() == 0 ==> version_markup(a) == escaped(a.text@),
        a.components@.len() > 0 && b.components@.len() > 0 && a.components@[0] == b.components@[0]
            && a.text@ == b.text@ ==> version_markup(a) == version_markup(b),
        a.components@.len() > 0 && !(a.components@[0] is Text) ==> version_markup(a) == escaped(
            a.text@,
        ),
{
}

/// A part that was taken back says by whom, and then how long after sending,
/// where that is known.
pub proof fn law_unsent_part_says_who_and_when(who: String, after: String)
    ensures
        in_order(
            edited_markup(EditedPart::Unsent { who, diff: Some(after) }),
            seq![escaped(who@), escaped(after@) + " after sending!</span>"@],
        ),
        in_order(edited_markup(EditedPart::Unsent { who, diff: None }), seq![escaped(who@)]),
{
    let name = escaped(who@);
    let time = escaped(after@);
    let t0 = "<span class=\"unsent\">"@;
    lemma_nothing(t0);
    let s0 = Seq::<Seq<char>>::empty();
    lemma_segment(t0, name, s0);
    let t1 = t0 + name;
    let s1 = s0.push(name);
    lemma_gap(t1, " unsent this message part "@, s1);
    let t2 = t1 + " unsent this message part "@;
    lemma_joined_segment(t2, time, " after sending!</span>"@, s1);
    let t3 = t2 + time + " after sending!</span>"@;
    let s2 = s1.push(time + " after sending!</span>"@);
    assert(s2 =~= seq![name, time + " after sending!</span>"@]);
    lemma_itself(name);
    lemma_within(
        "<span class=\"unsent\">"@,
        name,
        " unsent this message part!</span>"@,
        seq![name],
    );
}

// Events.

/// An event says, in this order: when it was, who caused it, and what happened.
/// It stands on lines of its own, unless it is a message that was taken back.
pub proof fn law_event_says_when_who_and_what(
    config: Config,
    msg: Message,
    event: AnnouncementView,
)
    requires
        msg.event() == Some(event),
    ensures
        in_order(
            announcement_markup(config, msg),
            seq![
                "<div class=\"announcement\">\n    <p><span class=\"timestamp\">"@ + escaped(
                    msg.sent_at@,
                ),
                "</span> "@ + escaped(
                    announcer(msg.sender@, optional_text(config.options.custom_name), "You"@),
                ),
                " "@ + event_markup(event) + "</p>\n</div>"@,
            ],
        ),
        !(event is FullyUnsent) ==> "\n"@.is_prefix_of(announcement_markup(config, msg))
            && "\n"@.is_suffix_of(announcement_markup(config, msg)),
        event is FullyUnsent ==> "<div class=\"announcement\">"@.is_prefix_of(
            announcement_markup(config, msg),
        ),
{
    let time = escaped(msg.sent_at@);
    let who = escaped(announcer(msg.sender@, optional_text(config.options.custom_name), "You"@));
    let what = event_markup(event);
    let t0 = "<div class=\"announcement\">\n    <p><span class=\"timestamp\">"@ + time;
    lemma_nothing(Seq::empty());
    lemma_segment(Seq::empty(), t0, Seq::empty());
    assert(Seq::<char>::empty() + t0 =~= t0);
    let s0 = Seq::<Seq<char>>::empty().push(t0);
    lemma_joined_segment(t0, "</span> "@, who, s0);
    let t1 = t0 + "</span> "@ + who;
    let s1 = s0.push("</span> "@ + who);
    lemma_enclosed_segment(t1, " "@, what, "</p>\n</div>"@, s1);
    let t2 = t1 + " "@ + what + "</p>\n</div>"@;
    let s2 = s1.push(" "@ + what + "</p>\n</div>"@);
    assert(s2 =~= seq!["<div class=\"announcement\">\n    <p><span class=\"timestamp\">"@ + time, "</span> "@ + who, " "@ + what + "</p>\n</div>"@]);
    let inner = t2;
    lemma_within("\n"@, inner, "\n"@, s2);
    let page = announcement_markup(config, msg);
    reveal_strlit("\n");
    reveal_strlit("<div class=\"announcement\">");
    reveal_strlit("<div class=\"announcement\">\n    <p><span class=\"timestamp\">");
    if event is FullyUnsent {
        let open = "<div class=\"announcement\">"@;
        assert(page.subrange(0, open.len() as int) =~= open);
    } else {
        assert(page.subrange(0, 1) =~= "\n"@);
        assert(page.subrange(page.len() - 1, page.len() as int) =~= "\n"@);
    }
}

/// The database's owner is called by the name they chose, or as they are
/// addressed; all others are called by their own name, whatever the owner is
/// called.
pub proof fn law_who_caused_an_event(
    sender: Seq<char>,
    custom_name: Option<Seq<char>>,
    default_me: Seq<char>,
)
    ensures
        sender != "Me"@ ==> announcer(sender, custom_name, default_me) == sender,
        custom_name is Some ==> announcer("Me"@, custom_name, default_me) == custom_name->0,
        custom_name is None ==> announcer("Me"@, custom_name, default_me) == default_me,
{
}

/// What is done to a group takes precedence over a message that was taken back,
/// and that over an audio message that was kept.
pub proof fn law_which_event(msg: Message)
    ensures
        msg.group_event() is Some ==> msg.event() == Some(
            AnnouncementView::GroupAction(msg.group_event()->0),
        ),
        msg.group_event() is None && msg.all_unsent() ==> msg.event() == Some(
            AnnouncementView::FullyUnsent,
        ),
        msg.group_event() is None && !msg.all_unsent() && msg.item_type == 5 ==> msg.event()
            == Some(AnnouncementView::AudioMessageKept),
        msg.group_event() is None && !msg.all_unsent() && msg.item_type != 5 ==> msg.event()
            is None,
{
}

/// Whoever is added is the other party, unless that is the sender, who then has
/// a new number; whoever is removed is the other party too. A name that a group
/// is given is the one that is recorded. What is done to its photo or background
/// is told apart by the sort of action; other rows do nothing to a group.
pub proof fn law_what_is_done_to_a_group(msg: Message)
    requires
        msg.item_type == 1 ==> msg.other_handle is Some,
    ensures
        msg.item_type == 1 && msg.group_action_type == 0 && msg.handle_id != msg.other_handle
            ==> msg.event() is Some && event_markup(msg.event()->0) == "added "@ + escaped(
            msg.other_name@,
        ) + " to the conversation."@,
        msg.item_type == 1 && msg.group_action_type == 0 && msg.handle_id == msg.other_handle
            ==> msg.event() is Some && event_markup(msg.event()->0)
            == "changed their phone number."@,
        msg.item_type == 1 && msg.group_action_type == 1 ==> msg.event() is Some
            && event_markup(msg.event()->0) == "removed "@ + escaped(msg.other_name@)
            + " from the conversation."@,
        msg.item_type == 2 && msg.group_title is Some ==> msg.event() is Some
            && event_markup(msg.event()->0) == "named the conversation <b>"@ + escaped(
            msg.group_title->0@,
        ) + "</b>"@,
        msg.item_type == 3 && msg.group_action_type == 0 ==> msg.event() is Some && event_markup(
            msg.event()->0,
        ) == "left the conversation."@,
        msg.item_type == 3 && msg.group_action_type == 1 ==> msg.event() is Some && event_markup(
            msg.event()->0,
        ) == "changed the group photo."@,
        msg.item_type == 3 && msg.group_action_type == 2 ==> msg.event() is Some && event_markup(
            msg.event()->0,
        ) == "removed the group photo."@,
        msg.item_type == 3 && msg.group_action_type == 4 ==> msg.event() is Some && event_markup(
            msg.event()->0,
        ) == "changed the chat background."@,
        msg.item_type == 3 && msg.group_action_type == 6 ==> msg.event() is Some && event_markup(
            msg.event()->0,
        ) == "removed the chat background."@,
        msg.item_type < 1 || msg.item_type > 3 ==> msg.group_event() is None,
{
}

} // verus!
