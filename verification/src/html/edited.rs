//! Edited and unsent parts of messages in HTML.
use vstd::prelude::*;

use crate::edited::{BubbleComponent, EditDiff, EditEvent, EditedPart};
use crate::escape::{escaped, sanitize_html, Html};
use crate::html::attributes::{attributes_markup, can_format_attributes, cuts_between_chars};
use crate::html::HTML;
use crate::text::optional_text;
use crate::text::seq_lemmas::{lemma_take_all, lemma_take_step};

verus! {

/// When a version was made, in words.
pub open spec fn edit_time(diff: EditDiff) -> Seq<char> {
    match diff {
        EditDiff::First => Seq::empty(),
        EditDiff::Failed => "Edited later"@,
        EditDiff::Computed(diff) => "Edited "@ + diff@ + " later"@,
    }
}

/// The text of a version, with the effects on it where its body starts with
/// text.
pub open spec fn version_markup(event: EditEvent) -> Seq<char> {
    if event.components@.len() > 0 && event.components@[0] is Text {
        attributes_markup(event.text@, event.components@[0]->Text_0@)
    } else {
        escaped(event.text@)
    }
}

/// Whether the effects on a version's text can be rendered.
pub open spec fn is_version_fit(event: EditEvent) -> bool {
    event.components@.len() > 0 && event.components@[0] is Text ==> cuts_between_chars(
        event.text@,
        event.components@[0]->Text_0@,
    )
}

/// Whether the effects on the text of all versions of a part can be rendered.
pub open spec fn is_part_fit(part: EditedPart) -> bool {
    match part {
        EditedPart::Edited(events) => forall|i: int|
            0 <= i < events@.len() ==> is_version_fit(#[trigger] events@[i]),
        EditedPart::Unsent { .. } => true,
    }
}

/// One row of the table of versions. The version that stands is the foot of the
/// table.
pub open spec fn version_row(event: EditEvent) -> Seq<char> {
    let row = "\n        <tr>\n            <td><span class=\"timestamp\">"@ + escaped(
        edit_time(event.diff_since_previous),
    ) + "</span></td>\n            <td>"@ + version_markup(event) + "</td>\n        </tr>\n    "@;
    if event.is_last {
        "<tfoot>"@ + row + "</tfoot>"@
    } else {
        "<tbody>"@ + row + "</tbody>"@
    }
}

/// The rows of the table of versions.
pub open spec fn version_rows(events: Seq<EditEvent>) -> Seq<char>
    decreases events.len(),
{
    if events.len() == 0 {
        Seq::empty()
    } else {
        version_rows(events.drop_last()) + version_row(events.last())
    }
}

/// What became of a part: the table of its versions, or who took it back.
pub open spec fn edited_markup(part: EditedPart) -> Seq<char> {
    match part {
        EditedPart::Edited(events) => "<table>"@ + version_rows(events@) + "</table>"@,
        EditedPart::Unsent { who, diff } => match diff {
            Some(diff) => "<span class=\"unsent\">"@ + escaped(who@)
                + " unsent this message part "@ + escaped(diff@) + " after sending!</span>"@,
            None => "<span class=\"unsent\">"@ + escaped(who@)
                + " unsent this message part!</span>"@,
        },
    }
}

/// Whether the effects on the text of all versions of a part can be rendered.
pub fn can_format_edited(part: &EditedPart) -> (can: bool)
    ensures
        can == is_part_fit(*part),
{
    match part {
        EditedPart::Edited(events) => {
            for i in 0..events.len()
                invariant
                    *part == EditedPart::Edited(*events),
                    forall|j: int| 0 <= j < i ==> is_version_fit(#[trigger] events@[j]),
            {
                let event = &events[i];
                let fit = if event.components.len() > 0 {
                    match &event.components[0] {
                        BubbleComponent::Text(attributes) => can_format_attributes(
                            event.text.as_str(),
                            attributes.as_slice(),
                        ),
                        _ => true,
                    }
                } else {
                    true
                };
                if !fit {
                    proof {
                        if is_part_fit(*part) {
                            assert(is_version_fit(part->Edited_0@[i as int]));
                        }
                    }
                    return false;
                }
            }
            true
        },
        EditedPart::Unsent { .. } => true,
    }
}

fn render_version_row(is_last: bool, timestamp: &str, text_html: &Html) -> (row: String)
    ensures
        row@ == {
            let row = "\n        <tr>\n            <td><span class=\"timestamp\">"@ + escaped(
                timestamp@,
            ) + "</span></td>\n            <td>"@ + text_html@ + "</td>\n        </tr>\n    "@;
            if is_last {
                "<tfoot>"@ + row + "</tfoot>"@
            } else {
                "<tbody>"@ + row + "</tbody>"@
            }
        },
{
    let mut row = "\n        <tr>\n            <td><span class=\"timestamp\">".to_string();
    row.append(sanitize_html(timestamp).as_str());
    row.append("</span></td>\n            <td>");
    row.append(text_html.as_str());
    row.append("</td>\n        </tr>\n    ");
    let mut section = if is_last {
        "<tfoot>".to_string()
    } else {
        "<tbody>".to_string()
    };
    section.append(row.as_str());
    if is_last {
        section.append("</tfoot>");
    } else {
        section.append("</tbody>");
    }
    section
}

impl<'a> HTML<'a> {
    /// Render what became of a part of a message. A part that was neither edited
    /// nor taken back has nothing to show.
    pub fn format_edited(&self, part: Option<&EditedPart>) -> (markup: Option<String>)
        requires
            part is Some ==> is_part_fit(*part->0),
        ensures
            optional_text(markup) == match part {
                Some(part) => Some(edited_markup(*part)),
                None => None,
            },
    {
        match part {
            None => None,
            Some(EditedPart::Edited(events)) => {
                let mut rows = String::new();
                for i in 0..events.len()
                    invariant
                        forall|j: int|
                            0 <= j < events@.len() ==> is_version_fit(#[trigger] events@[j]),
                        rows@ == version_rows(events@.take(i as int)),
                {
                    proof {
                        lemma_take_step(events@, i as int);
                        assert(is_version_fit(events@[i as int]));
                    }
                    rows.append(self.format_version(&events[i]).as_str());
                }
                proof {
                    lemma_take_all(events@);
                }
                let mut markup = "<table>".to_string();
                markup.append(rows.as_str());
                markup.append("</table>");
                Some(markup)
            },
            Some(EditedPart::Unsent { who, diff }) => {
                let mut markup = "<span class=\"unsent\">".to_string();
                markup.append(sanitize_html(who.as_str()).as_str());
                match diff {
                    Some(diff) => {
                        markup.append(" unsent this message part ");
                        markup.append(sanitize_html(diff.as_str()).as_str());
                        markup.append(" after sending!</span>");
                    },
                    None => markup.append(" unsent this message part!</span>"),
                }
                Some(markup)
            },
        }
    }

    fn format_version(&self, event: &EditEvent) -> (row: String)
        requires
            is_version_fit(*event),
        ensures
            row@ == version_row(*event),
    {
        let text = if event.components.len() > 0 {
            match &event.components[0] {
                BubbleComponent::Text(attributes) => self.format_attributes(
                    event.text.as_str(),
                    attributes.as_slice(),
                ),
                _ => sanitize_html(event.text.as_str()),
            }
        } else {
            sanitize_html(event.text.as_str())
        };
        let timestamp = match &event.diff_since_previous {
            EditDiff::First => String::new(),
            EditDiff::Failed => "Edited later".to_string(),
            EditDiff::Computed(diff) => {
                let mut timestamp = "Edited ".to_string();
                timestamp.append(diff.as_str());
                timestamp.append(" later");
                timestamp
            },
        };
        render_version_row(event.is_last, timestamp.as_str(), &Html::trust(text))
    }
}

} // verus!
