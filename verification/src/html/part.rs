//! The parts of a message in HTML.
use vstd::prelude::*;

use crate::escape::{escaped, sanitize_html, Html};
use crate::html::HTML;
use crate::messages::Message;

verus! {

/// The body of one part of a message.
#[derive(Debug, Clone)]
pub enum PartBody {
    /// Nothing.
    Empty,
    /// Text.
    TextBubble { html: Html },
    /// Text with its translation.
    TextTranslated { translated: Html, original: Html },
    /// Text that was edited.
    TextEdited { html: Html },
    /// An attachment.
    Attachment { html: Html },
    /// An attachment that could not be had, with what is known of it.
    AttachmentError { error: Html },
    /// An attachment that is not recorded.
    AttachmentMissing,
    /// A sticker.
    Sticker { html: Html },
    /// What an app made.
    App { html: Html },
    /// What an app made and that could not be understood.
    AppError { html: Html },
    /// A part that was taken back.
    Retracted { html: Html },
}

/// The body of a part.
pub open spec fn body_markup(body: PartBody) -> Seq<char> {
    match body {
        PartBody::Empty => ""@,
        PartBody::TextBubble { html } => "<span class=\"bubble\">"@ + html@ + "</span>"@,
        PartBody::TextTranslated { translated, original } => {
            "<span class=\"bubble\">"@ + original@
                + "</span>\n    <div class=\"translated\"><span class=\"bubble\">"@ + translated@
                + "</span></div>"@
        },
        PartBody::TextEdited { html } => "<div class=\"edited\">"@ + html@ + "</div>"@,
        PartBody::Attachment { html } => "<div class=\"attachment\">"@ + html@ + "</div>"@,
        PartBody::AttachmentError { error } => {
            "<span class=\"attachment_error\">Unable to locate attachment: "@ + error@
                + "</span>"@
        },
        PartBody::AttachmentMissing => {
            "<span class=\"attachment_error\">Attachment does not exist!</span>"@
        },
        PartBody::Sticker { html } => "<div class=\"sticker\">"@ + html@ + "</div>"@,
        PartBody::App { html } => "<div class=\"app\">"@ + html@ + "</div>"@,
        PartBody::AppError { html } => "<div class=\"app_error\">"@ + html@ + "</div>"@,
        PartBody::Retracted { html } => "<span class=\"unsent\">"@ + html@ + "</span>"@,
    }
}

fn enclosed(before: &str, html: &Html, after: &str) -> (markup: String)
    ensures
        markup@ == before@ + html@ + after@,
{
    let mut markup = before.to_string();
    markup.append(html.as_str());
    markup.append(after);
    markup
}

/// Render the body of a part.
pub fn render_body(body: &PartBody) -> (markup: String)
    ensures
        markup@ == body_markup(*body),
{
    match body {
        PartBody::Empty => "".to_string(),
        PartBody::TextBubble { html } => enclosed("<span class=\"bubble\">", html, "</span>"),
        PartBody::TextTranslated { translated, original } => {
            let mut markup = "<span class=\"bubble\">".to_string();
            markup.append(original.as_str());
            markup.append("</span>\n    <div class=\"translated\"><span class=\"bubble\">");
            markup.append(translated.as_str());
            markup.append("</span></div>");
            markup
        },
        PartBody::TextEdited { html } => enclosed("<div class=\"edited\">", html, "</div>"),
        PartBody::Attachment { html } => enclosed("<div class=\"attachment\">", html, "</div>"),
        PartBody::AttachmentError { error } => enclosed(
            "<span class=\"attachment_error\">Unable to locate attachment: ",
            error,
            "</span>",
        ),
        PartBody::AttachmentMissing => {
            "<span class=\"attachment_error\">Attachment does not exist!</span>".to_string()
        },
        PartBody::Sticker { html } => enclosed("<div class=\"sticker\">", html, "</div>"),
        PartBody::App { html } => enclosed("<div class=\"app\">", html, "</div>"),
        PartBody::AppError { html } => enclosed("<div class=\"app_error\">", html, "</div>"),
        PartBody::Retracted { html } => enclosed("<span class=\"unsent\">", html, "</span>"),
    }
}

/// What is said of an app's message that could not be understood.
pub open spec fn app_error_text(variant: Seq<char>, why: Seq<char>) -> Seq<char> {
    "Unable to format "@ + variant + " message: "@ + why
}

impl<'a> HTML<'a> {
    pub fn body_empty(&self) -> (body: PartBody)
        ensures
            body == PartBody::Empty,
    {
        PartBody::Empty
    }

    /// Text that is markup already.
    pub fn body_text_bubble(&self, content: String) -> (body: PartBody)
        ensures
            body matches PartBody::TextBubble { html } && html@ == content@,
    {
        PartBody::TextBubble { html: Html::trust(content) }
    }

    /// Text and its translation, both markup already.
    pub fn body_text_translated(&self, translated: String, original: String) -> (body: PartBody)
        ensures
            body matches PartBody::TextTranslated { translated: t, original: o } && t@
                == translated@ && o@ == original@,
    {
        PartBody::TextTranslated {
            translated: Html::trust(translated),
            original: Html::trust(original),
        }
    }

    /// The versions of an edited text, markup already.
    pub fn body_text_edited(&self, content: String) -> (body: PartBody)
        ensures
            body matches PartBody::TextEdited { html } && html@ == content@,
    {
        PartBody::TextEdited { html: Html::trust(content) }
    }

    /// An attachment, markup already.
    pub fn body_attachment(&self, content: String) -> (body: PartBody)
        ensures
            body matches PartBody::Attachment { html } && html@ == content@,
    {
        PartBody::Attachment { html: Html::trust(content) }
    }

    /// An attachment that could not be had. What is known of it is plain text.
    pub fn body_attachment_error(&self, error: &str) -> (body: PartBody)
        ensures
            body matches PartBody::AttachmentError { error: e } && e@ == escaped(error@),
    {
        PartBody::AttachmentError { error: Html::trust(sanitize_html(error)) }
    }

    pub fn body_attachment_missing(&self) -> (body: PartBody)
        ensures
            body == PartBody::AttachmentMissing,
    {
        PartBody::AttachmentMissing
    }

    /// A sticker, markup already.
    pub fn body_sticker(&self, content: String) -> (body: PartBody)
        ensures
            body matches PartBody::Sticker { html } && html@ == content@,
    {
        PartBody::Sticker { html: Html::trust(content) }
    }

    /// What an app made, markup already.
    pub fn body_app(&self, content: String) -> (body: PartBody)
        ensures
            body matches PartBody::App { html } && html@ == content@,
    {
        PartBody::App { html: Html::trust(content) }
    }

    /// What an app made and that could not be understood: the sort of message,
    /// and why, in plain text.
    pub fn body_app_error(&self, message: &Message, why: String) -> (body: PartBody)
        ensures
            body matches PartBody::AppError { html } && html@ == escaped(
                app_error_text(message.variant_label(), why@),
            ),
    {
        app_error_body(message.variant_text().as_str(), why.as_str())
    }

    /// A part that was taken back, markup already.
    pub fn body_retracted(&self, content: String) -> (body: PartBody)
        ensures
            body matches PartBody::Retracted { html } && html@ == content@,
    {
        PartBody::Retracted { html: Html::trust(content) }
    }

    /// Plain text as markup.
    pub fn body_escape(&self, text: &str) -> (markup: String)
        ensures
            markup@ == escaped(text@),
    {
        sanitize_html(text)
    }
}

/// What an app made and that could not be understood, by the sort of message.
pub fn app_error_body(variant: &str, why: &str) -> (body: PartBody)
    ensures
        body matches PartBody::AppError { html } && html@ == escaped(
            app_error_text(variant@, why@),
        ),
{
    let mut text = "Unable to format ".to_string();
    text.append(variant);
    text.append(" message: ");
    text.append(why);
    PartBody::AppError { html: Html::trust(sanitize_html(text.as_str())) }
}

} // verus!
