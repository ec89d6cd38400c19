//! Messages, and what belongs to them, as pages.
use imessage_html::config::{Config, Options, Platform};
use imessage_html::edited::{BubbleComponent, EditDiff, EditEvent, EditedPart};
use imessage_html::html::attributes::can_format_attributes;
use imessage_html::html::edited::can_format_edited;
use imessage_html::html::part::PartBody;
use imessage_html::html::HTML;
use imessage_html::messages::Message;
use imessage_html::reply::{MessagePart, RenderContext, ThreadedMessage};
use imessage_html::tapback::TapbackMessage;
use imessage_html::text_effects::{Animation, Style, TextAttributes, TextEffect, Unit};

const SENT: &str = "May 17, 2022  5:29:42 PM";
const LATER: &str = "May 17, 2022  6:30:31 PM";
const EPOCH: &str = "Dec 31, 2000  4:00:00 PM";

fn fake_options() -> Options {
    Options {
        platform: Platform::MacOS,
        db_path: String::from("chat.db"),
        attachment_root: None,
        cleartext_password: None,
        custom_name: None,
        no_lazy: false,
        forensic: false,
    }
}

fn fake_message() -> Message {
    Message {
        guid: String::new(),
        text: None,
        service: Some("iMessage".to_string()),
        subject: None,
        handle_id: None,
        sender: "Unknown".to_string(),
        sent_at: EPOCH.to_string(),
        read_after: None,
        date_read: 0,
        read_at: EPOCH.to_string(),
        date_delivered: 0,
        delivered_at: EPOCH.to_string(),
        date_edited: 0,
        is_from_me: false,
        item_type: 0,
        other_handle: None,
        other_name: "Unknown".to_string(),
        share_status: false,
        share_direction: None,
        group_title: None,
        group_action_type: 0,
        associated_message_guid: None,
        associated_message_type: Some(0),
        associated_message_emoji: None,
        balloon_bundle_id: None,
        expressive_send_style_id: None,
        thread_originator_guid: None,
        chat_id: None,
        num_attachments: 0,
        deleted_from: None,
        edited_parts: None,
    }
}

/// A message with one part of text, all of it plain.
fn plain(exporter: &HTML, message: Message) -> ThreadedMessage {
    let len = message.text.as_ref().unwrap().len();
    styled(
        exporter,
        message,
        vec![TextAttributes::new(0, len, vec![TextEffect::Default])],
    )
}

/// A message with one part of text.
fn styled(
    exporter: &HTML,
    message: Message,
    attributes: Vec<TextAttributes>,
) -> ThreadedMessage {
    let text = message.text.clone().unwrap();
    assert!(can_format_attributes(&text, &attributes));
    let body = exporter.body_text_bubble(exporter.format_attributes(&text, &attributes));
    with_bodies(message, vec![body])
}

/// A message with the given parts, to which nobody replied.
fn with_bodies(message: Message, bodies: Vec<PartBody>) -> ThreadedMessage {
    let parts = bodies
        .into_iter()
        .map(|body| MessagePart { body, replies: None })
        .collect();
    ThreadedMessage { message, parts: Ok(parts) }
}

fn render(exporter: &HTML, message: &ThreadedMessage, context: RenderContext) -> String {
    let mut out = String::new();
    exporter.format_message_into(message, context, &mut out).unwrap();
    out
}

#[test]
fn can_get_time_valid() {
    let config = Config::new(fake_options());
    let exporter = HTML::new(&config).unwrap();

    let mut message = fake_message();
    message.sent_at = SENT.to_string();
    message.date_delivered = 674526582885055488;
    message.delivered_at = SENT.to_string();
    message.date_read = 674530231992568192;
    message.read_at = LATER.to_string();
    message.read_after = Some("1 hour, 49 seconds".to_string());

    assert_eq!(
        exporter.get_time(&message),
        (
            "May 17, 2022  5:29:42 PM".to_string(),
            "(Read by you after 1 hour, 49 seconds)".to_string()
        )
    );
}

#[test]
fn can_get_time_invalid() {
    let config = Config::new(fake_options());
    let exporter = HTML::new(&config).unwrap();

    let mut message = fake_message();
    message.sent_at = LATER.to_string();
    message.date_delivered = 674530231992568192;
    message.delivered_at = LATER.to_string();
    message.date_read = 674526582885055488;
    message.read_at = SENT.to_string();
    message.read_after = None;

    assert_eq!(
        exporter.get_time(&message),
        ("May 17, 2022  6:30:31 PM".to_string(), String::new())
    );
}

#[test]
fn can_format_html_from_me_normal() {
    let options = fake_options();
    let config = Config::new(options);
    let exporter = HTML::new(&config).unwrap();

    let mut message = fake_message();
    message.sent_at = SENT.to_string();
    message.text = Some("Hello world".to_string());
    message.sender = "Me".to_string();
    message.is_from_me = true;
    message.chat_id = Some(0);

    let actual = render(&exporter, &plain(&exporter, message), RenderContext::TopLevel);
    let expected = "<div class=\"message\">\n    <div class=\"sent iMessage\">\n        <p>\n            <span class=\"timestamp\">\n                <a title=\"Reveal in Messages app\" href=\"sms://open?message-guid=\">May 17, 2022  5:29:42 PM</a>\n                \n            </span>\n            \n            <span class=\"sender\">Me</span>\n        </p>\n        \n        \n        \n        \n        \n        <hr>\n<div class=\"message_part\">\n    <span class=\"bubble\">Hello world</span>\n    </div>\n\n        \n        \n    </div>\n</div>\n";

    assert_eq!(actual, expected);
}

#[test]
fn can_format_html_message_with_html() {
    let options = fake_options();
    let config = Config::new(options);
    let exporter = HTML::new(&config).unwrap();

    let mut message = fake_message();
    message.sent_at = SENT.to_string();
    message.text = Some("<table></table>".to_string());
    message.sender = "Me".to_string();
    message.is_from_me = true;
    message.chat_id = Some(0);

    let actual = render(&exporter, &plain(&exporter, message), RenderContext::TopLevel);
    let expected = "<div class=\"message\">\n    <div class=\"sent iMessage\">\n        <p>\n            <span class=\"timestamp\">\n                <a title=\"Reveal in Messages app\" href=\"sms://open?message-guid=\">May 17, 2022  5:29:42 PM</a>\n                \n            </span>\n            \n            <span class=\"sender\">Me</span>\n        </p>\n        \n        \n        \n        \n        \n        <hr>\n<div class=\"message_part\">\n    <span class=\"bubble\">&lt;table&gt;&lt;/table&gt;</span>\n    </div>\n\n        \n        \n    </div>\n</div>\n";

    assert_eq!(actual, expected);
}

#[test]
fn can_format_html_from_me_normal_deleted() {
    let options = fake_options();
    let config = Config::new(options);
    let exporter = HTML::new(&config).unwrap();

    let mut message = fake_message();
    message.sent_at = SENT.to_string();
    message.text = Some("Hello world".to_string());
    message.sender = "Me".to_string();
    message.is_from_me = true;
    message.deleted_from = Some(0);

    let actual = render(&exporter, &plain(&exporter, message), RenderContext::TopLevel);
    let expected = "<div class=\"message\">\n    <div class=\"sent iMessage\">\n        <p>\n            <span class=\"timestamp\">\n                <a title=\"Reveal in Messages app\" href=\"sms://open?message-guid=\">May 17, 2022  5:29:42 PM</a>\n                \n            </span>\n            \n            <span class=\"sender\">Me</span>\n        </p>\n        \n        <span class=\"deleted\">This message was deleted from the conversation!</span>\n        \n        \n        \n        \n        \n        <hr>\n<div class=\"message_part\">\n    <span class=\"bubble\">Hello world</span>\n    </div>\n\n        \n        \n    </div>\n</div>\n";

    assert_eq!(actual, expected);
}

#[test]
fn can_format_html_from_me_normal_read() {
    let options = fake_options();
    let config = Config::new(options);
    let exporter = HTML::new(&config).unwrap();

    let mut message = fake_message();
    message.sent_at = SENT.to_string();
    message.text = Some("Hello world".to_string());
    message.sender = "Me".to_string();
    message.is_from_me = true;
    message.date_delivered = 674530231992568192;
    message.delivered_at = LATER.to_string();
    message.read_after = Some("1 hour, 49 seconds".to_string());

    let actual = render(&exporter, &plain(&exporter, message), RenderContext::TopLevel);
    let expected = "<div class=\"message\">\n    <div class=\"sent iMessage\">\n        <p>\n            <span class=\"timestamp\">\n                <a title=\"Reveal in Messages app\" href=\"sms://open?message-guid=\">May 17, 2022  5:29:42 PM</a>\n                (Read by them after 1 hour, 49 seconds)\n            </span>\n            \n            <span class=\"sender\">Me</span>\n        </p>\n        \n        \n        \n        \n        \n        <hr>\n<div class=\"message_part\">\n    <span class=\"bubble\">Hello world</span>\n    </div>\n\n        \n        \n    </div>\n</div>\n";

    assert_eq!(actual, expected);
}

#[test]
fn can_format_html_from_them_normal() {
    let options = fake_options();
    let config = Config::new(options);
    let exporter = HTML::new(&config).unwrap();

    let mut message = fake_message();
    message.sent_at = SENT.to_string();
    message.text = Some("Hello world".to_string());
    message.handle_id = Some(999999);
    message.sender = "Sample Contact".to_string();

    let actual = render(&exporter, &plain(&exporter, message), RenderContext::TopLevel);
    let expected = "<div class=\"message\">\n    <div class=\"received\">\n        <p>\n            <span class=\"timestamp\">\n                <a title=\"Reveal in Messages app\" href=\"sms://open?message-guid=\">May 17, 2022  5:29:42 PM</a>\n                \n            </span>\n            \n            <span class=\"sender\">Sample Contact</span>\n        </p>\n        \n        \n        \n        \n        \n        <hr>\n<div class=\"message_part\">\n    <span class=\"bubble\">Hello world</span>\n    </div>\n\n        \n        \n    </div>\n</div>\n";

    assert_eq!(actual, expected);
}

#[test]
fn can_format_html_from_them_normal_read() {
    let options = fake_options();
    let config = Config::new(options);
    let exporter = HTML::new(&config).unwrap();

    let mut message = fake_message();
    message.sent_at = SENT.to_string();
    message.text = Some("Hello world".to_string());
    message.handle_id = Some(999999);
    message.sender = "Sample Contact".to_string();
    message.date_delivered = 674526582885055488;
    message.delivered_at = SENT.to_string();
    message.date_read = 674530231992568192;
    message.read_at = LATER.to_string();
    message.read_after = Some("1 hour, 49 seconds".to_string());

    let actual = render(&exporter, &plain(&exporter, message), RenderContext::TopLevel);
    let expected = "<div class=\"message\">\n    <div class=\"received\">\n        <p>\n            <span class=\"timestamp\">\n                <a title=\"Reveal in Messages app\" href=\"sms://open?message-guid=\">May 17, 2022  5:29:42 PM</a>\n                (Read by you after 1 hour, 49 seconds)\n            </span>\n            \n            <span class=\"sender\">Sample Contact</span>\n        </p>\n        \n        \n        \n        \n        \n        <hr>\n<div class=\"message_part\">\n    <span class=\"bubble\">Hello world</span>\n    </div>\n\n        \n        \n    </div>\n</div>\n";

    assert_eq!(actual, expected);
}

#[test]
fn can_format_html_from_them_custom_name_read() {
    let mut options = fake_options();
    options.custom_name = Some("Name".to_string());
    let config = Config::new(options);
    let exporter = HTML::new(&config).unwrap();

    let mut message = fake_message();
    message.sent_at = SENT.to_string();
    message.text = Some("Hello world".to_string());
    message.handle_id = Some(999999);
    message.sender = "Sample Contact".to_string();
    message.date_delivered = 674526582885055488;
    message.delivered_at = SENT.to_string();
    message.date_read = 674530231992568192;
    message.read_at = LATER.to_string();
    message.read_after = Some("1 hour, 49 seconds".to_string());

    let actual = render(&exporter, &plain(&exporter, message), RenderContext::TopLevel);
    let expected = "<div class=\"message\">\n    <div class=\"received\">\n        <p>\n            <span class=\"timestamp\">\n                <a title=\"Reveal in Messages app\" href=\"sms://open?message-guid=\">May 17, 2022  5:29:42 PM</a>\n                (Read by Name after 1 hour, 49 seconds)\n            </span>\n            \n            <span class=\"sender\">Sample Contact</span>\n        </p>\n        \n        \n        \n        \n        \n        <hr>\n<div class=\"message_part\">\n    <span class=\"bubble\">Hello world</span>\n    </div>\n\n        \n        \n    </div>\n</div>\n";

    assert_eq!(actual, expected);
}

#[test]
fn can_format_html_shareplay() {
    let options = fake_options();
    let config = Config::new(options);
    let exporter = HTML::new(&config).unwrap();

    let mut message = fake_message();
    message.sent_at = SENT.to_string();
    message.sender = "Me".to_string();
    message.item_type = 6;

    let actual = render(&exporter, &with_bodies(message, vec![]), RenderContext::TopLevel);
    let expected = "<div class=\"message\">\n    <div class=\"received\">\n        <p>\n            <span class=\"timestamp\">\n                <a title=\"Reveal in Messages app\" href=\"sms://open?message-guid=\">May 17, 2022  5:29:42 PM</a>\n                \n            </span>\n            \n            <span class=\"sender\">Me</span>\n        </p>\n        \n        \n        \n        <span class=\"shareplay\"><hr>SharePlay Message Ended</span>\n        \n        \n        \n        \n    </div>\n</div>\n";

    assert_eq!(actual, expected);
}

#[test]
fn can_format_html_reply_top_level() {
    let options = fake_options();
    let config = Config::new(options);
    let exporter = HTML::new(&config).unwrap();

    let mut message = fake_message();
    message.sent_at = SENT.to_string();
    message.guid = "TOP-GUID".to_string();
    message.text = Some("hello".to_string());
    message.sender = "Me".to_string();
    message.is_from_me = true;
    message.chat_id = Some(0);
    message.thread_originator_guid = Some("ORIG-GUID".to_string());

    let actual = render(&exporter, &plain(&exporter, message), RenderContext::TopLevel);
    let expected = "<div class=\"message\" id=\"r-TOP-GUID\">\n    <div class=\"sent iMessage\">\n        <p>\n            <span class=\"timestamp\">\n                <a title=\"Reveal in Messages app\" href=\"sms://open?message-guid=TOP-GUID\">May 17, 2022  5:29:42 PM</a>\n                \n            </span>\n            \n            \n            <span class=\"reply_anchor\"><a title=\"View in thread\" href=\"#TOP-GUID\">⇱</a></span>\n            \n            \n            <span class=\"sender\">Me</span>\n        </p>\n        \n        \n        \n        \n        \n        <hr>\n<div class=\"message_part\">\n    <span class=\"bubble\">hello</span>\n    </div>\n\n        \n        \n        <span class=\"reply_context\">This message responded to an earlier message.</span>\n        \n    </div>\n</div>\n";

    assert_eq!(actual, expected);
}

#[test]
fn can_format_html_reply_in_thread() {
    let options = fake_options();
    let config = Config::new(options);
    let exporter = HTML::new(&config).unwrap();

    let mut message = fake_message();
    message.sent_at = SENT.to_string();
    message.guid = "INNER-GUID".to_string();
    message.text = Some("hello".to_string());
    message.sender = "Me".to_string();
    message.is_from_me = true;
    message.chat_id = Some(0);
    message.thread_originator_guid = Some("ORIG-GUID".to_string());

    let actual = render(&exporter, &plain(&exporter, message), RenderContext::Reply);
    let expected = "<div class=\"message\">\n    <div class=\"sent iMessage\">\n        <p>\n            <span class=\"timestamp\">\n                <a title=\"Reveal in Messages app\" href=\"sms://open?message-guid=INNER-GUID\">May 17, 2022  5:29:42 PM</a>\n                \n            </span>\n            \n            \n            <span class=\"reply_anchor\"><a title=\"View in context\" href=\"#r-INNER-GUID\">⇲</a></span>\n            \n            \n            <span class=\"sender\">Me</span>\n        </p>\n        \n        \n        \n        \n        \n        <hr>\n<div class=\"message_part\">\n    <span class=\"bubble\">hello</span>\n    </div>\n\n        \n        \n    </div>\n</div>\n";

    assert_eq!(actual, expected);
}

#[test]
fn can_format_html_non_reply_has_no_anchor() {
    let options = fake_options();
    let config = Config::new(options);
    let exporter = HTML::new(&config).unwrap();

    let mut message = fake_message();
    message.sent_at = SENT.to_string();
    message.guid = "PLAIN-GUID".to_string();
    message.text = Some("hello".to_string());
    message.sender = "Me".to_string();
    message.is_from_me = true;
    message.chat_id = Some(0);

    let actual = render(&exporter, &plain(&exporter, message), RenderContext::TopLevel);
    let expected = "<div class=\"message\">\n    <div class=\"sent iMessage\">\n        <p>\n            <span class=\"timestamp\">\n                <a title=\"Reveal in Messages app\" href=\"sms://open?message-guid=PLAIN-GUID\">May 17, 2022  5:29:42 PM</a>\n                \n            </span>\n            \n            <span class=\"sender\">Me</span>\n        </p>\n        \n        \n        \n        \n        \n        <hr>\n<div class=\"message_part\">\n    <span class=\"bubble\">hello</span>\n    </div>\n\n        \n        \n    </div>\n</div>\n";

    assert_eq!(actual, expected);
}

#[test]
fn can_format_html_part_body_attachment_missing_standalone() {
    let options = fake_options();
    let config = Config::new(options);
    let exporter = HTML::new(&config).unwrap();

    let mut message = fake_message();
    message.sent_at = SENT.to_string();
    message.sender = "Me".to_string();
    message.is_from_me = true;
    message.chat_id = Some(0);

    let actual = render(&exporter, &with_bodies(message, vec![exporter.body_attachment_missing()]), RenderContext::TopLevel);
    let expected = "<div class=\"message\">\n    <div class=\"sent iMessage\">\n        <p>\n            <span class=\"timestamp\">\n                <a title=\"Reveal in Messages app\" href=\"sms://open?message-guid=\">May 17, 2022  5:29:42 PM</a>\n                \n            </span>\n            \n            <span class=\"sender\">Me</span>\n        </p>\n        \n        \n        \n        \n        \n        <hr>\n<div class=\"message_part\">\n    <span class=\"attachment_error\">Attachment does not exist!</span>\n    </div>\n\n        \n        \n    </div>\n</div>\n";

    assert_eq!(actual, expected);
}

#[test]
fn expressive_renders_via_display_impl() {
    let options = fake_options();
    let config = Config::new(options);
    let exporter = HTML::new(&config).unwrap();

    let mut message = fake_message();
    message.sent_at = SENT.to_string();
    message.text = Some("Hello world".to_string());
    message.sender = "Me".to_string();
    message.is_from_me = true;
    message.chat_id = Some(0);
    message.expressive_send_style_id =
        Some("com.apple.messages.effect.CKConfettiEffect".to_string());

    let actual = render(&exporter, &plain(&exporter, message), RenderContext::TopLevel);
    let expected = "<div class=\"message\">\n    <div class=\"sent iMessage\">\n        <p>\n            <span class=\"timestamp\">\n                <a title=\"Reveal in Messages app\" href=\"sms://open?message-guid=\">May 17, 2022  5:29:42 PM</a>\n                \n            </span>\n            \n            <span class=\"sender\">Me</span>\n        </p>\n        \n        \n        \n        \n        \n        <hr>\n<div class=\"message_part\">\n    <span class=\"bubble\">Hello world</span>\n    </div>\n<span class=\"expressive\">Sent with Confetti</span>\n\n        \n        \n    </div>\n</div>\n";

    assert_eq!(actual, expected);
}

#[test]
fn expressive_empty_unknown_renders_like_none() {
    let config = Config::new(fake_options());
    let exporter = HTML::new(&config).unwrap();

    let build = |expressive: Option<String>| {
        let mut message = fake_message();
        message.sent_at = SENT.to_string();
        message.text = Some("Hello world".to_string());
        message.sender = "Me".to_string();
        message.is_from_me = true;
        message.chat_id = Some(0);
        message.expressive_send_style_id = expressive;
        plain(&exporter, message)
    };

    let baseline = render(&exporter, &build(None), RenderContext::TopLevel);
    let actual = render(&exporter, &build(Some(String::new())), RenderContext::TopLevel);

    assert_eq!(actual, baseline);
}

#[test]
fn can_format_html_part_body_app_error_on_normal_variant() {
    let options = fake_options();
    let config = Config::new(options);
    let exporter = HTML::new(&config).unwrap();

    let mut message = fake_message();
    message.sent_at = SENT.to_string();
    message.sender = "Me".to_string();
    message.is_from_me = true;
    message.chat_id = Some(0);
    let why = "Failed to parse property list: Message is not an app message!".to_string();
    let body = exporter.body_app_error(&message, why);

    let actual = render(&exporter, &with_bodies(message, vec![body]), RenderContext::TopLevel);
    let expected = "<div class=\"message\">\n    <div class=\"sent iMessage\">\n        <p>\n            <span class=\"timestamp\">\n                <a title=\"Reveal in Messages app\" href=\"sms://open?message-guid=\">May 17, 2022  5:29:42 PM</a>\n                \n            </span>\n            \n            <span class=\"sender\">Me</span>\n        </p>\n        \n        \n        \n        \n        \n        <hr>\n<div class=\"message_part\">\n    <div class=\"app_error\">Unable to format Normal message: Failed to parse property list: Message is not an app message!</div>\n    </div>\n\n        \n        \n    </div>\n</div>\n";

    assert_eq!(actual, expected);
}

#[test]
fn format_message_into_appends_to_existing_buffer() {
    let config = Config::new(fake_options());
    let exporter = HTML::new(&config).unwrap();

    let mut message = fake_message();
    message.sent_at = SENT.to_string();
    message.text = Some("hello".to_string());
    message.sender = "Me".to_string();
    message.is_from_me = true;
    message.chat_id = Some(0);
    let message = plain(&exporter, message);

    let standalone = render(&exporter, &message, RenderContext::TopLevel);

    let prefix = "<!-- previous message -->\n";
    let mut buf = String::with_capacity(2048);
    buf.push_str(prefix);
    let cap_before = buf.capacity();

    exporter
        .format_message_into(&message, RenderContext::TopLevel, &mut buf)
        .unwrap();

    assert!(
        buf.starts_with(prefix),
        "format_message_into must not overwrite existing buffer content"
    );
    assert_eq!(&buf[prefix.len()..], standalone);
    assert!(buf.capacity() >= cap_before);
}

#[test]
fn can_format_html_started_sharing_location_me() {
    let options = fake_options();
    let config = Config::new(options);
    let exporter = HTML::new(&config).unwrap();

    let mut message = fake_message();
    message.is_from_me = false;
    message.sender = "Me".to_string();
    message.other_handle = Some(2);
    message.share_status = false;
    message.share_direction = Some(false);
    message.item_type = 4;

    let actual = render(&exporter, &with_bodies(message, vec![]), RenderContext::TopLevel);
    let expected = "<div class=\"message\">\n    <div class=\"sent iMessage\">\n        <p>\n            <span class=\"timestamp\">\n                <a title=\"Reveal in Messages app\" href=\"sms://open?message-guid=\">Dec 31, 2000  4:00:00 PM</a>\n                \n            </span>\n            \n            <span class=\"sender\">Me</span>\n        </p>\n        \n        \n        \n        \n        <span class=\"shared_location\"><hr>Started sharing location!</span>\n        \n        \n        \n    </div>\n</div>\n";

    assert_eq!(actual, expected);
}

#[test]
fn can_format_html_stopped_sharing_location_me() {
    let options = fake_options();
    let config = Config::new(options);
    let exporter = HTML::new(&config).unwrap();

    let mut message = fake_message();
    message.is_from_me = false;
    message.sender = "Me".to_string();
    message.other_handle = Some(2);
    message.share_status = true;
    message.share_direction = Some(false);
    message.item_type = 4;

    let actual = render(&exporter, &with_bodies(message, vec![]), RenderContext::TopLevel);
    let expected = "<div class=\"message\">\n    <div class=\"sent iMessage\">\n        <p>\n            <span class=\"timestamp\">\n                <a title=\"Reveal in Messages app\" href=\"sms://open?message-guid=\">Dec 31, 2000  4:00:00 PM</a>\n                \n            </span>\n            \n            <span class=\"sender\">Me</span>\n        </p>\n        \n        \n        \n        \n        <span class=\"shared_location\"><hr>Stopped sharing location!</span>\n        \n        \n        \n    </div>\n</div>\n";

    assert_eq!(actual, expected);
}

#[test]
fn can_format_html_started_sharing_location_them() {
    let options = fake_options();
    let config = Config::new(options);
    let exporter = HTML::new(&config).unwrap();

    let mut message = fake_message();
    message.handle_id = None;
    message.is_from_me = false;
    message.other_handle = Some(0);
    message.share_status = false;
    message.share_direction = Some(false);
    message.item_type = 4;

    let actual = render(&exporter, &with_bodies(message, vec![]), RenderContext::TopLevel);
    let expected = "<div class=\"message\">\n    <div class=\"received\">\n        <p>\n            <span class=\"timestamp\">\n                <a title=\"Reveal in Messages app\" href=\"sms://open?message-guid=\">Dec 31, 2000  4:00:00 PM</a>\n                \n            </span>\n            \n            <span class=\"sender\">Unknown</span>\n        </p>\n        \n        \n        \n        \n        <span class=\"shared_location\"><hr>Started sharing location!</span>\n        \n        \n        \n    </div>\n</div>\n";

    assert_eq!(actual, expected);
}

#[test]
fn can_format_html_stopped_sharing_location_them() {
    let options = fake_options();
    let config = Config::new(options);
    let exporter = HTML::new(&config).unwrap();

    let mut message = fake_message();
    message.handle_id = None;
    message.is_from_me = false;
    message.other_handle = Some(0);
    message.share_status = true;
    message.share_direction = Some(false);
    message.item_type = 4;

    let actual = render(&exporter, &with_bodies(message, vec![]), RenderContext::TopLevel);
    let expected = "<div class=\"message\">\n    <div class=\"received\">\n        <p>\n            <span class=\"timestamp\">\n                <a title=\"Reveal in Messages app\" href=\"sms://open?message-guid=\">Dec 31, 2000  4:00:00 PM</a>\n                \n            </span>\n            \n            <span class=\"sender\">Unknown</span>\n        </p>\n        \n        \n        \n        \n        <span class=\"shared_location\"><hr>Stopped sharing location!</span>\n        \n        \n        \n    </div>\n</div>\n";

    assert_eq!(actual, expected);
}

#[test]
fn can_format_html_translated_message() {
    let options = fake_options();
    let config = Config::new(options);
    let exporter = HTML::new(&config).unwrap();

    let mut message = fake_message();
    message.guid = "56FE94B9-2345-4A3C-A57F-949BDDDDF9FF".to_string();
    let original = exporter.body_escape("Oh, il a traduit ce que j'ai envoyé !");
    let translated = exporter.body_escape("Oh it translated what I sent!");
    let body = exporter.body_text_translated(translated, original);

    let actual = render(&exporter, &with_bodies(message, vec![body]), RenderContext::TopLevel);
    let expected = "<div class=\"message\">\n    <div class=\"received\">\n        <p>\n            <span class=\"timestamp\">\n                <a title=\"Reveal in Messages app\" href=\"sms://open?message-guid=56FE94B9-2345-4A3C-A57F-949BDDDDF9FF\">Dec 31, 2000  4:00:00 PM</a>\n                \n            </span>\n            \n            <span class=\"sender\">Unknown</span>\n        </p>\n        \n        \n        \n        \n        \n        <hr>\n<div class=\"message_part\">\n    <span class=\"bubble\">Oh, il a traduit ce que j&apos;ai envoyé !</span>\n    <div class=\"translated\"><span class=\"bubble\">Oh it translated what I sent!</span></div>\n    </div>\n\n        \n        \n    </div>\n</div>\n";

    assert_eq!(actual, expected);
}

#[test]
fn can_format_html_mention_end_to_end() {
    let options = fake_options();
    let config = Config::new(options);
    let exporter = HTML::new(&config).unwrap();

    let mut message = fake_message();
    message.sent_at = SENT.to_string();
    message.text = Some("Test Dad ".to_string());
    message.sender = "Me".to_string();
    message.is_from_me = true;
    message.chat_id = Some(0);
    let attributes = vec![
        TextAttributes::new(0, 5, vec![TextEffect::Default]),
        TextAttributes::new(5, 8, vec![TextEffect::Mention("+15558675309".to_string())]),
        TextAttributes::new(8, 9, vec![TextEffect::Default]),
    ];

    let actual = render(&exporter, &styled(&exporter, message, attributes), RenderContext::TopLevel);
    let expected = "<div class=\"message\">\n    <div class=\"sent iMessage\">\n        <p>\n            <span class=\"timestamp\">\n                <a title=\"Reveal in Messages app\" href=\"sms://open?message-guid=\">May 17, 2022  5:29:42 PM</a>\n                \n            </span>\n            \n            <span class=\"sender\">Me</span>\n        </p>\n        \n        \n        \n        \n        \n        <hr>\n<div class=\"message_part\">\n    <span class=\"bubble\">Test <span title=\"+15558675309\"><b>Dad</b></span> </span>\n    </div>\n\n        \n        \n    </div>\n</div>\n";

    assert_eq!(actual, expected);
}

#[test]
fn can_format_html_otp_end_to_end() {
    let options = fake_options();
    let config = Config::new(options);
    let exporter = HTML::new(&config).unwrap();

    let mut message = fake_message();
    message.sent_at = SENT.to_string();
    message.text = Some("000123 is your security code. Don't share your code.".to_string());
    message.sender = "Me".to_string();
    message.is_from_me = true;
    message.chat_id = Some(0);
    let attributes = vec![
        TextAttributes::new(0, 6, vec![TextEffect::OTP]),
        TextAttributes::new(6, 52, vec![TextEffect::Default]),
    ];

    let actual = render(&exporter, &styled(&exporter, message, attributes), RenderContext::TopLevel);
    let expected = "<div class=\"message\">\n    <div class=\"sent iMessage\">\n        <p>\n            <span class=\"timestamp\">\n                <a title=\"Reveal in Messages app\" href=\"sms://open?message-guid=\">May 17, 2022  5:29:42 PM</a>\n                \n            </span>\n            \n            <span class=\"sender\">Me</span>\n        </p>\n        \n        \n        \n        \n        \n        <hr>\n<div class=\"message_part\">\n    <span class=\"bubble\"><u>000123</u> is your security code. Don&apos;t share your code.</span>\n    </div>\n\n        \n        \n    </div>\n</div>\n";

    assert_eq!(actual, expected);
}

#[test]
fn can_format_html_link_end_to_end() {
    let options = fake_options();
    let config = Config::new(options);
    let exporter = HTML::new(&config).unwrap();

    let mut message = fake_message();
    message.sent_at = SENT.to_string();
    message.text = Some("https://twitter.com/xxxxxxxxx/status/0000223300009216128".to_string());
    message.sender = "Me".to_string();
    message.is_from_me = true;
    message.chat_id = Some(0);
    let attributes = vec![TextAttributes::new(
        0,
        56,
        vec![TextEffect::Link(
            "https://twitter.com/xxxxxxxxx/status/0000223300009216128".to_string(),
        )],
    )];

    let actual = render(&exporter, &styled(&exporter, message, attributes), RenderContext::TopLevel);
    let expected = "<div class=\"message\">\n    <div class=\"sent iMessage\">\n        <p>\n            <span class=\"timestamp\">\n                <a title=\"Reveal in Messages app\" href=\"sms://open?message-guid=\">May 17, 2022  5:29:42 PM</a>\n                \n            </span>\n            \n            <span class=\"sender\">Me</span>\n        </p>\n        \n        \n        \n        \n        \n        <hr>\n<div class=\"message_part\">\n    <span class=\"bubble\"><a href=\"https://twitter.com/xxxxxxxxx/status/0000223300009216128\">https://twitter.com/xxxxxxxxx/status/0000223300009216128</a></span>\n    </div>\n\n        \n        \n    </div>\n</div>\n";

    assert_eq!(actual, expected);
}

#[test]
fn can_format_html_conversion_end_to_end() {
    let options = fake_options();
    let config = Config::new(options);
    let exporter = HTML::new(&config).unwrap();

    let mut message = fake_message();
    message.sent_at = SENT.to_string();
    message.text = Some("Hi. Right now or tomorrow?".to_string());
    message.sender = "Me".to_string();
    message.is_from_me = true;
    message.chat_id = Some(0);
    let attributes = vec![
        TextAttributes::new(0, 17, vec![TextEffect::Default]),
        TextAttributes::new(17, 25, vec![TextEffect::Conversion(Unit::Timezone)]),
        TextAttributes::new(25, 26, vec![TextEffect::Default]),
    ];

    let actual = render(&exporter, &styled(&exporter, message, attributes), RenderContext::TopLevel);
    let expected = "<div class=\"message\">\n    <div class=\"sent iMessage\">\n        <p>\n            <span class=\"timestamp\">\n                <a title=\"Reveal in Messages app\" href=\"sms://open?message-guid=\">May 17, 2022  5:29:42 PM</a>\n                \n            </span>\n            \n            <span class=\"sender\">Me</span>\n        </p>\n        \n        \n        \n        \n        \n        <hr>\n<div class=\"message_part\">\n    <span class=\"bubble\">Hi. Right now or <u>tomorrow</u>?</span>\n    </div>\n\n        \n        \n    </div>\n</div>\n";

    assert_eq!(actual, expected);
}

#[test]
fn can_format_html_text_effect_end_to_end() {
    let options = fake_options();
    let config = Config::new(options);
    let exporter = HTML::new(&config).unwrap();

    let mut message = fake_message();
    message.sent_at = SENT.to_string();
    message.text = Some("Big small shake nod explode ripple bloom jitter".to_string());
    message.sender = "Me".to_string();
    message.is_from_me = true;
    message.chat_id = Some(0);
    let attributes = vec![
        TextAttributes::new(0, 3, vec![TextEffect::Animated(Animation::Big)]),
        TextAttributes::new(3, 4, vec![TextEffect::Default]),
        TextAttributes::new(4, 10, vec![TextEffect::Animated(Animation::Small)]),
        TextAttributes::new(10, 15, vec![TextEffect::Animated(Animation::Shake)]),
        TextAttributes::new(15, 16, vec![TextEffect::Animated(Animation::Small)]),
        TextAttributes::new(16, 19, vec![TextEffect::Animated(Animation::Nod)]),
        TextAttributes::new(19, 20, vec![TextEffect::Animated(Animation::Small)]),
        TextAttributes::new(20, 28, vec![TextEffect::Animated(Animation::Explode)]),
        TextAttributes::new(28, 34, vec![TextEffect::Animated(Animation::Ripple)]),
        TextAttributes::new(34, 35, vec![TextEffect::Animated(Animation::Explode)]),
        TextAttributes::new(35, 40, vec![TextEffect::Animated(Animation::Bloom)]),
        TextAttributes::new(40, 41, vec![TextEffect::Animated(Animation::Explode)]),
        TextAttributes::new(41, 47, vec![TextEffect::Animated(Animation::Jitter)]),
    ];

    let actual = render(&exporter, &styled(&exporter, message, attributes), RenderContext::TopLevel);
    let expected = "<div class=\"message\">\n    <div class=\"sent iMessage\">\n        <p>\n            <span class=\"timestamp\">\n                <a title=\"Reveal in Messages app\" href=\"sms://open?message-guid=\">May 17, 2022  5:29:42 PM</a>\n                \n            </span>\n            \n            <span class=\"sender\">Me</span>\n        </p>\n        \n        \n        \n        \n        \n        <hr>\n<div class=\"message_part\">\n    <span class=\"bubble\"><span class=\"animationBig\">Big</span> <span class=\"animationSmall\">small </span><span class=\"animationShake\">shake</span><span class=\"animationSmall\"> </span><span class=\"animationNod\">nod</span><span class=\"animationSmall\"> </span><span class=\"animationExplode\">explode </span><span class=\"animationRipple\">ripple</span><span class=\"animationExplode\"> </span><span class=\"animationBloom\">bloom</span><span class=\"animationExplode\"> </span><span class=\"animationJitter\">jitter</span></span>\n    </div>\n\n        \n        \n    </div>\n</div>\n";

    assert_eq!(actual, expected);
}

#[test]
fn can_format_html_text_styles_end_to_end() {
    let options = fake_options();
    let config = Config::new(options);
    let exporter = HTML::new(&config).unwrap();

    let mut message = fake_message();
    message.sent_at = SENT.to_string();
    message.text = Some("Bold underline italic strikethrough all four".to_string());
    message.sender = "Me".to_string();
    message.is_from_me = true;
    message.chat_id = Some(0);
    let attributes = vec![
        TextAttributes::new(0, 4, vec![TextEffect::Styles(vec![Style::Bold])]),
        TextAttributes::new(4, 5, vec![TextEffect::Default]),
        TextAttributes::new(5, 14, vec![TextEffect::Styles(vec![Style::Underline])]),
        TextAttributes::new(14, 15, vec![TextEffect::Default]),
        TextAttributes::new(15, 21, vec![TextEffect::Styles(vec![Style::Italic])]),
        TextAttributes::new(21, 22, vec![TextEffect::Default]),
        TextAttributes::new(22, 35, vec![TextEffect::Styles(vec![Style::Strikethrough])]),
        TextAttributes::new(35, 40, vec![TextEffect::Default]),
        TextAttributes::new(
            40,
            44,
            vec![TextEffect::Styles(vec![
                Style::Bold,
                Style::Strikethrough,
                Style::Underline,
                Style::Italic,
            ])],
        ),
    ];

    let actual = render(&exporter, &styled(&exporter, message, attributes), RenderContext::TopLevel);
    let expected = "<div class=\"message\">\n    <div class=\"sent iMessage\">\n        <p>\n            <span class=\"timestamp\">\n                <a title=\"Reveal in Messages app\" href=\"sms://open?message-guid=\">May 17, 2022  5:29:42 PM</a>\n                \n            </span>\n            \n            <span class=\"sender\">Me</span>\n        </p>\n        \n        \n        \n        \n        \n        <hr>\n<div class=\"message_part\">\n    <span class=\"bubble\"><b>Bold</b> <u>underline</u> <i>italic</i> <s>strikethrough</s> all <i><u><s><b>four</b></s></u></i></span>\n    </div>\n\n        \n        \n    </div>\n</div>\n";

    assert_eq!(actual, expected);
}

#[test]
fn can_format_html_text_styles_single_end_to_end() {
    let options = fake_options();
    let config = Config::new(options);
    let exporter = HTML::new(&config).unwrap();

    let mut message = fake_message();
    message.sent_at = SENT.to_string();
    message.text = Some("Everything".to_string());
    message.sender = "Me".to_string();
    message.is_from_me = true;
    message.chat_id = Some(0);
    let attributes = vec![TextAttributes::new(
        0,
        10,
        vec![TextEffect::Styles(vec![
            Style::Bold,
            Style::Strikethrough,
            Style::Underline,
            Style::Italic,
        ])],
    )];

    let actual = render(&exporter, &styled(&exporter, message, attributes), RenderContext::TopLevel);
    let expected = "<div class=\"message\">\n    <div class=\"sent iMessage\">\n        <p>\n            <span class=\"timestamp\">\n                <a title=\"Reveal in Messages app\" href=\"sms://open?message-guid=\">May 17, 2022  5:29:42 PM</a>\n                \n            </span>\n            \n            <span class=\"sender\">Me</span>\n        </p>\n        \n        \n        \n        \n        \n        <hr>\n<div class=\"message_part\">\n    <span class=\"bubble\"><i><u><s><b>Everything</b></s></u></i></span>\n    </div>\n\n        \n        \n    </div>\n</div>\n";

    assert_eq!(actual, expected);
}

#[test]
fn can_format_html_text_styles_mixed_end_to_end() {
    let options = fake_options();
    let config = Config::new(options);
    let exporter = HTML::new(&config).unwrap();

    let mut message = fake_message();
    message.sent_at = SENT.to_string();
    message.text = Some("Underline normal jitter normal".to_string());
    message.sender = "Me".to_string();
    message.is_from_me = true;
    message.chat_id = Some(0);
    let attributes = vec![
        TextAttributes::new(0, 9, vec![TextEffect::Styles(vec![Style::Underline])]),
        TextAttributes::new(9, 17, vec![TextEffect::Default]),
        TextAttributes::new(17, 23, vec![TextEffect::Animated(Animation::Jitter)]),
        TextAttributes::new(23, 30, vec![TextEffect::Default]),
    ];

    let actual = render(&exporter, &styled(&exporter, message, attributes), RenderContext::TopLevel);
    let expected = "<div class=\"message\">\n    <div class=\"sent iMessage\">\n        <p>\n            <span class=\"timestamp\">\n                <a title=\"Reveal in Messages app\" href=\"sms://open?message-guid=\">May 17, 2022  5:29:42 PM</a>\n                \n            </span>\n            \n            <span class=\"sender\">Me</span>\n        </p>\n        \n        \n        \n        \n        \n        <hr>\n<div class=\"message_part\">\n    <span class=\"bubble\"><u>Underline</u> normal <span class=\"animationJitter\">jitter</span> normal</span>\n    </div>\n\n        \n        \n    </div>\n</div>\n";

    assert_eq!(actual, expected);
}

#[test]
fn can_format_html_text_styled_plain_link() {
    let options = fake_options();
    let config = Config::new(options);
    let exporter = HTML::new(&config).unwrap();

    let mut message = fake_message();
    message.sent_at = SENT.to_string();
    message.text = Some("https://github.com/ReagentX/imessage-exporter/discussions/553".to_string());
    message.sender = "Me".to_string();
    message.is_from_me = true;
    message.chat_id = Some(0);
    let attributes = vec![TextAttributes::new(
        0,
        61,
        vec![
            TextEffect::Animated(Animation::Big),
            TextEffect::Link(
                "https://github.com/ReagentX/imessage-exporter/discussions/553".to_string(),
            ),
        ],
    )];

    let actual = render(&exporter, &styled(&exporter, message, attributes), RenderContext::TopLevel);
    let expected = "<div class=\"message\">\n    <div class=\"sent iMessage\">\n        <p>\n            <span class=\"timestamp\">\n                <a title=\"Reveal in Messages app\" href=\"sms://open?message-guid=\">May 17, 2022  5:29:42 PM</a>\n                \n            </span>\n            \n            <span class=\"sender\">Me</span>\n        </p>\n        \n        \n        \n        \n        \n        <hr>\n<div class=\"message_part\">\n    <span class=\"bubble\"><a href=\"https://github.com/ReagentX/imessage-exporter/discussions/553\"><span class=\"animationBig\">https://github.com/ReagentX/imessage-exporter/discussions/553</span></a></span>\n    </div>\n\n        \n        \n    </div>\n</div>\n";

    assert_eq!(actual, expected);
}

#[test]
fn can_format_html_text_styled_emoji_bold_underline() {
    let options = fake_options();
    let config = Config::new(options);
    let exporter = HTML::new(&config).unwrap();

    let mut message = fake_message();
    message.sent_at = SENT.to_string();
    message.text = Some("🅱️Bold_Underline".to_string());
    message.sender = "Me".to_string();
    message.is_from_me = true;
    message.chat_id = Some(0);
    let attributes = vec![
        TextAttributes::new(0, 7, vec![TextEffect::Default]),
        TextAttributes::new(7, 11, vec![TextEffect::Styles(vec![Style::Bold])]),
        TextAttributes::new(11, 12, vec![TextEffect::Default]),
        TextAttributes::new(12, 21, vec![TextEffect::Styles(vec![Style::Underline])]),
    ];

    let actual = render(&exporter, &styled(&exporter, message, attributes), RenderContext::TopLevel);
    let expected = "<div class=\"message\">\n    <div class=\"sent iMessage\">\n        <p>\n            <span class=\"timestamp\">\n                <a title=\"Reveal in Messages app\" href=\"sms://open?message-guid=\">May 17, 2022  5:29:42 PM</a>\n                \n            </span>\n            \n            <span class=\"sender\">Me</span>\n        </p>\n        \n        \n        \n        \n        \n        <hr>\n<div class=\"message_part\">\n    <span class=\"bubble\">🅱\u{fe0f}<b>Bold</b>_<u>Underline</u></span>\n    </div>\n\n        \n        \n    </div>\n</div>\n";

    assert_eq!(actual, expected);
}

#[test]
fn can_format_html_text_styled_overlapping_ranges() {
    let options = fake_options();
    let config = Config::new(options);
    let exporter = HTML::new(&config).unwrap();

    let mut message = fake_message();
    message.sent_at = SENT.to_string();
    message.text = Some("8:00 pm".to_string());
    message.sender = "Me".to_string();
    message.is_from_me = true;
    message.chat_id = Some(0);
    let attributes = vec![
        TextAttributes::new(
            0,
            1,
            vec![
                TextEffect::Conversion(Unit::Timezone),
                TextEffect::Styles(vec![Style::Bold]),
            ],
        ),
        TextAttributes::new(1, 2, vec![TextEffect::Conversion(Unit::Timezone)]),
        TextAttributes::new(
            2,
            4,
            vec![
                TextEffect::Conversion(Unit::Timezone),
                TextEffect::Styles(vec![Style::Underline]),
            ],
        ),
        TextAttributes::new(4, 5, vec![TextEffect::Conversion(Unit::Timezone)]),
        TextAttributes::new(
            5,
            7,
            vec![
                TextEffect::Conversion(Unit::Timezone),
                TextEffect::Styles(vec![Style::Italic]),
            ],
        ),
    ];

    let actual = render(&exporter, &styled(&exporter, message, attributes), RenderContext::TopLevel);
    let expected = "<div class=\"message\">\n    <div class=\"sent iMessage\">\n        <p>\n            <span class=\"timestamp\">\n                <a title=\"Reveal in Messages app\" href=\"sms://open?message-guid=\">May 17, 2022  5:29:42 PM</a>\n                \n            </span>\n            \n            <span class=\"sender\">Me</span>\n        </p>\n        \n        \n        \n        \n        \n        <hr>\n<div class=\"message_part\">\n    <span class=\"bubble\"><b><u>8</u></b><u>:</u><u><u>00</u></u><u> </u><i><u>pm</u></i></span>\n    </div>\n\n        \n        \n    </div>\n</div>\n";

    assert_eq!(actual, expected);
}

#[test]
fn can_format_html_edited_with_formatting() {
    let options = fake_options();
    let config = Config::new(options);
    let exporter = HTML::new(&config).unwrap();

    let mut message = fake_message();
    message.sent_at = SENT.to_string();
    message.date_edited = 674530231992568192;
    message.text = Some("Test".to_string());
    message.sender = "Me".to_string();
    message.is_from_me = true;
    message.chat_id = Some(0);
    let version = |effect: TextEffect, diff: EditDiff, is_last: bool| EditEvent {
        text: "Test".to_string(),
        components: vec![BubbleComponent::Text(vec![TextAttributes {
            start: 0,
            end: 4,
            effects: vec![effect],
        }])],
        diff_since_previous: diff,
        is_last,
    };
    let edited = EditedPart::Edited(vec![
        version(TextEffect::Default, EditDiff::First, false),
        version(
            TextEffect::Styles(vec![Style::Strikethrough]),
            EditDiff::Computed("10 seconds".to_string()),
            true,
        ),
    ]);
    assert!(can_format_edited(&edited));
    let body = exporter.body_text_edited(exporter.format_edited(Some(&edited)).unwrap());

    let actual = render(&exporter, &with_bodies(message, vec![body]), RenderContext::TopLevel);
    let expected = "<div class=\"message\">\n    <div class=\"sent iMessage\">\n        <p>\n            <span class=\"timestamp\">\n                <a title=\"Reveal in Messages app\" href=\"sms://open?message-guid=\">May 17, 2022  5:29:42 PM</a>\n                \n            </span>\n            \n            <span class=\"sender\">Me</span>\n        </p>\n        \n        \n        \n        \n        \n        <hr>\n<div class=\"message_part\">\n    <div class=\"edited\"><table><tbody>\n        <tr>\n            <td><span class=\"timestamp\"></span></td>\n            <td>Test</td>\n        </tr>\n    </tbody><tfoot>\n        <tr>\n            <td><span class=\"timestamp\">Edited 10 seconds later</span></td>\n            <td><s>Test</s></td>\n        </tr>\n    </tfoot></table></div>\n    </div>\n\n        \n        \n    </div>\n</div>\n";

    assert_eq!(actual, expected);
}

#[test]
fn can_format_html_conversion_final_unsent() {
    let options = fake_options();
    let config = Config::new(options);
    let exporter = HTML::new(&config).unwrap();

    let mut message = fake_message();
    message.sent_at = SENT.to_string();
    message.date_edited = 674530231992568192;
    message.text = Some(
        "From arbitrary byte stream:\r\u{FFFC}To native Rust data structures:\r".to_string(),
    );
    message.sender = "Me".to_string();
    message.is_from_me = true;
    message.chat_id = Some(0);
    let text = message.text.clone().unwrap();
    let part = |start: usize, end: usize| {
        let attributes = vec![TextAttributes::new(start, end, vec![TextEffect::Default])];
        assert!(can_format_attributes(&text, &attributes));
        exporter.body_text_bubble(exporter.format_attributes(&text, &attributes))
    };
    let unsent = EditedPart::Unsent {
        who: "You".to_string(),
        diff: Some("1 hour, 49 seconds".to_string()),
    };
    let retracted = exporter.format_edited(Some(&unsent)).unwrap();
    let bodies = vec![
        part(0, 28),
        exporter.body_attachment_missing(),
        part(31, 63),
        exporter.body_retracted(retracted),
    ];

    let actual = render(&exporter, &with_bodies(message, bodies), RenderContext::TopLevel);
    let expected = "<div class=\"message\">\n    <div class=\"sent iMessage\">\n        <p>\n            <span class=\"timestamp\">\n                <a title=\"Reveal in Messages app\" href=\"sms://open?message-guid=\">May 17, 2022  5:29:42 PM</a>\n                \n            </span>\n            \n            <span class=\"sender\">Me</span>\n        </p>\n        \n        \n        \n        \n        \n        <hr>\n<div class=\"message_part\">\n    <span class=\"bubble\">From arbitrary byte stream:\r</span>\n    </div>\n\n        \n        <hr>\n<div class=\"message_part\">\n    <span class=\"attachment_error\">Attachment does not exist!</span>\n    </div>\n\n        \n        <hr>\n<div class=\"message_part\">\n    <span class=\"bubble\">To native Rust data structures:\r</span>\n    </div>\n\n        \n        <hr>\n<div class=\"message_part\">\n    <span class=\"unsent\"><span class=\"unsent\">You unsent this message part 1 hour, 49 seconds after sending!</span></span>\n    </div>\n\n        \n        \n    </div>\n</div>\n";

    assert_eq!(actual, expected);
}

#[test]
fn can_format_html_conversion_no_edits() {
    let options = fake_options();
    let config = Config::new(options);
    let exporter = HTML::new(&config).unwrap();

    let mut message = fake_message();
    message.sent_at = SENT.to_string();
    message.text = Some(
        "From arbitrary byte stream:\r\u{FFFC}To native Rust data structures:\r".to_string(),
    );
    message.sender = "Me".to_string();
    message.is_from_me = true;
    message.chat_id = Some(0);
    let text = message.text.clone().unwrap();
    let part = |start: usize, end: usize| {
        let attributes = vec![TextAttributes::new(start, end, vec![TextEffect::Default])];
        assert!(can_format_attributes(&text, &attributes));
        exporter.body_text_bubble(exporter.format_attributes(&text, &attributes))
    };
    let bodies = vec![part(0, 28), exporter.body_attachment_missing(), part(31, 63)];

    let actual = render(&exporter, &with_bodies(message, bodies), RenderContext::TopLevel);
    let expected = "<div class=\"message\">\n    <div class=\"sent iMessage\">\n        <p>\n            <span class=\"timestamp\">\n                <a title=\"Reveal in Messages app\" href=\"sms://open?message-guid=\">May 17, 2022  5:29:42 PM</a>\n                \n            </span>\n            \n            <span class=\"sender\">Me</span>\n        </p>\n        \n        \n        \n        \n        \n        <hr>\n<div class=\"message_part\">\n    <span class=\"bubble\">From arbitrary byte stream:\r</span>\n    </div>\n\n        \n        <hr>\n<div class=\"message_part\">\n    <span class=\"attachment_error\">Attachment does not exist!</span>\n    </div>\n\n        \n        <hr>\n<div class=\"message_part\">\n    <span class=\"bubble\">To native Rust data structures:\r</span>\n    </div>\n\n        \n        \n    </div>\n</div>\n";

    assert_eq!(actual, expected);
}

#[test]
fn forensic_html_message_with_tapbacks_does_not_inline_them() {
    let mut options = fake_options();
    options.forensic = true;
    let mut config = Config::new(options);
    let mut tb_msg = fake_message();
    tb_msg.guid = "FAKE-TB-GUID".to_string();
    tb_msg.associated_message_type = Some(2000);
    tb_msg.associated_message_guid = Some("p:0/HOST-GUID".to_string());
    tb_msg.handle_id = Some(999999);
    tb_msg.sender = "Sample Contact".to_string();
    let tapback = TapbackMessage { message: tb_msg, attachments: Ok(vec![]) };
    assert!(config.add_tapback("HOST-GUID".to_string(), 0, tapback).is_ok());
    let exporter = HTML::new(&config).unwrap();

    let mut message = fake_message();
    message.sent_at = SENT.to_string();
    message.guid = "HOST-GUID".to_string();
    message.text = Some("hi".to_string());
    message.sender = "Me".to_string();
    message.is_from_me = true;
    message.chat_id = Some(0);

    let actual = render(&exporter, &plain(&exporter, message), RenderContext::TopLevel);

    assert!(
        !actual.contains("class=\"tapbacks\""),
        "expected no inline tapbacks block in forensic mode, got: {actual}",
    );
}

#[test]
fn forensic_html_message_renders_forensic_meta_with_all_fields() {
    let mut options = fake_options();
    options.forensic = true;
    let config = Config::new(options);
    let exporter = HTML::new(&config).unwrap();

    let mut message = fake_message();
    message.sent_at = SENT.to_string();
    message.date_delivered = 674526582885055488;
    message.delivered_at = SENT.to_string();
    message.date_read = 674530231992568192;
    message.read_at = LATER.to_string();
    message.date_edited = 674530231992568192;
    message.guid = "META-FULL-GUID-1234567890".to_string();
    message.text = Some("hi".to_string());
    message.sender = "Me".to_string();
    message.is_from_me = true;
    message.chat_id = Some(42);

    let actual = render(&exporter, &plain(&exporter, message), RenderContext::TopLevel);

    assert!(
        actual.contains("class=\"forensic_meta\""),
        "expected forensic_meta strip in output, got: {actual}",
    );
    assert!(
        actual.contains("guid: META-FUL"),
        "expected truncated guid in strip, got: {actual}",
    );
    assert!(
        actual.contains("delivered: May 17, 2022  5:29:42 PM"),
        "expected delivered timestamp, got: {actual}",
    );
    assert!(
        actual.contains("read: May 17, 2022  6:30:31 PM"),
        "expected read timestamp, got: {actual}",
    );
    assert!(
        actual.contains("edited"),
        "expected edited flag, got: {actual}",
    );
    assert!(
        actual.contains("chat: 42"),
        "expected chat id, got: {actual}",
    );
}

#[test]
fn forensic_html_message_omits_zero_delivery_and_read_fields() {
    let mut options = fake_options();
    options.forensic = true;
    let config = Config::new(options);
    let exporter = HTML::new(&config).unwrap();

    let mut message = fake_message();
    message.sent_at = SENT.to_string();
    message.guid = "META-MIN-GUID-12345".to_string();
    message.text = Some("hi".to_string());
    message.sender = "Me".to_string();
    message.is_from_me = true;
    message.chat_id = Some(0);

    let actual = render(&exporter, &plain(&exporter, message), RenderContext::TopLevel);

    assert!(
        actual.contains("class=\"forensic_meta\""),
        "expected forensic_meta strip to render even when timestamps are zero, got: {actual}",
    );
    assert!(
        actual.contains("guid: META-MIN"),
        "expected truncated guid, got: {actual}",
    );
    assert!(
        !actual.contains("delivered:"),
        "must NOT render delivered when date_delivered==0, got: {actual}",
    );
    assert!(
        !actual.contains("read:"),
        "must NOT render read when date_read==0, got: {actual}",
    );
    assert!(
        !actual.contains(">edited<"),
        "must NOT render edited flag for un-edited messages, got: {actual}",
    );
}

#[test]
fn default_mode_message_renders_no_forensic_meta() {
    let options = fake_options();
    let config = Config::new(options);
    let exporter = HTML::new(&config).unwrap();

    let mut message = fake_message();
    message.sent_at = SENT.to_string();
    message.date_delivered = 674526582885055488;
    message.delivered_at = SENT.to_string();
    message.date_read = 674530231992568192;
    message.read_at = LATER.to_string();
    message.guid = "DEFAULT-MODE-GUID".to_string();
    message.text = Some("hi".to_string());
    message.sender = "Me".to_string();
    message.is_from_me = true;
    message.chat_id = Some(0);

    let actual = render(&exporter, &plain(&exporter, message), RenderContext::TopLevel);

    assert!(
        !actual.contains("forensic_meta"),
        "default mode must not render the forensic metadata strip, got: {actual}",
    );
}

#[test]
fn forensic_html_reply_quote_header_carries_parent_text_not_attachment_placeholder() {
    let mut options = fake_options();
    options.forensic = true;
    let mut config = Config::new(options);
    let mut parent = fake_message();
    parent.guid = "0355C6E1-D0C8-4212-AA87-DD8AE4FD1203".to_string();
    parent.text = Some("I will eat as quick as possible".to_string());
    config.messages.push(parent);
    let exporter = HTML::new(&config).unwrap();

    let mut message = fake_message();
    message.sent_at = SENT.to_string();
    message.guid = "REPLY-WITH-TEXT".to_string();
    message.text = Some("got it".to_string());
    message.sender = "Me".to_string();
    message.is_from_me = true;
    message.chat_id = Some(0);
    message.thread_originator_guid = Some("0355C6E1-D0C8-4212-AA87-DD8AE4FD1203".to_string());

    let actual = render(&exporter, &plain(&exporter, message), RenderContext::TopLevel);

    assert!(
        !actual.contains("[attachment]") && !actual.contains("[no preview]"),
        "snippet must show parent's real text, not the placeholder; got: {actual}",
    );
    assert!(
        actual.contains("eat as quick as possible"),
        "expected parent message text inside the replying_to header, got: {actual}",
    );
}

#[test]
fn forensic_html_reply_top_level_with_known_parent_renders_quote_header() {
    let mut options = fake_options();
    options.forensic = true;
    let mut config = Config::new(options);
    let mut parent = fake_message();
    parent.guid = "0355C6E1-D0C8-4212-AA87-DD8AE4FD1203".to_string();
    parent.text = Some("I will eat as quick as possible".to_string());
    config.messages.push(parent);
    let exporter = HTML::new(&config).unwrap();

    let mut message = fake_message();
    message.sent_at = SENT.to_string();
    message.guid = "REPLY-GUID".to_string();
    message.text = Some("got it".to_string());
    message.sender = "Me".to_string();
    message.is_from_me = true;
    message.chat_id = Some(0);
    message.thread_originator_guid = Some("0355C6E1-D0C8-4212-AA87-DD8AE4FD1203".to_string());

    let actual = render(&exporter, &plain(&exporter, message), RenderContext::TopLevel);

    assert!(
        actual.contains("id=\"REPLY-GUID\""),
        "expected forensic top-level id=guid, got: {actual}",
    );
    assert!(
        actual.contains("<div class=\"replying_to\"><a href=\"#0355C6E1-D0C8-4212-AA87-DD8AE4FD1203\">↪ "),
        "expected replying_to anchor to parent, got: {actual}",
    );
    assert!(
        !actual.contains("This message responded to an earlier message"),
        "trailing_reply_context stub should be suppressed in forensic mode, got: {actual}",
    );
    assert!(
        !actual.contains("reply_anchor"),
        "reply_anchor link should be suppressed in forensic mode, got: {actual}",
    );
}

#[test]
fn forensic_html_reply_top_level_with_missing_parent_renders_without_quote_header() {
    let mut options = fake_options();
    options.forensic = true;
    let config = Config::new(options);
    let exporter = HTML::new(&config).unwrap();

    let mut message = fake_message();
    message.sent_at = SENT.to_string();
    message.guid = "ORPHAN-REPLY-GUID".to_string();
    message.text = Some("got it".to_string());
    message.sender = "Me".to_string();
    message.is_from_me = true;
    message.chat_id = Some(0);
    message.thread_originator_guid = Some("MISSING-ORIG-GUID".to_string());

    let actual = render(&exporter, &plain(&exporter, message), RenderContext::TopLevel);

    assert!(
        actual.contains("id=\"ORPHAN-REPLY-GUID\""),
        "expected forensic top-level id=guid even for orphans, got: {actual}",
    );
    assert!(
        !actual.contains("replying_to"),
        "no replying_to header when parent is missing, got: {actual}",
    );
    assert!(
        actual.contains("got it"),
        "reply body must still render when parent missing, got: {actual}",
    );
}

#[test]
fn forensic_html_non_reply_top_level_gets_bare_guid_anchor() {
    let mut options = fake_options();
    options.forensic = true;
    let config = Config::new(options);
    let exporter = HTML::new(&config).unwrap();

    let mut message = fake_message();
    message.sent_at = SENT.to_string();
    message.guid = "FORENSIC-PLAIN-GUID".to_string();
    message.text = Some("hi".to_string());
    message.sender = "Me".to_string();
    message.is_from_me = true;
    message.chat_id = Some(0);

    let actual = render(&exporter, &plain(&exporter, message), RenderContext::TopLevel);

    assert!(
        actual.contains("id=\"FORENSIC-PLAIN-GUID\""),
        "expected forensic top-level id=guid on non-reply, got: {actual}",
    );
    assert!(
        !actual.contains("replying_to"),
        "non-reply must not render a replying_to header, got: {actual}",
    );
}
