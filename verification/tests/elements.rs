//! Reactions, events, attachments and text effects.
use std::borrow::Cow;

use imessage_html::attachments::{
    Attachment, AttachmentMeta, AttachmentRender, StickerDecoration, StickerEffect,
};
use imessage_html::config::{Config, Options, Platform};
use imessage_html::html::forensic::short_guid;
use imessage_html::html::HTML;
use imessage_html::messages::{EditStatus, Message};
use imessage_html::reply::{build_reply_snippet, REPLY_SNIPPET_MAX_CHARS};
use imessage_html::tapback::TapbackMessage;
use imessage_html::text_effects::{Animation, Style, TextEffect, Unit};

const SENT: &str = "May 17, 2022  5:29:42 PM";
const EPOCH: &str = "Dec 31, 2000  4:00:00 PM";

fn fake_options() -> Options {
    Options {
        platform: Platform::MacOS,
        db_path: String::from("chat.db"),
        attachment_root: None,
        cleartext_password: None,
        custom_name: None,
        no_lazy: false,
        forensic: false,
    }
}

fn fake_message() -> Message {
    Message {
        guid: String::new(),
        text: None,
        service: Some("iMessage".to_string()),
        subject: None,
        handle_id: None,
        sender: "Unknown".to_string(),
        sent_at: EPOCH.to_string(),
        read_after: None,
        date_read: 0,
        read_at: EPOCH.to_string(),
        date_delivered: 0,
        delivered_at: EPOCH.to_string(),
        date_edited: 0,
        is_from_me: false,
        item_type: 0,
        other_handle: None,
        other_name: "Unknown".to_string(),
        share_status: false,
        share_direction: None,
        group_title: None,
        group_action_type: 0,
        associated_message_guid: None,
        associated_message_type: Some(0),
        associated_message_emoji: None,
        balloon_bundle_id: None,
        expressive_send_style_id: None,
        thread_originator_guid: None,
        chat_id: None,
        num_attachments: 0,
        deleted_from: None,
        edited_parts: None,
    }
}

fn fake_attachment() -> Attachment {
    Attachment {
        filename: Some("a/b/c/d.jpg".to_string()),
        uti: Some("public.png".to_string()),
        mime_type: Some("image/png".to_string()),
        transfer_name: Some("d.jpg".to_string()),
        total_bytes: 100,
        substitute: None,
        embed_path: "a/b/c/d.jpg".to_string(),
        is_folder: false,
        decoration: None,
    }
}

#[test]
fn can_create() {
    let config = Config::new(fake_options());
    let exporter = HTML::new(&config).unwrap();
    assert_eq!(exporter.state.files.len(), 0);
}

#[test]
fn short_guid_under_threshold_returned_as_is() {
    assert_eq!(short_guid("ABCDEF"), "ABCDEF");
}

#[test]
fn short_guid_at_threshold_returned_as_is() {
    assert_eq!(short_guid("ABCDEFGH"), "ABCDEFGH");
}

#[test]
fn short_guid_over_threshold_truncated_with_ellipsis() {
    assert_eq!(
        short_guid("ABCDEFGHIJKL-1234"),
        "ABCDEFGH…",
    );
}

#[test]
fn can_format_html_announcement() {
    let options = fake_options();
    let config = Config::new(options);
    let exporter = HTML::new(&config).unwrap();

    let mut message = fake_message();
    message.sent_at = SENT.to_string();
    message.group_title = Some("Hello world".to_string());
    message.sender = "Me".to_string();
    message.is_from_me = true;
    message.item_type = 2;

    let mut actual = String::new();
    exporter.format_announcement(&message, &mut actual);
    let expected = "\n<div class=\"announcement\">\n    <p><span class=\"timestamp\">May 17, 2022  5:29:42 PM</span> You named the conversation <b>Hello world</b></p>\n</div>\n";

    assert_eq!(actual, expected);
}

#[test]
fn can_format_html_announcement_custom_name() {
    let mut options = fake_options();
    options.custom_name = Some("Name".to_string());
    let config = Config::new(options);
    let exporter = HTML::new(&config).unwrap();

    let mut message = fake_message();
    message.sent_at = SENT.to_string();
    message.group_title = Some("Hello world".to_string());
    message.sender = "Me".to_string();
    message.item_type = 2;

    let mut actual = String::new();
    exporter.format_announcement(&message, &mut actual);
    let expected = "\n<div class=\"announcement\">\n    <p><span class=\"timestamp\">May 17, 2022  5:29:42 PM</span> Name named the conversation <b>Hello world</b></p>\n</div>\n";

    assert_eq!(actual, expected);
}

#[test]
fn html_announcement_who_is_escaped_once() {
    let mut options = fake_options();
    options.custom_name = Some("Bob & <Alice>".to_string());
    let config = Config::new(options);
    let exporter = HTML::new(&config).unwrap();

    let mut message = fake_message();
    message.sent_at = SENT.to_string();
    message.sender = "Me".to_string();
    message.is_from_me = true;
    message.item_type = 3;

    let mut actual = String::new();
    exporter.format_announcement(&message, &mut actual);
    let expected = "\n<div class=\"announcement\">\n    <p><span class=\"timestamp\">May 17, 2022  5:29:42 PM</span> Bob &amp; &lt;Alice&gt; left the conversation.</p>\n</div>\n";

    assert_eq!(actual, expected);
}

#[test]
fn can_format_html_announcement_unknown() {
    let options = fake_options();
    let config = Config::new(options);
    let exporter = HTML::new(&config).unwrap();

    let mut message = fake_message();
    message.sent_at = SENT.to_string();

    let mut actual = String::new();
    exporter.format_announcement(&message, &mut actual);
    let expected = "\n<div class=\"announcement\">\n    <p>Unable to format announcement!</p>\n</div>\n";

    assert_eq!(actual, expected);
}

#[test]
fn can_format_html_group_removed() {
    let options = fake_options();
    let config = Config::new(options);
    let exporter = HTML::new(&config).unwrap();

    let mut message = fake_message();
    message.sent_at = SENT.to_string();
    message.group_title = Some("Hello world".to_string());
    message.sender = "Me".to_string();
    message.is_from_me = true;
    message.item_type = 1;
    message.group_action_type = 1;
    message.other_handle = Some(1);
    message.other_name = "Other".to_string();

    let mut actual = String::new();
    exporter.format_announcement(&message, &mut actual);
    let expected = "\n<div class=\"announcement\">\n    <p><span class=\"timestamp\">May 17, 2022  5:29:42 PM</span> You removed Other from the conversation.</p>\n</div>\n";

    assert_eq!(actual, expected);
}

#[test]
fn can_format_html_group_removed_other() {
    let options = fake_options();
    let config = Config::new(options);
    let exporter = HTML::new(&config).unwrap();

    let mut message = fake_message();
    message.sent_at = SENT.to_string();
    message.group_title = Some("Hello world".to_string());
    message.is_from_me = false;
    message.handle_id = Some(1);
    message.sender = "Other".to_string();
    message.item_type = 1;
    message.group_action_type = 1;
    message.other_handle = Some(2);
    message.other_name = "Second".to_string();

    let mut actual = String::new();
    exporter.format_announcement(&message, &mut actual);
    let expected = "\n<div class=\"announcement\">\n    <p><span class=\"timestamp\">May 17, 2022  5:29:42 PM</span> Other removed Second from the conversation.</p>\n</div>\n";

    assert_eq!(actual, expected);
}

#[test]
fn can_format_html_group_changed_number() {
    let options = fake_options();
    let config = Config::new(options);
    let exporter = HTML::new(&config).unwrap();

    let mut message = fake_message();
    message.sent_at = SENT.to_string();
    message.group_title = Some("Hello world".to_string());
    message.is_from_me = false;
    message.handle_id = Some(1);
    message.sender = "Other".to_string();
    message.item_type = 1;
    message.group_action_type = 0;
    message.other_handle = Some(1);
    message.other_name = "Other".to_string();

    let mut actual = String::new();
    exporter.format_announcement(&message, &mut actual);
    let expected = "\n<div class=\"announcement\">\n    <p><span class=\"timestamp\">May 17, 2022  5:29:42 PM</span> Other changed their phone number.</p>\n</div>\n";

    assert_eq!(actual, expected);
}

#[test]
fn can_format_html_group_added() {
    let options = fake_options();
    let config = Config::new(options);
    let exporter = HTML::new(&config).unwrap();

    let mut message = fake_message();
    message.sent_at = SENT.to_string();
    message.group_title = Some("Hello world".to_string());
    message.sender = "Me".to_string();
    message.is_from_me = true;
    message.item_type = 1;
    message.group_action_type = 0;
    message.other_handle = Some(1);
    message.other_name = "Other".to_string();

    let mut actual = String::new();
    exporter.format_announcement(&message, &mut actual);
    let expected = "\n<div class=\"announcement\">\n    <p><span class=\"timestamp\">May 17, 2022  5:29:42 PM</span> You added Other to the conversation.</p>\n</div>\n";

    assert_eq!(actual, expected);
}

#[test]
fn can_format_html_group_left() {
    let options = fake_options();
    let config = Config::new(options);
    let exporter = HTML::new(&config).unwrap();

    let mut message = fake_message();
    message.sent_at = SENT.to_string();
    message.group_title = Some("Hello world".to_string());
    message.sender = "Me".to_string();
    message.is_from_me = true;
    message.item_type = 3;

    let mut actual = String::new();
    exporter.format_announcement(&message, &mut actual);
    let expected = "\n<div class=\"announcement\">\n    <p><span class=\"timestamp\">May 17, 2022  5:29:42 PM</span> You left the conversation.</p>\n</div>\n";

    assert_eq!(actual, expected);
}

#[test]
fn can_format_html_group_icon_removed() {
    let options = fake_options();
    let config = Config::new(options);
    let exporter = HTML::new(&config).unwrap();

    let mut message = fake_message();
    message.sent_at = SENT.to_string();
    message.group_title = Some("Hello world".to_string());
    message.sender = "Me".to_string();
    message.is_from_me = true;
    message.item_type = 3;
    message.group_action_type = 2;

    let mut actual = String::new();
    exporter.format_announcement(&message, &mut actual);
    let expected = "\n<div class=\"announcement\">\n    <p><span class=\"timestamp\">May 17, 2022  5:29:42 PM</span> You removed the group photo.</p>\n</div>\n";

    assert_eq!(actual, expected);
}

#[test]
fn can_format_html_group_icon_added() {
    let options = fake_options();
    let config = Config::new(options);
    let exporter = HTML::new(&config).unwrap();

    let mut message = fake_message();
    message.sent_at = SENT.to_string();
    message.group_title = Some("Hello world".to_string());
    message.sender = "Me".to_string();
    message.is_from_me = true;
    message.item_type = 3;
    message.group_action_type = 1;

    let mut actual = String::new();
    exporter.format_announcement(&message, &mut actual);
    let expected = "\n<div class=\"announcement\">\n    <p><span class=\"timestamp\">May 17, 2022  5:29:42 PM</span> You changed the group photo.</p>\n</div>\n";

    assert_eq!(actual, expected);
}

#[test]
fn can_format_html_chat_background_removed() {
    let options = fake_options();
    let config = Config::new(options);
    let exporter = HTML::new(&config).unwrap();

    let mut message = fake_message();
    message.sent_at = SENT.to_string();
    message.group_title = Some("Hello world".to_string());
    message.sender = "Me".to_string();
    message.is_from_me = true;
    message.item_type = 3;
    message.group_action_type = 6;

    let mut actual = String::new();
    exporter.format_announcement(&message, &mut actual);
    let expected = "\n<div class=\"announcement\">\n    <p><span class=\"timestamp\">May 17, 2022  5:29:42 PM</span> You removed the chat background.</p>\n</div>\n";

    assert_eq!(actual, expected);
}

#[test]
fn can_format_html_chat_background_added() {
    let options = fake_options();
    let config = Config::new(options);
    let exporter = HTML::new(&config).unwrap();

    let mut message = fake_message();
    message.sent_at = SENT.to_string();
    message.group_title = Some("Hello world".to_string());
    message.sender = "Me".to_string();
    message.is_from_me = true;
    message.item_type = 3;
    message.group_action_type = 4;

    let mut actual = String::new();
    exporter.format_announcement(&message, &mut actual);
    let expected = "\n<div class=\"announcement\">\n    <p><span class=\"timestamp\">May 17, 2022  5:29:42 PM</span> You changed the chat background.</p>\n</div>\n";

    assert_eq!(actual, expected);
}

#[test]
fn can_format_html_audio_message_kept() {
    let options = fake_options();
    let config = Config::new(options);
    let exporter = HTML::new(&config).unwrap();

    let mut message = fake_message();
    message.sent_at = SENT.to_string();
    message.sender = "Me".to_string();
    message.is_from_me = true;
    message.item_type = 5;

    let mut actual = String::new();
    exporter.format_announcement(&message, &mut actual);
    let expected = "\n<div class=\"announcement\">\n    <p><span class=\"timestamp\">May 17, 2022  5:29:42 PM</span> You kept an audio message.</p>\n</div>\n";

    assert_eq!(actual, expected);
}

#[test]
fn can_format_html_conversion_fully_unsent() {
    let options = fake_options();
    let config = Config::new(options);
    let exporter = HTML::new(&config).unwrap();

    let mut message = fake_message();
    message.sent_at = SENT.to_string();
    message.date_edited = 674530231992568192;
    message.text = None;
    message.sender = "Me".to_string();
    message.is_from_me = true;
    message.chat_id = Some(0);
    message.edited_parts = Some(vec![EditStatus::Unsent]);

    let mut actual = String::new();
    exporter.format_announcement(&message, &mut actual);
    let expected = "<div class=\"announcement\">\n    <p><span class=\"timestamp\">May 17, 2022  5:29:42 PM</span> You unsent a message.</p>\n</div>";

    assert_eq!(actual, expected);
}

#[test]
fn can_format_html_tapback_me() {
    let options = fake_options();
    let config = Config::new(options);
    let exporter = HTML::new(&config).unwrap();

    let mut message = fake_message();
    message.sent_at = SENT.to_string();
    message.associated_message_type = Some(2000);
    message.associated_message_guid = Some("fake_guid".to_string());
    message.sender = "Me".to_string();

    let tapback = TapbackMessage { message, attachments: Ok(vec![]) };
    let actual = exporter.format_tapback(&tapback).unwrap();
    let expected = "<span class=\"tapback\"><b>Loved</b> by Me</span>";

    assert_eq!(actual, expected);
}

#[test]
fn can_format_html_tapback_them() {
    let options = fake_options();
    let config = Config::new(options);
    let exporter = HTML::new(&config).unwrap();

    let mut message = fake_message();
    message.sent_at = SENT.to_string();
    message.associated_message_type = Some(2000);
    message.associated_message_guid = Some("fake_guid".to_string());
    message.handle_id = Some(999999);
    message.sender = "Sample Contact".to_string();

    let tapback = TapbackMessage { message, attachments: Ok(vec![]) };
    let actual = exporter.format_tapback(&tapback).unwrap();
    let expected = "<span class=\"tapback\"><b>Loved</b> by Sample Contact</span>";

    assert_eq!(actual, expected);
}

#[test]
fn can_format_html_tapback_custom_emoji() {
    let options = fake_options();
    let config = Config::new(options);
    let exporter = HTML::new(&config).unwrap();

    let mut message = fake_message();
    message.sent_at = SENT.to_string();
    message.associated_message_type = Some(2006);
    message.associated_message_guid = Some("fake_guid".to_string());
    message.handle_id = Some(999999);
    message.sender = "Sample Contact".to_string();
    message.associated_message_emoji = Some("☕️".to_string());

    let tapback = TapbackMessage { message, attachments: Ok(vec![]) };
    let actual = exporter.format_tapback(&tapback).unwrap();
    let expected = "<span class=\"tapback\"><b>☕\u{fe0f}</b> by Sample Contact</span>";

    assert_eq!(actual, expected);
}

#[test]
fn can_format_html_tapback_custom_sticker() {
    let options = fake_options();
    let config = Config::new(options);
    let exporter = HTML::new(&config).unwrap();

    let mut message = fake_message();
    message.sent_at = SENT.to_string();
    message.associated_message_type = Some(2007);
    message.associated_message_guid = Some("fake_guid".to_string());
    message.handle_id = Some(999999);
    message.sender = "Sample Contact".to_string();
    message.num_attachments = 1;

    let tapback = TapbackMessage { message, attachments: Ok(vec![]) };
    let actual = exporter.format_tapback(&tapback).unwrap();
    let expected = "<span class=\"tapback\">Sticker from Sample Contact not found!</span>";

    assert_eq!(actual, expected);
}

#[test]
fn can_format_html_tapback_custom_sticker_exists() {
    let options = fake_options();
    let config = Config::new(options);
    let exporter = HTML::new(&config).unwrap();

    let mut message = fake_message();
    message.sent_at = SENT.to_string();
    message.associated_message_type = Some(2007);
    message.associated_message_guid = Some("fake_guid".to_string());
    message.handle_id = Some(999999);
    message.sender = "Sample Contact".to_string();
    message.num_attachments = 1;
    let mut sticker = fake_attachment();
    sticker.mime_type = Some("image/heic".to_string());
    sticker.embed_path =
        "~/Library/Messages/StickerCache/8e682c381ab52ec2-289D9E83-33EE-4153-AF13-43DB31792C6F/289D9E83-33EE-4153-AF13-43DB31792C6F.heic"
            .to_string();
    sticker.decoration = Some(StickerDecoration::AppName("Free People".to_string()));

    let tapback = TapbackMessage { message, attachments: Ok(vec![sticker]) };
    let actual = exporter.format_tapback(&tapback).unwrap();
    let expected = "<img src=\"~/Library/Messages/StickerCache/8e682c381ab52ec2-289D9E83-33EE-4153-AF13-43DB31792C6F/289D9E83-33EE-4153-AF13-43DB31792C6F.heic\" loading=\"lazy\">\n<div class=\"sticker_name\">App: Free People</div><div class=\"sticker_tapback\">&nbsp;by Sample Contact</div>";

    assert_eq!(actual, expected);
}

#[test]
fn can_format_html_tapback_custom_sticker_removed() {
    let options = fake_options();
    let config = Config::new(options);
    let exporter = HTML::new(&config).unwrap();

    let mut message = fake_message();
    message.sent_at = SENT.to_string();
    message.associated_message_type = Some(3007);
    message.associated_message_guid = Some("fake_guid".to_string());
    message.handle_id = Some(999999);
    message.sender = "Sample Contact".to_string();
    message.num_attachments = 1;
    let mut sticker = fake_attachment();
    sticker.mime_type = Some("image/heic".to_string());
    sticker.embed_path =
        "~/Library/Messages/StickerCache/8e682c381ab52ec2-289D9E83-33EE-4153-AF13-43DB31792C6F/289D9E83-33EE-4153-AF13-43DB31792C6F.heic"
            .to_string();
    sticker.decoration = Some(StickerDecoration::AppName("Free People".to_string()));

    let tapback = TapbackMessage { message, attachments: Ok(vec![sticker]) };
    let actual = exporter.format_tapback(&tapback).unwrap();
    let expected = "";

    assert_eq!(actual, expected);
}

#[test]
fn forensic_html_tapback_added_reaction_includes_timestamp() {
    let mut options = fake_options();
    options.forensic = true;
    let config = Config::new(options);
    let exporter = HTML::new(&config).unwrap();

    let mut message = fake_message();
    message.sent_at = SENT.to_string();
    message.associated_message_type = Some(2000);
    message.associated_message_guid = Some("fake_guid".to_string());
    message.handle_id = Some(999999);
    message.sender = "Sample Contact".to_string();

    let tapback = TapbackMessage { message, attachments: Ok(vec![]) };
    let actual = exporter.format_tapback(&tapback).unwrap();
    let expected = "<span class=\"tapback\"><b>Loved</b> by Sample Contact<div class=\"tapback_time\">May 17, 2022  5:29:42 PM</div></span>";

    assert_eq!(actual, expected);
}

#[test]
fn forensic_html_tapback_removed_reaction_renders_with_timestamp() {
    let mut options = fake_options();
    options.forensic = true;
    let config = Config::new(options);
    let exporter = HTML::new(&config).unwrap();

    let mut message = fake_message();
    message.sent_at = SENT.to_string();
    message.associated_message_type = Some(3000);
    message.associated_message_guid = Some("fake_guid".to_string());
    message.handle_id = Some(999999);
    message.sender = "Sample Contact".to_string();

    let tapback = TapbackMessage { message, attachments: Ok(vec![]) };
    let actual = exporter.format_tapback(&tapback).unwrap();
    let expected = "<span class=\"tapback tapback_removed\"><b>Loved</b> removed by Sample Contact<div class=\"tapback_time\">May 17, 2022  5:29:42 PM</div></span>";

    assert_eq!(actual, expected);
}

#[test]
fn forensic_html_tapback_added_custom_emoji_includes_timestamp() {
    let mut options = fake_options();
    options.forensic = true;
    let config = Config::new(options);
    let exporter = HTML::new(&config).unwrap();

    let mut message = fake_message();
    message.sent_at = SENT.to_string();
    message.associated_message_type = Some(2006);
    message.associated_message_guid = Some("fake_guid".to_string());
    message.handle_id = Some(999999);
    message.sender = "Sample Contact".to_string();
    message.associated_message_emoji = Some("☕️".to_string());

    let tapback = TapbackMessage { message, attachments: Ok(vec![]) };
    let actual = exporter.format_tapback(&tapback).unwrap();
    let expected = "<span class=\"tapback\"><b>☕\u{fe0f}</b> by Sample Contact<div class=\"tapback_time\">May 17, 2022  5:29:42 PM</div></span>";

    assert_eq!(actual, expected);
}

#[test]
fn forensic_html_tapback_removed_custom_emoji_renders() {
    let mut options = fake_options();
    options.forensic = true;
    let config = Config::new(options);
    let exporter = HTML::new(&config).unwrap();

    let mut message = fake_message();
    message.sent_at = SENT.to_string();
    message.associated_message_type = Some(3006);
    message.associated_message_guid = Some("fake_guid".to_string());
    message.handle_id = Some(999999);
    message.sender = "Sample Contact".to_string();
    message.associated_message_emoji = Some("☕️".to_string());

    let tapback = TapbackMessage { message, attachments: Ok(vec![]) };
    let actual = exporter.format_tapback(&tapback).unwrap();
    let expected = "<span class=\"tapback tapback_removed\"><b>☕\u{fe0f}</b> removed by Sample Contact<div class=\"tapback_time\">May 17, 2022  5:29:42 PM</div></span>";

    assert_eq!(actual, expected);
}

#[test]
fn forensic_html_tapback_removed_sticker_renders_textually() {
    let mut options = fake_options();
    options.forensic = true;
    let config = Config::new(options);
    let exporter = HTML::new(&config).unwrap();

    let mut message = fake_message();
    message.sent_at = SENT.to_string();
    message.associated_message_type = Some(3007);
    message.associated_message_guid = Some("fake_guid".to_string());
    message.handle_id = Some(999999);
    message.sender = "Sample Contact".to_string();
    message.num_attachments = 1;
    let mut sticker = fake_attachment();
    sticker.mime_type = Some("image/heic".to_string());
    sticker.embed_path =
        "~/Library/Messages/StickerCache/8e682c381ab52ec2-289D9E83-33EE-4153-AF13-43DB31792C6F/289D9E83-33EE-4153-AF13-43DB31792C6F.heic"
            .to_string();
    sticker.decoration = Some(StickerDecoration::AppName("Free People".to_string()));

    let tapback = TapbackMessage { message, attachments: Ok(vec![sticker]) };
    let actual = exporter.format_tapback(&tapback).unwrap();
    let expected = "<span class=\"tapback tapback_removed\"><b>Sticker</b> removed by Sample Contact<div class=\"tapback_time\">May 17, 2022  5:29:42 PM</div></span>";

    assert_eq!(actual, expected);
}

#[test]
fn forensic_html_tapback_added_sticker_missing_includes_timestamp() {
    let mut options = fake_options();
    options.forensic = true;
    let config = Config::new(options);
    let exporter = HTML::new(&config).unwrap();

    let mut message = fake_message();
    message.sent_at = SENT.to_string();
    message.associated_message_type = Some(2007);
    message.associated_message_guid = Some("fake_guid".to_string());
    message.handle_id = Some(999999);
    message.sender = "Sample Contact".to_string();
    message.num_attachments = 1;

    let tapback = TapbackMessage { message, attachments: Ok(vec![]) };
    let actual = exporter.format_tapback(&tapback).unwrap();
    let expected = "<span class=\"tapback\">Sticker from Sample Contact not found!<div class=\"tapback_time\">May 17, 2022  5:29:42 PM</div></span>";

    assert_eq!(actual, expected);
}

#[test]
fn forensic_html_tapback_bubble_added_loved_with_known_target() {
    let mut options = fake_options();
    options.forensic = true;
    let mut config = Config::new(options);
    let mut target = fake_message();
    target.guid = "0355C6E1-D0C8-4212-AA87-DD8AE4FD1203".to_string();
    target.text = Some("I will eat as quick as possible".to_string());
    config.messages.push(target);
    let exporter = HTML::new(&config).unwrap();

    let mut message = fake_message();
    message.sent_at = SENT.to_string();
    message.guid = "TAPBACK-GUID-FULL-1234567890".to_string();
    message.associated_message_type = Some(2000);
    message.associated_message_guid = Some("p:0/0355C6E1-D0C8-4212-AA87-DD8AE4FD1203".to_string());
    message.handle_id = Some(999999);
    message.sender = "Sample Contact".to_string();

    let actual = exporter.format_tapback_bubble(&message).unwrap();

    assert!(
        actual.contains("id=\"TAPBACK-GUID-FULL-1234567890\""),
        "expected bubble id=guid, got: {actual}",
    );
    assert!(
        actual.contains("href=\"#0355C6E1-D0C8-4212-AA87-DD8AE4FD1203\""),
        "expected reference link to target, got: {actual}",
    );
    assert!(
        actual.contains("Loved"),
        "expected kind to be Loved, got: {actual}",
    );
    assert!(
        actual.contains("Added by"),
        "expected 'Added by' phrasing, got: {actual}",
    );
    assert!(
        actual.contains("Sample Contact"),
        "expected sender 'Sample Contact', got: {actual}",
    );
    assert!(
        actual.contains("May 17, 2022  5:29:42 PM"),
        "expected forensic timestamp, got: {actual}",
    );
    assert!(
        actual.contains("TAPBACK-…") || actual.contains("guid: TAPBACK"),
        "expected short guid in bubble, got: {actual}",
    );
    assert!(
        !actual.contains("tapback_bubble_removed"),
        "Added tapbacks should not carry the removed class, got: {actual}",
    );
}

#[test]
fn forensic_html_tapback_bubble_removed_loved_carries_removed_class() {
    let mut options = fake_options();
    options.forensic = true;
    let mut config = Config::new(options);
    let mut target = fake_message();
    target.guid = "0355C6E1-D0C8-4212-AA87-DD8AE4FD1203".to_string();
    target.text = Some("I will eat as quick as possible".to_string());
    config.messages.push(target);
    let exporter = HTML::new(&config).unwrap();

    let mut message = fake_message();
    message.sent_at = SENT.to_string();
    message.guid = "REMOVED-TAPBACK-GUID".to_string();
    message.associated_message_type = Some(3000);
    message.associated_message_guid = Some("p:0/0355C6E1-D0C8-4212-AA87-DD8AE4FD1203".to_string());
    message.handle_id = Some(999999);
    message.sender = "Sample Contact".to_string();

    let actual = exporter.format_tapback_bubble(&message).unwrap();
    assert!(
        actual.contains("tapback_bubble_removed"),
        "Removed tapbacks must carry the removed class, got: {actual}",
    );
    assert!(
        actual.contains("Removed by"),
        "expected 'Removed by' phrasing, got: {actual}",
    );
}

#[test]
fn forensic_html_tapback_bubble_missing_target_omits_reference_header() {
    let mut options = fake_options();
    options.forensic = true;
    let config = Config::new(options);
    let exporter = HTML::new(&config).unwrap();

    let mut message = fake_message();
    message.sent_at = SENT.to_string();
    message.guid = "ORPHAN-TAPBACK-GUID".to_string();
    message.associated_message_type = Some(2000);
    message.associated_message_guid = Some("p:0/MISSING-TARGET-GUID-XXXXXXXXXXXXXXXX".to_string());
    message.handle_id = Some(999999);
    message.sender = "Sample Contact".to_string();

    let actual = exporter.format_tapback_bubble(&message).unwrap();
    assert!(
        !actual.contains("in_reaction_to"),
        "orphan tapback bubble should omit reference header, got: {actual}",
    );
    assert!(
        actual.contains("id=\"ORPHAN-TAPBACK-GUID\""),
        "orphan tapback bubble must still render with its anchor, got: {actual}",
    );
    assert!(
        actual.contains("Loved"),
        "orphan tapback bubble must still surface kind, got: {actual}",
    );
}

#[test]
fn can_format_html_attachment_macos() {
    let options = fake_options();
    let config = Config::new(options);
    let exporter = HTML::new(&config).unwrap();

    let attachment = fake_attachment();

    let actual = exporter.format_attachment(&attachment, &AttachmentMeta::default());

    assert_eq!(
        actual,
        AttachmentRender::Embedded("<img src=\"a/b/c/d.jpg\" loading=\"lazy\">".to_string())
    );
}

#[test]
fn can_format_html_attachment_macos_invalid_disabled() {
    let options = fake_options();
    let config = Config::new(options);
    let exporter = HTML::new(&config).unwrap();

    let mut attachment = fake_attachment();
    attachment.filename = None;
    attachment.transfer_name = None;

    let actual = exporter.format_attachment(&attachment, &AttachmentMeta::default());

    assert_eq!(actual, AttachmentRender::MissingFilename);
}

#[test]
fn can_format_html_attachment_macos_invalid_clone() {
    let options = fake_options();
    let config = Config::new(options);
    let exporter = HTML::new(&config).unwrap();

    let mut attachment = fake_attachment();
    attachment.filename = None;
    attachment.transfer_name = None;

    let actual = exporter.format_attachment(&attachment, &AttachmentMeta::default());

    assert_eq!(actual, AttachmentRender::MissingFilename);
}

#[test]
fn can_format_html_attachment_ios_invalid_disabled() {
    let options = fake_options();
    let config = Config::new(options);
    let exporter = HTML::new(&config).unwrap();

    let mut attachment = fake_attachment();
    attachment.filename = None;
    attachment.transfer_name = None;

    let actual = exporter.format_attachment(&attachment, &AttachmentMeta::default());

    assert_eq!(actual, AttachmentRender::MissingFilename);
}

#[test]
fn can_format_html_attachment_ios_invalid_clone() {
    let options = fake_options();
    let config = Config::new(options);
    let exporter = HTML::new(&config).unwrap();

    let mut attachment = fake_attachment();
    attachment.filename = None;
    attachment.transfer_name = None;

    let actual = exporter.format_attachment(&attachment, &AttachmentMeta::default());

    assert_eq!(actual, AttachmentRender::MissingFilename);
}

#[test]
fn can_format_html_attachment_ios() {
    let mut options = fake_options();
    options.no_lazy = true;
    options.platform = Platform::IOS;
    let config = Config::new(options);
    let exporter = HTML::new(&config).unwrap();

    let mut attachment = fake_attachment();
    attachment.embed_path =
        "backup/33/33c81da8ae3194fc5a0ea993ef6ffe0b048baedb".to_string();

    let actual = exporter.format_attachment(&attachment, &AttachmentMeta::default());

    let AttachmentRender::Embedded(actual) = actual else {
        panic!("expected AttachmentRender::Embedded");
    };
    assert!(actual.ends_with("33/33c81da8ae3194fc5a0ea993ef6ffe0b048baedb\">"));
}

#[test]
fn can_format_html_attachment_folder() {
    let options = fake_options();
    let config = Config::new(options);
    let exporter = HTML::new(&config).unwrap();

    let mut attachment = fake_attachment();
    attachment.mime_type = None;
    attachment.transfer_name = Some("test_data".to_string());
    attachment.embed_path = "imessage-database/test_data/".to_string();
    attachment.is_folder = true;

    let actual = exporter.format_attachment(&attachment, &AttachmentMeta::default());

    assert_eq!(
        actual,
        AttachmentRender::Embedded("<p>\n    Folder: <i>test_data</i> (100.00 B)\n    <a href=\"imessage-database/test_data/\">Click to open</a>\n</p>".to_string())
    );
}

#[test]
fn can_format_html_attachment_text_download() {
    let options = fake_options();
    let config = Config::new(options);
    let exporter = HTML::new(&config).unwrap();

    let mut attachment = fake_attachment();
    attachment.mime_type = Some("text/plain".to_string());
    attachment.filename = Some("notes.txt".to_string());
    attachment.transfer_name = Some("notes.txt".to_string());
    attachment.embed_path = "notes.txt".to_string();

    let actual = exporter.format_attachment(&attachment, &AttachmentMeta::default());

    assert_eq!(
        actual,
        AttachmentRender::Embedded("<a href=\"notes.txt\">Click to download notes.txt (100.00 B)</a>".to_string())
    );
}

#[test]
fn can_format_html_attachment_application_download() {
    let options = fake_options();
    let config = Config::new(options);
    let exporter = HTML::new(&config).unwrap();

    let mut attachment = fake_attachment();
    attachment.mime_type = Some("application/pdf".to_string());
    attachment.filename = Some("doc.pdf".to_string());
    attachment.transfer_name = Some("doc.pdf".to_string());
    attachment.embed_path = "doc.pdf".to_string();

    let actual = exporter.format_attachment(&attachment, &AttachmentMeta::default());

    assert_eq!(
        actual,
        AttachmentRender::Embedded("<a href=\"doc.pdf\">Click to download doc.pdf (100.00 B)</a>".to_string())
    );
}

#[test]
fn can_format_html_attachment_other_media_type() {
    let options = fake_options();
    let config = Config::new(options);
    let exporter = HTML::new(&config).unwrap();

    let mut attachment = fake_attachment();
    attachment.mime_type = Some("model/gltf-binary".to_string());
    attachment.filename = Some("scene.glb".to_string());
    attachment.embed_path = "scene.glb".to_string();

    let actual = exporter.format_attachment(&attachment, &AttachmentMeta::default());

    assert_eq!(
        actual,
        AttachmentRender::Embedded("<p>Unable to embed model/gltf-binary attachments: scene.glb</p>".to_string())
    );
}

#[test]
fn can_format_html_attachment_unknown() {
    let options = fake_options();
    let config = Config::new(options);
    let exporter = HTML::new(&config).unwrap();

    let mut attachment = fake_attachment();
    attachment.mime_type = None;
    attachment.transfer_name = Some("test_data".to_string());
    attachment.embed_path = "Fake".to_string();

    let actual = exporter.format_attachment(&attachment, &AttachmentMeta::default());

    assert_eq!(
        actual,
        AttachmentRender::Embedded("<p>Unknown attachment type: Fake</p>\n<a href=\"Fake\">Download (100.00 B)</a>".to_string())
    );
}

#[test]
fn can_format_html_attachment_audio_transcript() {
    let options = fake_options();
    let config = Config::new(options);
    let exporter = HTML::new(&config).unwrap();

    let mut attachment = fake_attachment();
    attachment.uti = Some("com.apple.coreaudio-format".to_string());
    attachment.transfer_name = Some("Audio Message.caf".to_string());
    attachment.filename = Some("Audio Message.caf".to_string());
    attachment.mime_type = None;
    attachment.embed_path = "Audio Message.caf".to_string();
    let meta = AttachmentMeta {
        transcription: Some("Test".to_string()),
    };

    let actual = exporter.format_attachment(&attachment, &meta);

    assert_eq!(
        actual,
        AttachmentRender::Embedded("<div>\n    <audio controls src=\"Audio Message.caf\" type=\"x-caf; codecs=opus\"> </audio>\n</div>\n<hr>\n<span class=\"transcription\">Transcription: Test</span>".to_string())
    );
}

#[test]
fn can_format_html_attachment_sticker() {
    let config = Config::new(fake_options());
    let exporter = HTML::new(&config).unwrap();

    let mut attachment = fake_attachment();
    attachment.embed_path = "imessage-database/test_data/stickers/outline.heic".to_string();
    attachment.decoration = Some(StickerDecoration::Effect(StickerEffect::Outline));

    let actual = exporter.format_sticker(&attachment);

    assert_eq!(
        actual,
        "<img src=\"imessage-database/test_data/stickers/outline.heic\" loading=\"lazy\">\n<div class=\"sticker_effect\">Sent with Outline effect</div>"
    );
}

#[test]
fn can_format_html_attachment_sticker_genmoji() {
    let config = Config::new(fake_options());
    let exporter = HTML::new(&config).unwrap();

    let mut attachment = fake_attachment();
    attachment.embed_path = "imessage-database/test_data/stickers/outline.heic".to_string();
    attachment.decoration = Some(StickerDecoration::GenmojiPrompt("pink poodle".to_string()));

    let actual = exporter.format_sticker(&attachment);

    assert_eq!(
        actual,
        "<img src=\"imessage-database/test_data/stickers/outline.heic\" loading=\"lazy\">\n<div class=\"genmoji_prompt\">Genmoji prompt: pink poodle</div>"
    );
}

#[test]
fn can_format_html_attachment_sticker_app() {
    let config = Config::new(fake_options());
    let exporter = HTML::new(&config).unwrap();

    let mut attachment = fake_attachment();
    attachment.embed_path = "imessage-database/test_data/stickers/outline.heic".to_string();
    attachment.decoration = Some(StickerDecoration::AppName("Free People".to_string()));

    let actual = exporter.format_sticker(&attachment);

    assert_eq!(
        actual,
        "<img src=\"imessage-database/test_data/stickers/outline.heic\" loading=\"lazy\">\n<div class=\"sticker_name\">App: Free People</div>"
    );
}

#[test]
fn can_format_html_default() {
    let config = Config::new(fake_options());
    let exporter = HTML::new(&config).unwrap();

    let actual = exporter.format_effect("Chris", &TextEffect::Default);
    let expected = "Chris";

    assert_eq!(actual, expected);
}

#[test]
fn can_format_html_mention() {
    let config = Config::new(fake_options());
    let exporter = HTML::new(&config).unwrap();

    let actual = exporter.format_mention("Chris", "+15558675309");
    let expected = "<span title=\"+15558675309\"><b>Chris</b></span>";

    assert_eq!(actual, expected);
}

#[test]
fn can_format_html_link() {
    let config = Config::new(fake_options());
    let exporter = HTML::new(&config).unwrap();

    let actual = exporter.format_link("chrissardegna.com", "https://chrissardegna.com");
    let expected = "<a href=\"https://chrissardegna.com\">chrissardegna.com</a>";

    assert_eq!(actual, expected);
}

#[test]
fn can_format_html_otp() {
    let config = Config::new(fake_options());
    let exporter = HTML::new(&config).unwrap();

    let actual = exporter.format_otp("123456");
    let expected = "<u>123456</u>";

    assert_eq!(actual, expected);
}

#[test]
fn can_format_html_style_single() {
    let config = Config::new(fake_options());
    let exporter = HTML::new(&config).unwrap();

    let actual = exporter.format_styles("Bold", &[Style::Bold]);
    let expected = "<b>Bold</b>";

    assert_eq!(actual, expected);
}

#[test]
fn can_format_html_style_multiple() {
    let config = Config::new(fake_options());
    let exporter = HTML::new(&config).unwrap();

    let actual = exporter.format_styles("Bold", &[Style::Bold, Style::Strikethrough]);
    let expected = "<s><b>Bold</b></s>";

    assert_eq!(actual, expected);
}

#[test]
fn can_format_html_style_all() {
    let config = Config::new(fake_options());
    let exporter = HTML::new(&config).unwrap();

    let actual = exporter.format_styles(
        "Bold",
        &[
            Style::Bold,
            Style::Strikethrough,
            Style::Italic,
            Style::Underline,
        ],
    );
    let expected = "<u><i><s><b>Bold</b></s></i></u>";

    assert_eq!(actual, expected);
}

#[test]
fn can_format_html_conversion() {
    let config = Config::new(fake_options());
    let exporter = HTML::new(&config).unwrap();

    let actual = exporter.format_conversion("100 Miles", &Unit::Distance);
    let expected = "<u>100 Miles</u>";

    assert_eq!(actual, expected);
}

#[test]
fn can_format_html_animated() {
    let config = Config::new(fake_options());
    let exporter = HTML::new(&config).unwrap();

    let actual = exporter.format_animated("party", &Animation::Big);
    assert_eq!(actual, "<span class=\"animationBig\">party</span>");

    // Unknown(i64) round-trips its integer in the Debug form.
    let actual = exporter.format_animated("oops", &Animation::Unknown(42));
    assert_eq!(actual, "<span class=\"animationUnknown(42)\">oops</span>");
}

#[test]
fn format_effect_default_is_borrowed() {
    let config = Config::new(fake_options());
    let exporter = HTML::new(&config).unwrap();

    let owned_text = String::from("hello");
    let result = exporter.format_effect(&owned_text, &TextEffect::Default);
    assert!(
        matches!(result, Cow::Borrowed(_)),
        "Default arm must not allocate"
    );

    let owned_url = String::from("https://example.com");
    let link = TextEffect::Link(owned_url);
    let result = exporter.format_effect(&owned_text, &link);
    assert!(
        matches!(result, Cow::Owned(_)),
        "Link arm wraps in <a> and must own"
    );
}

#[test]
fn format_mention_escapes_name_to_prevent_attribute_injection() {
    let config = Config::new(fake_options());
    let exporter = HTML::new(&config).unwrap();

    let actual = exporter.format_mention("Chris", "\"><script>alert(1)</script>");
    assert_eq!(
        actual,
        "<span title=\"&quot;&gt;&lt;script&gt;alert(1)&lt;/script&gt;\"><b>Chris</b></span>"
    );
    assert!(
        !actual.contains("<script>"),
        "raw <script> must not survive"
    );
}

#[test]
fn format_link_escapes_url_to_prevent_attribute_injection() {
    let config = Config::new(fake_options());
    let exporter = HTML::new(&config).unwrap();

    let actual = exporter.format_link("click me", "https://x.test/?q=\"><script>");
    assert_eq!(
        actual,
        "<a href=\"https://x.test/?q=&quot;&gt;&lt;script&gt;\">click me</a>"
    );
    assert!(
        !actual.contains("<script>"),
        "raw <script> must not survive"
    );
}

fn parent_with(text: Option<&str>, attachments: i32) -> Message {
    let mut m = fake_message();
    m.text = text.map(str::to_string);
    m.num_attachments = attachments;
    m
}

#[test]
fn snippet_returns_short_text_unchanged() {
    let parent = parent_with(Some("hi there"), 0);
    assert_eq!(build_reply_snippet(&parent), "hi there");
}

#[test]
fn snippet_collapses_internal_whitespace() {
    let parent = parent_with(Some("line one\nline\ttwo   end"), 0);
    assert_eq!(build_reply_snippet(&parent), "line one line two end");
}

#[test]
fn snippet_truncates_long_text_with_ellipsis() {
    let parent = parent_with(Some(&"a".repeat(REPLY_SNIPPET_MAX_CHARS + 25)), 0);
    let out = build_reply_snippet(&parent);
    assert_eq!(out.chars().count(), REPLY_SNIPPET_MAX_CHARS + 1);
    assert!(out.ends_with('…'));
}

#[test]
fn snippet_keeps_boundary_length_intact() {
    let parent = parent_with(Some(&"a".repeat(REPLY_SNIPPET_MAX_CHARS)), 0);
    let out = build_reply_snippet(&parent);
    assert_eq!(out.chars().count(), REPLY_SNIPPET_MAX_CHARS);
    assert!(!out.ends_with('…'));
}

#[test]
fn snippet_falls_back_to_attachment_placeholder() {
    let parent = parent_with(None, 1);
    assert_eq!(build_reply_snippet(&parent), "[attachment]");
}

#[test]
fn snippet_falls_back_to_no_preview_when_empty_and_no_attachment() {
    let parent = parent_with(Some("   "), 0);
    assert_eq!(build_reply_snippet(&parent), "[no preview]");
}
