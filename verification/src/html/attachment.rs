//! Attachments and stickers in HTML.
use vstd::prelude::*;

use crate::attachments::{
    file_size_of, Attachment, AttachmentMeta, AttachmentRender, AttachmentRenderView, MediaType,
    MediaTypeView, StickerDecoration,
};
use crate::escape::{escaped, sanitize_html};
use crate::html::HTML;

verus! {

/// An image. A lazy one is loaded when it comes in view.
pub open spec fn image_markup(path: Seq<char>, lazy: bool) -> Seq<char> {
    "<img src=\""@ + escaped(path) + (if lazy {
        "\" loading=\"lazy\">"@
    } else {
        "\">"@
    })
}

/// A video. The source is named twice: browsers that do not know the media type
/// skip the first.
pub open spec fn video_markup(path: Seq<char>, media_type: Seq<char>) -> Seq<char> {
    "<video controls> <source src=\""@ + escaped(path) + "\" type=\""@ + escaped(media_type)
        + "\"> <source src=\""@ + escaped(path) + "\"> </video>"@
}

/// An audio message.
pub open spec fn audio_markup(path: Seq<char>, media_type: Seq<char>) -> Seq<char> {
    "<audio controls src=\""@ + escaped(path) + "\" type=\""@ + escaped(media_type)
        + "\"> </audio>"@
}

/// An audio message with its transcription.
pub open spec fn transcribed_audio_markup(
    path: Seq<char>,
    media_type: Seq<char>,
    transcription: Seq<char>,
) -> Seq<char> {
    "<div>\n    "@ + audio_markup(path, media_type)
        + "\n</div>\n<hr>\n<span class=\"transcription\">Transcription: "@ + escaped(transcription)
        + "</span>"@
}

/// A file to download.
pub open spec fn download_markup(path: Seq<char>, filename: Seq<char>, size: Seq<char>) -> Seq<
    char,
> {
    "<a href=\""@ + escaped(path) + "\">Click to download "@ + escaped(filename) + " ("@ + escaped(
        size,
    ) + ")</a>"@
}

/// A folder.
pub open spec fn folder_markup(path: Seq<char>, filename: Seq<char>, size: Seq<char>) -> Seq<char> {
    "<p>\n    Folder: <i>"@ + escaped(filename) + "</i> ("@ + escaped(size) + ")\n    <a href=\""@
        + escaped(path) + "\">Click to open</a>\n</p>"@
}

/// A file of which nothing is known.
pub open spec fn unknown_file_markup(path: Seq<char>, size: Seq<char>) -> Seq<char> {
    "<p>Unknown attachment type: "@ + escaped(path) + "</p>\n<a href=\""@ + escaped(path)
        + "\">Download ("@ + escaped(size) + ")</a>"@
}

/// A file that no browser shows.
pub open spec fn other_file_markup(path: Seq<char>, media_type: Seq<char>) -> Seq<char> {
    "<p>Unable to embed "@ + escaped(media_type) + " attachments: "@ + escaped(path) + "</p>"@
}

/// What becomes of an attachment whose file is part of the export, by the sort
/// of file. `size` is its size in words.
pub open spec fn embedded_attachment(
    attachment: Attachment,
    metadata: AttachmentMeta,
    lazy: bool,
    media_type: MediaTypeView,
    size: Seq<char>,
) -> AttachmentRenderView {
    let path = attachment.embed_path@;
    match media_type {
        MediaTypeView::Image(_) => AttachmentRenderView::Embedded(image_markup(path, lazy)),
        MediaTypeView::Video(subtype) => AttachmentRenderView::Embedded(
            video_markup(path, subtype),
        ),
        MediaTypeView::Audio(subtype) => match metadata.transcription {
            Some(transcription) => AttachmentRenderView::Embedded(
                transcribed_audio_markup(path, subtype, transcription@),
            ),
            None => AttachmentRenderView::Embedded(audio_markup(path, subtype)),
        },
        MediaTypeView::Text(_) | MediaTypeView::Application(
            _,
        ) => match attachment.display_name() {
            Some(filename) => AttachmentRenderView::Embedded(
                download_markup(path, filename, size),
            ),
            None => AttachmentRenderView::MissingFilename,
        },
        MediaTypeView::Unknown => if attachment.is_folder {
            match attachment.display_name() {
                Some(filename) => AttachmentRenderView::Embedded(
                    folder_markup(path, filename, size),
                ),
                None => AttachmentRenderView::MissingFilename,
            }
        } else {
            AttachmentRenderView::Embedded(unknown_file_markup(path, size))
        },
        MediaTypeView::Other(whole) => AttachmentRenderView::Embedded(
            other_file_markup(path, whole),
        ),
    }
}

/// What becomes of an attachment. One without any name has no file to show.
pub open spec fn attachment_render(
    attachment: Attachment,
    metadata: AttachmentMeta,
    lazy: bool,
) -> AttachmentRenderView {
    if attachment.display_name() is None {
        AttachmentRenderView::MissingFilename
    } else {
        match attachment.substitute {
            Some(substitute) => substitute@,
            None => embedded_attachment(
                attachment,
                metadata,
                lazy,
                attachment.media_type(),
                file_size_of(attachment.total_bytes),
            ),
        }
    }
}

/// What is shown below a sticker.
pub open spec fn decoration_markup(decoration: StickerDecoration) -> Seq<char> {
    match decoration {
        StickerDecoration::GenmojiPrompt(prompt) => {
            "\n<div class=\"genmoji_prompt\">Genmoji prompt: "@ + escaped(prompt@) + "</div>"@
        },
        StickerDecoration::Memoji => "\n<div class=\"sticker_name\">App: Stickers</div>"@,
        StickerDecoration::Effect(effect) => {
            "\n<div class=\"sticker_effect\">Sent with "@ + escaped(effect.label())
                + " effect</div>"@
        },
        StickerDecoration::AppName(name) => {
            "\n<div class=\"sticker_name\">App: "@ + escaped(name@) + "</div>"@
        },
    }
}

/// A sticker: its image and what is known of where it comes from. Where the
/// image could not be had, the name of its file, or nothing.
pub open spec fn sticker_markup(sticker: Attachment, lazy: bool) -> Seq<char> {
    match attachment_render(sticker, AttachmentMeta { transcription: None }, lazy) {
        AttachmentRenderView::Embedded(markup) => match sticker.decoration {
            Some(decoration) => markup + decoration_markup(decoration),
            None => markup,
        },
        AttachmentRenderView::MissingFilename => Seq::empty(),
        AttachmentRenderView::NamedFile(name) => escaped(name),
    }
}

fn image(path: &str, lazy: bool) -> (markup: String)
    ensures
        markup@ == image_markup(path@, lazy),
{
    let mut markup = "<img src=\"".to_string();
    markup.append(sanitize_html(path).as_str());
    if lazy {
        markup.append("\" loading=\"lazy\">");
    } else {
        markup.append("\">");
    }
    markup
}

fn video(path: &str, media_type: &str) -> (markup: String)
    ensures
        markup@ == video_markup(path@, media_type@),
{
    let path = sanitize_html(path);
    let mut markup = "<video controls> <source src=\"".to_string();
    markup.append(path.as_str());
    markup.append("\" type=\"");
    markup.append(sanitize_html(media_type).as_str());
    markup.append("\"> <source src=\"");
    markup.append(path.as_str());
    markup.append("\"> </video>");
    markup
}

fn audio(path: &str, media_type: &str) -> (markup: String)
    ensures
        markup@ == audio_markup(path@, media_type@),
{
    let mut markup = "<audio controls src=\"".to_string();
    markup.append(sanitize_html(path).as_str());
    markup.append("\" type=\"");
    markup.append(sanitize_html(media_type).as_str());
    markup.append("\"> </audio>");
    markup
}

fn transcribed_audio(path: &str, media_type: &str, transcription: &str) -> (markup: String)
    ensures
        markup@ == transcribed_audio_markup(path@, media_type@, transcription@),
{
    let mut markup = "<div>\n    ".to_string();
    markup.append(audio(path, media_type).as_str());
    markup.append("\n</div>\n<hr>\n<span class=\"transcription\">Transcription: ");
    markup.append(sanitize_html(transcription).as_str());
    markup.append("</span>");
    markup
}

fn download(path: &str, filename: &str, size: &str) -> (markup: String)
    ensures
        markup@ == download_markup(path@, filename@, size@),
{
    let mut markup = "<a href=\"".to_string();
    markup.append(sanitize_html(path).as_str());
    markup.append("\">Click to download ");
    markup.append(sanitize_html(filename).as_str());
    markup.append(" (");
    markup.append(sanitize_html(size).as_str());
    markup.append(")</a>");
    markup
}

fn folder(path: &str, filename: &str, size: &str) -> (markup: String)
    ensures
        markup@ == folder_markup(path@, filename@, size@),
{
    let mut markup = "<p>\n    Folder: <i>".to_string();
    markup.append(sanitize_html(filename).as_str());
    markup.append("</i> (");
    markup.append(sanitize_html(size).as_str());
    markup.append(")\n    <a href=\"");
    markup.append(sanitize_html(path).as_str());
    markup.append("\">Click to open</a>\n</p>");
    markup
}

fn unknown_file(path: &str, size: &str) -> (markup: String)
    ensures
        markup@ == unknown_file_markup(path@, size@),
{
    let path = sanitize_html(path);
    let mut markup = "<p>Unknown attachment type: ".to_string();
    markup.append(path.as_str());
    markup.append("</p>\n<a href=\"");
    markup.append(path.as_str());
    markup.append("\">Download (");
    markup.append(sanitize_html(size).as_str());
    markup.append(")</a>");
    markup
}

fn other_file(path: &str, media_type: &str) -> (markup: String)
    ensures
        markup@ == other_file_markup(path@, media_type@),
{
    let mut markup = "<p>Unable to embed ".to_string();
    markup.append(sanitize_html(media_type).as_str());
    markup.append(" attachments: ");
    markup.append(sanitize_html(path).as_str());
    markup.append("</p>");
    markup
}

fn decoration_text(decoration: &StickerDecoration) -> (markup: String)
    ensures
        markup@ == decoration_markup(*decoration),
{
    match decoration {
        StickerDecoration::GenmojiPrompt(prompt) => {
            let mut markup = "\n<div class=\"genmoji_prompt\">Genmoji prompt: ".to_string();
            markup.append(sanitize_html(prompt.as_str()).as_str());
            markup.append("</div>");
            markup
        },
        StickerDecoration::Memoji => {
            "\n<div class=\"sticker_name\">App: Stickers</div>".to_string()
        },
        StickerDecoration::Effect(effect) => {
            let mut markup = "\n<div class=\"sticker_effect\">Sent with ".to_string();
            markup.append(sanitize_html(effect.label_text().as_str()).as_str());
            markup.append(" effect</div>");
            markup
        },
        StickerDecoration::AppName(name) => {
            let mut markup = "\n<div class=\"sticker_name\">App: ".to_string();
            markup.append(sanitize_html(name.as_str()).as_str());
            markup.append("</div>");
            markup
        },
    }
}

/// Render an attachment whose file is part of the export, by the sort of file.
/// `size` is its size in words.
pub fn embed_attachment(
    attachment: &Attachment,
    metadata: &AttachmentMeta,
    lazy: bool,
    media_type: &MediaType,
    size: &str,
) -> (render: AttachmentRender)
    ensures
        render@ == embedded_attachment(*attachment, *metadata, lazy, media_type@, size@),
{
    let path = attachment.embed_path.as_str();
    match media_type {
        MediaType::Image(_) => AttachmentRender::Embedded(image(path, lazy)),
        MediaType::Video(subtype) => AttachmentRender::Embedded(video(path, subtype.as_str())),
        MediaType::Audio(subtype) => match &metadata.transcription {
            Some(transcription) => AttachmentRender::Embedded(
                transcribed_audio(path, subtype.as_str(), transcription.as_str()),
            ),
            None => AttachmentRender::Embedded(audio(path, subtype.as_str())),
        },
        MediaType::Text(_) | MediaType::Application(_) => match attachment.filename() {
            Some(filename) => AttachmentRender::Embedded(download(path, filename, size)),
            None => AttachmentRender::MissingFilename,
        },
        MediaType::Unknown => if attachment.is_folder {
            match attachment.filename() {
                Some(filename) => AttachmentRender::Embedded(folder(path, filename, size)),
                None => AttachmentRender::MissingFilename,
            }
        } else {
            AttachmentRender::Embedded(unknown_file(path, size))
        },
        MediaType::Other(whole) => AttachmentRender::Embedded(other_file(path, whole.as_str())),
    }
}

impl<'a> HTML<'a> {
    /// Render an attachment, by the sort of file it is.
    pub fn format_attachment(&self, attachment: &Attachment, metadata: &AttachmentMeta) -> (render:
        AttachmentRender)
        ensures
            render@ == attachment_render(*attachment, *metadata, !self.config.options.no_lazy),
    {
        if attachment.filename().is_none() {
            return AttachmentRender::MissingFilename;
        }
        match &attachment.substitute {
            Some(substitute) => substitute.duplicate(),
            None => embed_attachment(
                attachment,
                metadata,
                !self.config.options.no_lazy,
                &attachment.mime_type(),
                attachment.file_size().as_str(),
            ),
        }
    }

    /// Render a sticker, with what is known of where it comes from.
    pub fn format_sticker(&self, sticker: &Attachment) -> (markup: String)
        ensures
            markup@ == sticker_markup(*sticker, !self.config.options.no_lazy),
    {
        let metadata = AttachmentMeta { transcription: None };
        match self.format_attachment(sticker, &metadata) {
            AttachmentRender::Embedded(embed) => {
                let mut markup = embed;
                if let Some(decoration) = &sticker.decoration {
                    markup.append(decoration_text(decoration).as_str());
                }
                markup
            },
            AttachmentRender::MissingFilename => String::new(),
            AttachmentRender::NamedFile(name) => sanitize_html(name.as_str()),
        }
    }
}

} // verus!
