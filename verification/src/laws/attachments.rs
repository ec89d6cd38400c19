//! Attachments and stickers.
use vstd::prelude::*;

use crate::attachments::{
    file_size_of, Attachment, AttachmentMeta, AttachmentRenderView, StickerDecoration,
};
use crate::escape::escaped;
use crate::html::attachment::{
    attachment_render, audio_markup, decoration_markup, image_markup, sticker_markup,
};
use crate::laws::order::{
    in_order, lemma_both, lemma_enclosed_segment, lemma_gap, lemma_itself,
    lemma_joined_segment, lemma_nothing, lemma_segment, lemma_within,
};

verus! {

/// Whether the file of an attachment is part of the export.
pub open spec fn is_exported(attachment: Attachment) -> bool {
    attachment.substitute is None && attachment.display_name() is Some
}

/// A file to download is linked to where the export keeps it, whatever it is
/// called, and is called by its name, whatever its path is; its size stands
/// behind the name.
pub proof fn law_download_links_to_the_file(
    attachment: Attachment,
    metadata: AttachmentMeta,
    lazy: bool,
)
    requires
        is_exported(attachment),
        attachment.media_type() is Text || attachment.media_type() is Application,
    ensures
        attachment_render(attachment, metadata, lazy) matches AttachmentRenderView::Embedded(
            markup,
        ) && ("<a href=\""@ + escaped(attachment.embed_path@)).is_prefix_of(markup)
            && in_order(
            markup,
            seq![
                "<a href=\""@ + escaped(attachment.embed_path@),
                "\">Click to download "@ + escaped(attachment.display_name()->0),
                " ("@ + escaped(file_size_of(attachment.total_bytes)) + ")</a>"@,
            ],
        ),
{
    let path = escaped(attachment.embed_path@);
    let name = escaped(attachment.display_name()->0);
    let size = escaped(file_size_of(attachment.total_bytes));
    let t0 = "<a href=\""@ + path;
    lemma_nothing(Seq::empty());
    lemma_segment(Seq::empty(), t0, Seq::empty());
    assert(Seq::<char>::empty() + t0 =~= t0);
    let s0 = Seq::<Seq<char>>::empty().push(t0);
    lemma_joined_segment(t0, "\">Click to download "@, name, s0);
    let t1 = t0 + "\">Click to download "@ + name;
    let s1 = s0.push("\">Click to download "@ + name);
    lemma_enclosed_segment(t1, " ("@, size, ")</a>"@, s1);
    let t2 = t1 + " ("@ + size + ")</a>"@;
    let s2 = s1.push(" ("@ + size + ")</a>"@);
    assert(s2 =~= seq!["<a href=\""@ + path, "\">Click to download "@ + name, " ("@ + size + ")</a>"@]);
}

/// A folder is called by its name, with its size, and linked to where the export
/// keeps it.
pub proof fn law_folder_links_to_the_folder(
    attachment: Attachment,
    metadata: AttachmentMeta,
    lazy: bool,
)
    requires
        is_exported(attachment),
        attachment.media_type() is Unknown,
        attachment.is_folder,
    ensures
        attachment_render(attachment, metadata, lazy) matches AttachmentRenderView::Embedded(
            markup,
        ) && ("<p>\n    Folder: <i>"@ + escaped(attachment.display_name()->0)).is_prefix_of(markup)
            && in_order(
            markup,
            seq![
                "<p>\n    Folder: <i>"@ + escaped(attachment.display_name()->0),
                "</i> ("@ + escaped(file_size_of(attachment.total_bytes)),
                ")\n    <a href=\""@ + escaped(attachment.embed_path@) + "\">Click to open</a>\n</p>"@,
            ],
        ),
{
    let path = escaped(attachment.embed_path@);
    let name = escaped(attachment.display_name()->0);
    let size = escaped(file_size_of(attachment.total_bytes));
    let t0 = "<p>\n    Folder: <i>"@ + name;
    lemma_nothing(Seq::empty());
    lemma_segment(Seq::empty(), t0, Seq::empty());
    assert(Seq::<char>::empty() + t0 =~= t0);
    let s0 = Seq::<Seq<char>>::empty().push(t0);
    lemma_joined_segment(t0, "</i> ("@, size, s0);
    let t1 = t0 + "</i> ("@ + size;
    let s1 = s0.push("</i> ("@ + size);
    lemma_enclosed_segment(t1, ")\n    <a href=\""@, path, "\">Click to open</a>\n</p>"@, s1);
    let t2 = t1 + ")\n    <a href=\""@ + path + "\">Click to open</a>\n</p>"@;
    let s2 = s1.push(")\n    <a href=\""@ + path + "\">Click to open</a>\n</p>"@);
    assert(s2 =~= seq!["<p>\n    Folder: <i>"@ + name, "</i> ("@ + size, ")\n    <a href=\""@ + path + "\">Click to open</a>\n</p>"@]);
}

/// A file of which nothing is known is called by its path, and linked to it,
/// with its size.
pub proof fn law_unknown_file_links_to_the_file(
    attachment: Attachment,
    metadata: AttachmentMeta,
    lazy: bool,
)
    requires
        is_exported(attachment),
        attachment.media_type() is Unknown,
        !attachment.is_folder,
    ensures
        attachment_render(attachment, metadata, lazy) matches AttachmentRenderView::Embedded(
            markup,
        ) && ("<p>Unknown attachment type: "@ + escaped(attachment.embed_path@)).is_prefix_of(markup)
            && in_order(
            markup,
            seq![
                "<p>Unknown attachment type: "@ + escaped(attachment.embed_path@),
                "</p>\n<a href=\""@ + escaped(attachment.embed_path@),
                "\">Download ("@ + escaped(file_size_of(attachment.total_bytes)) + ")</a>"@,
            ],
        ),
{
    let path = escaped(attachment.embed_path@);
    let size = escaped(file_size_of(attachment.total_bytes));
    let t0 = "<p>Unknown attachment type: "@ + path;
    lemma_nothing(Seq::empty());
    lemma_segment(Seq::empty(), t0, Seq::empty());
    assert(Seq::<char>::empty() + t0 =~= t0);
    let s0 = Seq::<Seq<char>>::empty().push(t0);
    lemma_joined_segment(t0, "</p>\n<a href=\""@, path, s0);
    let t1 = t0 + "</p>\n<a href=\""@ + path;
    let s1 = s0.push("</p>\n<a href=\""@ + path);
    lemma_enclosed_segment(t1, "\">Download ("@, size, ")</a>"@, s1);
    let t2 = t1 + "\">Download ("@ + size + ")</a>"@;
    let s2 = s1.push("\">Download ("@ + size + ")</a>"@);
    assert(s2 =~= seq!["<p>Unknown attachment type: "@ + path, "</p>\n<a href=\""@ + path, "\">Download ("@ + size + ")</a>"@]);
}

/// A file that no browser shows is called by its whole media type and its path.
pub proof fn law_other_file_names_type_and_path(
    attachment: Attachment,
    metadata: AttachmentMeta,
    lazy: bool,
)
    requires
        is_exported(attachment),
        attachment.media_type() is Other,
    ensures
        attachment_render(attachment, metadata, lazy) matches AttachmentRenderView::Embedded(
            markup,
        ) && ("<p>Unable to embed "@ + escaped(attachment.media_type()->Other_0)).is_prefix_of(markup)
            && in_order(
            markup,
            seq![
                "<p>Unable to embed "@ + escaped(attachment.media_type()->Other_0),
                " attachments: "@ + escaped(attachment.embed_path@) + "</p>"@,
            ],
        ),
{
    let path = escaped(attachment.embed_path@);
    let subtype = escaped(attachment.media_type()->Other_0);
    let t0 = "<p>Unable to embed "@ + subtype;
    lemma_nothing(Seq::empty());
    lemma_segment(Seq::empty(), t0, Seq::empty());
    assert(Seq::<char>::empty() + t0 =~= t0);
    let s0 = Seq::<Seq<char>>::empty().push(t0);
    lemma_enclosed_segment(t0, " attachments: "@, path, "</p>"@, s0);
    let t1 = t0 + " attachments: "@ + path + "</p>"@;
    let s1 = s0.push(" attachments: "@ + path + "</p>"@);
    assert(s1 =~= seq!["<p>Unable to embed "@ + subtype, " attachments: "@ + path + "</p>"@]);
}

/// A video is played from where the export keeps it, with and without its media
/// type.
pub proof fn law_video_plays_the_file(
    attachment: Attachment,
    metadata: AttachmentMeta,
    lazy: bool,
)
    requires
        is_exported(attachment),
        attachment.media_type() is Video,
    ensures
        attachment_render(attachment, metadata, lazy) matches AttachmentRenderView::Embedded(
            markup,
        ) && ("<video controls> <source src=\""@ + escaped(attachment.embed_path@)).is_prefix_of(markup)
            && in_order(
            markup,
            seq![
                "<video controls> <source src=\""@ + escaped(attachment.embed_path@),
                "\" type=\""@ + escaped(attachment.media_type()->Video_0),
                "\"> <source src=\""@ + escaped(attachment.embed_path@) + "\"> </video>"@,
            ],
        ),
{
    let path = escaped(attachment.embed_path@);
    let subtype = escaped(attachment.media_type()->Video_0);
    let t0 = "<video controls> <source src=\""@ + path;
    lemma_nothing(Seq::empty());
    lemma_segment(Seq::empty(), t0, Seq::empty());
    assert(Seq::<char>::empty() + t0 =~= t0);
    let s0 = Seq::<Seq<char>>::empty().push(t0);
    lemma_joined_segment(t0, "\" type=\""@, subtype, s0);
    let t1 = t0 + "\" type=\""@ + subtype;
    let s1 = s0.push("\" type=\""@ + subtype);
    lemma_enclosed_segment(t1, "\"> <source src=\""@, path, "\"> </video>"@, s1);
    let t2 = t1 + "\"> <source src=\""@ + path + "\"> </video>"@;
    let s2 = s1.push("\"> <source src=\""@ + path + "\"> </video>"@);
    assert(s2 =~= seq!["<video controls> <source src=\""@ + path, "\" type=\""@ + subtype, "\"> <source src=\""@ + path + "\"> </video>"@]);
}

/// An audio message without a transcription is played from where the export
/// keeps it, under its media type.
pub proof fn law_audio_plays_the_file(
    attachment: Attachment,
    metadata: AttachmentMeta,
    lazy: bool,
)
    requires
        is_exported(attachment),
        attachment.media_type() is Audio,
        metadata.transcription is None,
    ensures
        attachment_render(attachment, metadata, lazy) matches AttachmentRenderView::Embedded(
            markup,
        ) && ("<audio controls src=\""@ + escaped(attachment.embed_path@)).is_prefix_of(markup)
            && in_order(
            markup,
            seq![
                "<audio controls src=\""@ + escaped(attachment.embed_path@),
                "\" type=\""@ + escaped(attachment.media_type()->Audio_0) + "\"> </audio>"@,
            ],
        ),
{
    let path = escaped(attachment.embed_path@);
    let subtype = escaped(attachment.media_type()->Audio_0);
    let t0 = "<audio controls src=\""@ + path;
    lemma_nothing(Seq::empty());
    lemma_segment(Seq::empty(), t0, Seq::empty());
    assert(Seq::<char>::empty() + t0 =~= t0);
    let s0 = Seq::<Seq<char>>::empty().push(t0);
    lemma_enclosed_segment(t0, "\" type=\""@, subtype, "\"> </audio>"@, s0);
    let t1 = t0 + "\" type=\""@ + subtype + "\"> </audio>"@;
    let s1 = s0.push("\" type=\""@ + subtype + "\"> </audio>"@);
    assert(s1 =~= seq!["<audio controls src=\""@ + path, "\" type=\""@ + subtype + "\"> </audio>"@]);
}

/// A transcribed audio message is played from where the export keeps it, and the
/// transcription stands below.
pub proof fn law_transcription_stands_below_the_audio(
    attachment: Attachment,
    metadata: AttachmentMeta,
    lazy: bool,
)
    requires
        is_exported(attachment),
        attachment.media_type() is Audio,
        metadata.transcription is Some,
    ensures
        attachment_render(attachment, metadata, lazy) matches AttachmentRenderView::Embedded(
            markup,
        ) && in_order(
            markup,
            seq![
                "<audio controls src=\""@ + escaped(attachment.embed_path@),
                "\" type=\""@ + escaped(attachment.media_type()->Audio_0) + "\"> </audio>"@,
                escaped(metadata.transcription->0@),
            ],
        ),
{
    let path = escaped(attachment.embed_path@);
    let subtype = escaped(attachment.media_type()->Audio_0);
    let t0 = "<audio controls src=\""@ + path;
    lemma_nothing(Seq::empty());
    lemma_segment(Seq::empty(), t0, Seq::empty());
    assert(Seq::<char>::empty() + t0 =~= t0);
    let s0 = Seq::<Seq<char>>::empty().push(t0);
    lemma_enclosed_segment(t0, "\" type=\""@, subtype, "\"> </audio>"@, s0);
    let t1 = t0 + "\" type=\""@ + subtype + "\"> </audio>"@;
    let s1 = s0.push("\" type=\""@ + subtype + "\"> </audio>"@);
    let audio = audio_markup(attachment.embed_path@, attachment.media_type()->Audio_0);
    assert(audio == t1);
    lemma_within("<div>\n    "@, audio, Seq::empty(), s1);
    assert("<div>\n    "@ + audio + Seq::<char>::empty() =~= "<div>\n    "@ + audio);
    let u0 = "<div>\n    "@ + audio;
    let v0 = s1;
    lemma_gap(u0, "\n</div>\n<hr>\n<span class=\"transcription\">Transcription: "@, v0);
    let u1 = u0 + "\n</div>\n<hr>\n<span class=\"transcription\">Transcription: "@;
    lemma_segment(u1, escaped(metadata.transcription->0@), v0);
    let u2 = u1 + escaped(metadata.transcription->0@);
    let v1 = v0.push(escaped(metadata.transcription->0@));
    lemma_gap(u2, "</span>"@, v1);
    let u3 = u2 + "</span>"@;
    assert(v1 =~= seq!["<audio controls src=\""@ + path, "\" type=\""@ + subtype + "\"> </audio>"@, escaped(metadata.transcription->0@)]);
}

/// An image is shown from where the export keeps it. Whether it is lazy says only
/// when it is loaded.
pub proof fn law_image_shows_the_file(
    attachment: Attachment,
    metadata: AttachmentMeta,
    lazy: bool,
)
    requires
        is_exported(attachment),
        attachment.media_type() is Image,
    ensures
        attachment_render(attachment, metadata, lazy) matches AttachmentRenderView::Embedded(
            markup,
        ) && ("<img src=\""@ + escaped(attachment.embed_path@)).is_prefix_of(markup) && (if lazy {
            "\" loading=\"lazy\">"@.is_suffix_of(markup)
        } else {
            "\">"@.is_suffix_of(markup) && markup.len() == ("<img src=\""@ + escaped(
                attachment.embed_path@,
            )).len() + 2
        }),
{
    reveal_strlit("\">");
    let markup = image_markup(attachment.embed_path@, lazy);
    let source = "<img src=\""@ + escaped(attachment.embed_path@);
    let end = if lazy {
        "\" loading=\"lazy\">"@
    } else {
        "\">"@
    };
    assert(markup == source + end);
    assert(markup.subrange(0, source.len() as int) =~= source);
    assert(markup.subrange(markup.len() - end.len(), markup.len() as int) =~= end);
}

/// Only images depend on whether they are lazy, and only audio messages on
/// whether they are transcribed.
pub proof fn law_attachments_depend_on_what_they_show(
    attachment: Attachment,
    a: AttachmentMeta,
    b: AttachmentMeta,
    lazy: bool,
)
    ensures
        !(attachment.media_type() is Audio) ==> attachment_render(attachment, a, lazy)
            == attachment_render(attachment, b, lazy),
        !(attachment.media_type() is Image) ==> attachment_render(attachment, a, lazy)
            == attachment_render(attachment, a, !lazy),
{
}

/// An attachment without any name is missing; one with a name whose file could
/// not be had is shown as what stands for it.
pub proof fn law_attachments_without_a_file(
    attachment: Attachment,
    metadata: AttachmentMeta,
    lazy: bool,
)
    ensures
        attachment.transfer_name is None && attachment.filename is None ==> attachment_render(
            attachment,
            metadata,
            lazy,
        ) is MissingFilename,
        attachment.transfer_name is Some && attachment.substitute is Some ==> attachment_render(
            attachment,
            metadata,
            lazy,
        ) == attachment.substitute->0@,
        attachment.filename is Some && attachment.substitute is Some ==> attachment_render(
            attachment,
            metadata,
            lazy,
        ) == attachment.substitute->0@,
        is_exported(attachment) ==> attachment_render(attachment, metadata, lazy) is Embedded,
{
}

/// A file is called by the name it was sent under, and by its recorded path only
/// where it has no such name.
pub proof fn law_name_of_an_attachment(attachment: Attachment)
    ensures
        match (attachment.transfer_name, attachment.filename) {
            (Some(sent), _) => attachment.display_name() == Some(sent@),
            (None, Some(path)) => attachment.display_name() == Some(path@),
            (None, None) => attachment.display_name() is None,
        },
{
}

/// A sticker is shown as its attachment is, and what is known of where it comes
/// from stands below and nothing more.
pub proof fn law_sticker_is_its_attachment(sticker: Attachment, metadata: AttachmentMeta, lazy: bool)
    requires
        metadata.transcription is None,
    ensures
        match attachment_render(sticker, metadata, lazy) {
            AttachmentRenderView::Embedded(image) => image.is_prefix_of(
                sticker_markup(sticker, lazy),
            ) && (sticker.decoration is None ==> sticker_markup(sticker, lazy) == image),
            AttachmentRenderView::MissingFilename => sticker_markup(sticker, lazy).len() == 0,
            AttachmentRenderView::NamedFile(name) => sticker_markup(sticker, lazy) == escaped(
                name,
            ),
        },
{
    let none = AttachmentMeta { transcription: None };
    assert(attachment_render(sticker, metadata, lazy) == attachment_render(sticker, none, lazy));
    if let AttachmentRenderView::Embedded(image) = attachment_render(sticker, metadata, lazy) {
        assert(sticker_markup(sticker, lazy).subrange(0, image.len() as int) =~= image);
    }
}

/// What is known of where a sticker comes from is told behind its image.
pub proof fn law_sticker_tells_where_it_comes_from(sticker: Attachment, lazy: bool)
    requires
        sticker.decoration is Some,
        attachment_render(sticker, AttachmentMeta { transcription: None }, lazy) is Embedded,
    ensures
        ({
            let image = attachment_render(
                sticker,
                AttachmentMeta { transcription: None },
                lazy,
            )->Embedded_0;
            match sticker.decoration->0 {
                StickerDecoration::GenmojiPrompt(prompt) => in_order(
                    sticker_markup(sticker, lazy),
                    seq![
                        image,
                        "\n<div class=\"genmoji_prompt\">Genmoji prompt: "@ + escaped(prompt@)
                            + "</div>"@,
                    ],
                ),
                StickerDecoration::Memoji => true,
                StickerDecoration::Effect(effect) => in_order(
                    sticker_markup(sticker, lazy),
                    seq![
                        image,
                        "\n<div class=\"sticker_effect\">Sent with "@ + escaped(effect.label())
                            + " effect</div>"@,
                    ],
                ),
                StickerDecoration::AppName(name) => in_order(
                    sticker_markup(sticker, lazy),
                    seq![
                        image,
                        "\n<div class=\"sticker_name\">App: "@ + escaped(name@) + "</div>"@,
                    ],
                ),
            }
        }),
{
    let image = attachment_render(
        sticker,
        AttachmentMeta { transcription: None },
        lazy,
    )->Embedded_0;
    let decoration = decoration_markup(sticker.decoration->0);
    lemma_itself(image);
    lemma_itself(decoration);
    lemma_both(image, seq![image], decoration, seq![decoration]);
    assert(seq![image] + seq![decoration] =~= seq![image, decoration]);
}

} // verus!
