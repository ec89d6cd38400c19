//! How each text effect looks in HTML.
use std::borrow::Cow;

use vstd::prelude::*;

use crate::escape::{escaped, sanitize_html};
use crate::html::HTML;
use crate::text::seq_lemmas::{lemma_take_all, lemma_take_step};
use crate::text_effects::{Animation, Style, TextEffect, Unit};

verus! {

/// A mention: bold text with the contact in its tooltip.
pub open spec fn mention_markup(text: Seq<char>, mentioned: Seq<char>) -> Seq<char> {
    "<span title=\""@ + escaped(mentioned) + "\"><b>"@ + text + "</b></span>"@
}

/// A link to `url`.
pub open spec fn link_markup(text: Seq<char>, url: Seq<char>) -> Seq<char> {
    "<a href=\""@ + escaped(url) + "\">"@ + text + "</a>"@
}

/// Underlined text.
pub open spec fn underlined_markup(text: Seq<char>) -> Seq<char> {
    "<u>"@ + text + "</u>"@
}

/// Text in one style.
pub open spec fn style_markup(text: Seq<char>, style: Style) -> Seq<char> {
    match style {
        Style::Bold => "<b>"@ + text + "</b>"@,
        Style::Italic => "<i>"@ + text + "</i>"@,
        Style::Strikethrough => "<s>"@ + text + "</s>"@,
        Style::Underline => underlined_markup(text),
    }
}

/// Text in several styles; the first is the innermost.
pub open spec fn styles_markup(text: Seq<char>, styles: Seq<Style>) -> Seq<char>
    decreases styles.len(),
{
    if styles.len() == 0 {
        text
    } else {
        style_markup(styles_markup(text, styles.drop_last()), styles.last())
    }
}

/// Animated text: the style sheet animates by class.
pub open spec fn animated_markup(text: Seq<char>, animation: Animation) -> Seq<char> {
    "<span class=\"animation"@ + animation.label() + "\">"@ + text + "</span>"@
}

/// Markup with one effect put round it.
pub open spec fn effect_markup(text: Seq<char>, effect: TextEffect) -> Seq<char> {
    match effect {
        TextEffect::Default => text,
        TextEffect::Mention(mentioned) => mention_markup(text, mentioned@),
        TextEffect::Link(url) => link_markup(text, url@),
        TextEffect::OTP => underlined_markup(text),
        TextEffect::Styles(styles) => styles_markup(text, styles@),
        TextEffect::Animated(animation) => animated_markup(text, animation),
        TextEffect::Conversion(_) => underlined_markup(text),
    }
}

fn underlined(text: &str) -> (markup: String)
    ensures
        markup@ == underlined_markup(text@),
{
    let mut markup = "<u>".to_string();
    markup.append(text);
    markup.append("</u>");
    markup
}

fn styled(text: &str, style: Style) -> (markup: String)
    ensures
        markup@ == style_markup(text@, style),
{
    match style {
        Style::Bold => {
            let mut markup = "<b>".to_string();
            markup.append(text);
            markup.append("</b>");
            markup
        },
        Style::Italic => {
            let mut markup = "<i>".to_string();
            markup.append(text);
            markup.append("</i>");
            markup
        },
        Style::Strikethrough => {
            let mut markup = "<s>".to_string();
            markup.append(text);
            markup.append("</s>");
            markup
        },
        Style::Underline => underlined(text),
    }
}

impl<'a> HTML<'a> {
    /// Put one effect round `text`, which is markup already. Plain text is
    /// handed back without copying it.
    pub fn format_effect<'t>(&self, text: &'t str, effect: &TextEffect) -> (markup: Cow<'t, str>)
        ensures
            markup@ == effect_markup(text@, *effect),
            markup is Borrowed <==> effect is Default,
    {
        match effect {
            TextEffect::Default => Cow::Borrowed(text),
            TextEffect::Mention(mentioned) => Cow::Owned(
                self.format_mention(text, mentioned.as_str()),
            ),
            TextEffect::Link(url) => Cow::Owned(self.format_link(text, url.as_str())),
            TextEffect::OTP => Cow::Owned(self.format_otp(text)),
            TextEffect::Styles(styles) => Cow::Owned(self.format_styles(text, styles.as_slice())),
            TextEffect::Animated(animation) => Cow::Owned(self.format_animated(text, animation)),
            TextEffect::Conversion(unit) => Cow::Owned(self.format_conversion(text, unit)),
        }
    }

    pub fn format_mention(&self, text: &str, mentioned: &str) -> (markup: String)
        ensures
            markup@ == mention_markup(text@, mentioned@),
    {
        let mut markup = "<span title=\"".to_string();
        markup.append(sanitize_html(mentioned).as_str());
        markup.append("\"><b>");
        markup.append(text);
        markup.append("</b></span>");
        markup
    }

    pub fn format_link(&self, text: &str, url: &str) -> (markup: String)
        ensures
            markup@ == link_markup(text@, url@),
    {
        let mut markup = "<a href=\"".to_string();
        markup.append(sanitize_html(url).as_str());
        markup.append("\">");
        markup.append(text);
        markup.append("</a>");
        markup
    }

    pub fn format_otp(&self, text: &str) -> (markup: String)
        ensures
            markup@ == underlined_markup(text@),
    {
        underlined(text)
    }

    /// Apply `styles` in order, each round what came before it.
    pub fn format_styles(&self, text: &str, styles: &[Style]) -> (markup: String)
        ensures
            markup@ == styles_markup(text@, styles@),
    {
        let mut markup = text.to_string();
        for i in 0..styles.len()
            invariant
                markup@ == styles_markup(text@, styles@.take(i as int)),
        {
            proof {
                lemma_take_step(styles@, i as int);
            }
            markup = styled(markup.as_str(), styles[i]);
        }
        proof {
            lemma_take_all(styles@);
        }
        markup
    }

    pub fn format_animated(&self, text: &str, animation: &Animation) -> (markup: String)
        ensures
            markup@ == animated_markup(text@, *animation),
    {
        let mut markup = "<span class=\"animation".to_string();
        markup.append(animation.label_text().as_str());
        markup.append("\">");
        markup.append(text);
        markup.append("</span>");
        markup
    }

    /// A convertible quantity is underlined, whatever it measures.
    pub fn format_conversion(&self, text: &str, _unit: &Unit) -> (markup: String)
        ensures
            markup@ == underlined_markup(text@),
    {
        underlined(text)
    }
}

} // verus!
