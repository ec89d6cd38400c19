//! What the export driver asks of the HTML exporter.
use vstd::prelude::*;

use crate::config::Config;
use crate::html::{ExportState, HTML};

verus! {

/// The format's name, which is the extension of its files too.
pub const LABEL: &'static str = "html";

/// How much room, in bytes, a buffer for one message starts with.
pub const BUFFER_CAPACITY: usize = 2048;

/// How a page starts.
pub const HEADER: &'static str = "<html>\n<head>\n<meta charset=\"UTF-8\">\n<meta name=\"viewport\" content=\"width=device-width, initial-scale=1\">";

/// How a page ends.
pub const FOOTER: &'static str = "</body></html>";

/// What stands before the first message of a page. The page carries the style
/// sheet, and links to one of the user's own, which wins.
pub open spec fn headers_markup(style: Seq<char>) -> Seq<char> {
    HEADER@ + "<style>\n"@ + style + "\n</style>"@ + "<link rel=\"stylesheet\" href=\"style.css\">"@
        + "\n</head>\n<body>\n"@
}

impl<'a> HTML<'a> {
    pub fn config(&self) -> (config: &'a Config)
        ensures
            config == self.config,
    {
        self.config
    }

    pub fn state(&self) -> (state: &ExportState)
        ensures
            state == self.state,
    {
        &self.state
    }

    pub fn state_mut(&mut self) -> (state: &mut ExportState)
        ensures
            *state == old(self).state,
            final(self).state == *final(state),
            final(self).config == old(self).config,
    {
        &mut self.state
    }

    /// What to write before the first message of a page.
    pub fn write_headers(style: &str) -> (markup: String)
        ensures
            markup@ == headers_markup(style@),
    {
        let mut markup = HEADER.to_string();
        markup.append("<style>\n");
        markup.append(style);
        markup.append("\n</style>");
        markup.append("<link rel=\"stylesheet\" href=\"style.css\">");
        markup.append("\n</head>\n<body>\n");
        markup
    }

    /// What to write before the first message of a file.
    pub fn write_file_header(style: &str) -> (markup: String)
        ensures
            markup@ == headers_markup(style@),
    {
        HTML::write_headers(style)
    }

    /// What to write behind the last message of a file.
    pub fn write_file_footer() -> (markup: &'static str)
        ensures
            markup@ == "</body></html>"@,
    {
        FOOTER
    }

    /// What to tell the user before the footers are written.
    pub fn footer_notice() -> (notice: Option<&'static str>)
        ensures
            notice matches Some(text) && text@ == "Writing HTML footers..."@,
    {
        Some("Writing HTML footers...")
    }
}

} // verus!
