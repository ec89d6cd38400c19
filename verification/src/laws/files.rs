//! Files, and what is said of messages that are not understood.
use vstd::prelude::*;

use crate::html::part::app_error_text;
use crate::html::writer::{headers_markup, HEADER};
use crate::laws::order::{in_order, lemma_gap, lemma_nothing, lemma_regroup, lemma_segment};

verus! {

/// A page carries the style sheet as it is, and then the link to the user's own,
/// which wins where the two disagree.
pub proof fn law_page_carries_the_style_sheet(style: Seq<char>)
    ensures
        in_order(
            headers_markup(style),
            seq![
                "<style>\n"@ + style + "\n</style>"@,
                "<link rel=\"stylesheet\" href=\"style.css\">"@,
            ],
        ),
{
    let before = HEADER@;
    let sheet = "<style>\n"@ + style + "\n</style>"@;
    lemma_nothing(before);
    lemma_segment(before, sheet, Seq::empty());
    let segments = Seq::<Seq<char>>::empty().push(sheet);
    lemma_regroup(before, "<style>\n"@, style, "\n</style>"@);
    let t1 = before + "<style>\n"@ + style + "\n</style>"@;
    let link = "<link rel=\"stylesheet\" href=\"style.css\">"@;
    lemma_segment(t1, link, segments);
    lemma_gap(t1 + link, "\n</head>\n<body>\n"@, segments.push(link));
    assert(segments.push(link) =~= seq![sheet, link]);
}

/// What is said of an app's message that is not understood names the sort of
/// message, and then why.
pub proof fn law_app_error_names_sort_and_reason(variant: Seq<char>, why: Seq<char>)
    ensures
        in_order(app_error_text(variant, why), seq![variant, why]),
{
    let t0 = "Unable to format "@;
    lemma_nothing(t0);
    lemma_segment(t0, variant, Seq::empty());
    let segments = Seq::<Seq<char>>::empty().push(variant);
    lemma_gap(t0 + variant, " message: "@, segments);
    lemma_segment(t0 + variant + " message: "@, why, segments);
    assert(segments.push(why) =~= seq![variant, why]);
}

} // verus!
