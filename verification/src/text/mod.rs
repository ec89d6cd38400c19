//! Text helpers shared by the renderers.
use vstd::prelude::*;

pub mod decimal;
pub mod seq_lemmas;
pub mod slices;
pub mod whitespace;

verus! {

/// The characters of a text that may be absent.
pub open spec fn optional_text(text: Option<String>) -> Option<Seq<char>> {
    match text {
        Some(text) => Some(text@),
        None => None,
    }
}

/// What stands before the first slash: the whole text where there is none.
pub open spec fn before_slash(text: Seq<char>) -> Seq<char>
    decreases text.len(),
{
    if text.len() == 0 || text[0] == '/' {
        Seq::empty()
    } else {
        seq![text[0]] + before_slash(text.drop_first())
    }
}

} // verus!
