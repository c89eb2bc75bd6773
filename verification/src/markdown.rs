//! Note text as HTML, for display.

use vstd::prelude::*;

verus! {

/// The HTML that pulldown-cmark writes for a markdown text when its parser
/// runs with no option enabled.
pub uninterp spec fn markdown_html(text: Seq<char>) -> Seq<char>;

/// Runs `pulldown_cmark::Parser::new` over `text` and hands the events to
/// `pulldown_cmark::html::push_html`, which appends to a string that starts
/// empty. Believed, not proved: the string that comes back depends on the
/// text alone. Nothing is claimed about what the HTML looks like.
#[verifier::external_body]
pub(crate) fn render_markdown(text: &str) -> (html: String)
    ensures
        html@ == markdown_html(text@),
{
    let parser = pulldown_cmark::Parser::new(text);
    let mut html_output = String::new();
    pulldown_cmark::html::push_html(&mut html_output, parser);
    html_output
}

} // verus!
