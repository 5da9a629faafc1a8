//! Markdown to HTML.

use pulldown_cmark::{html, Options, Parser};
use vstd::prelude::*;

verus! {

/// The HTML that `pulldown_cmark` writes for a Markdown text, with the
/// extensions for tables, strikethrough and task lists on or off.
pub uninterp spec fn html_of_markdown(
    text: Seq<char>,
    tables: bool,
    strikethrough: bool,
    tasklists: bool,
) -> Seq<char>;

/// Calls `pulldown_cmark::Parser::new_ext` and `pulldown_cmark::html::push_html`,
/// which write the HTML of a Markdown text. What they write is left to a name.
#[verifier::external_body]
fn push_html(text: &str, tables: bool, strikethrough: bool, tasklists: bool) -> (res: String)
    ensures
        res@ == html_of_markdown(text@, tables, strikethrough, tasklists),
{
    let mut options = Options::empty();
    options.set(Options::ENABLE_TABLES, tables);
    options.set(Options::ENABLE_STRIKETHROUGH, strikethrough);
    options.set(Options::ENABLE_TASKLISTS, tasklists);
    let mut out = String::new();
    html::push_html(&mut out, Parser::new_ext(text, options));
    out
}

/// Render Markdown to HTML, with tables, strikethrough and task lists.
pub fn render(markdown: &str) -> (res: String)
    ensures
        res@ == html_of_markdown(markdown@, true, true, true),
{
    push_html(markdown, true, true, true)
}

} // verus!
