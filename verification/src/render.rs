//! Markdown, rendered to HTML by the `markdown` crate.
//!
//! Rendering is best effort: where the renderer gives up on a source, the
//! source itself is used in place of the HTML, so that a page is built in
//! any case.

use markdown::message::Message;
use vstd::prelude::*;

verus! {

/// `markdown::message::Message`, the report of a failed rendering. It is
/// never looked into.
#[verifier::external_type_specification]
#[verifier::external_body]
pub struct ExMessage(markdown::message::Message);

/// The HTML that `markdown::to_html` makes of a CommonMark source.
pub uninterp spec fn commonmark_html(source: Seq<char>) -> Seq<char>;

/// The HTML that `markdown::to_html_with_options` makes of a source under
/// `Options::gfm()`, or `None` where it reports a failure.
pub uninterp spec fn gfm_html(source: Seq<char>) -> Option<Seq<char>>;

/// `markdown::to_html` renders CommonMark. What it returns depends on the
/// source alone; the contract gives it its name.
pub assume_specification[ markdown::to_html ](value: &str) -> (html: String)
    ensures
        html@ == commonmark_html(value@),
;

/// Renders GitHub Flavored Markdown: `markdown::to_html_with_options` under
/// `Options::gfm()`. What it returns depends on the source alone; the
/// contract gives it its name.
#[verifier::external_body]
fn to_gfm_html(source: &str) -> (outcome: Result<String, Message>)
    ensures
        match outcome {
            Ok(html) => gfm_html(source@) == Some(html@),
            Err(_) => gfm_html(source@) is None,
        },
{
    markdown::to_html_with_options(source, &markdown::Options::gfm())
}

/// What is put on the page for a Markdown source: its HTML, or the source
/// as it is where the renderer has failed.
pub open spec fn rendered(source: Seq<char>, gfm: bool) -> Seq<char> {
    if gfm {
        match gfm_html(source) {
            Some(html) => html,
            None => source,
        }
    } else {
        commonmark_html(source)
    }
}

/// The HTML of a rendering that went well, the source of one that did not.
pub fn html_or_source(outcome: Result<String, Message>, source: &str) -> (text: String)
    ensures
        text@ == match outcome {
            Ok(html) => html@,
            Err(_) => source@,
        },
{
    match outcome {
        Ok(html) => html,
        Err(_) => String::from_str(source),
    }
}

/// Renders a Markdown source to HTML, as GitHub Flavored Markdown where
/// `gfm` is set and as CommonMark where it is not.
pub fn render(source: &str, gfm: bool) -> (html: String)
    ensures
        html@ == rendered(source@, gfm),
{
    if gfm {
        html_or_source(to_gfm_html(source), source)
    } else {
        markdown::to_html(source)
    }
}

} // verus!
