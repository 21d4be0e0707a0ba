//! The page and the operations that fill it.

use crate::conditional::{
    directive_free, holds_opening, pattern_compiles, resolved, DirectiveMatcher,
    DIRECTIVE_PATTERN,
};
use crate::error::LyError;
use crate::placeholder::{fill, substitute};
use crate::render::{render, rendered};
use vstd::prelude::*;

verus! {

/// A page under construction: its text, usually HTML with placeholders and
/// directives in it. Each operation takes the page and returns the next one.
pub struct LyWebpage {
    /// The text of the page.
    pub contents: String,
}

impl View for LyWebpage {
    type V = Seq<char>;

    open spec fn view(&self) -> Seq<char> {
        self.contents@
    }
}

impl LyWebpage {
    /// A page that holds `s` as it is.
    pub fn from_str(s: &str) -> (page: Self)
        ensures
            page@ == s@,
    {
        LyWebpage { contents: String::from_str(s) }
    }

    /// Replaces every `[[key]]` on the page by `contents`. The search runs
    /// once from left to right and does not look into what it has inserted.
    pub fn fill_with_str(self, key: &str, contents: &str) -> (page: Self)
        ensures
            page@ == substitute(self@, key@, contents@),
    {
        LyWebpage { contents: fill(self.contents.as_str(), key, contents) }
    }

    /// Replaces every `[[key]]` on the page by the HTML of a Markdown
    /// source: GitHub Flavored Markdown where `gfm` is set, CommonMark where
    /// it is not. A source that cannot be rendered is inserted as it is.
    pub fn fill_from_md_str(self, key: &str, md: &str, gfm: bool) -> (page: Self)
        ensures
            page@ == substitute(self@, key@, rendered(md@, gfm)),
    {
        let html = render(md, gfm);
        self.fill_with_str(key, html.as_str())
    }

    /// Resolves the directives `[[IF path ... ELSE ...]]` of the page for
    /// the page at `path`, with a matcher made before.
    pub fn resolve_ifs_with(self, matcher: &DirectiveMatcher, path: &str) -> (page: Result<
        Self,
        LyError,
    >)
        ensures
            match page {
                Ok(p) => resolved(self@, path@) == Some(p@),
                Err(e) => e == LyError::TemplatingError && resolved(self@, path@) is None,
            },
    {
        match matcher.resolve(self.contents.as_str(), path) {
            Ok(contents) => Ok(LyWebpage { contents }),
            Err(e) => Err(e),
        }
    }

    /// Resolves the directives `[[IF path ... ELSE ...]]` of the page for
    /// the page at `path`. A page without `[[` is handed back as it is.
    /// For any other the matcher is compiled for this one call; where that
    /// fails, so does the call.
    pub fn resolve_ifs(self, path: &str) -> (page: Result<Self, LyError>)
        ensures
            page is Ok <==> resolved(self@, path@) is Some && (directive_free(self@)
                || pattern_compiles(DIRECTIVE_PATTERN@)),
            match page {
                Ok(p) => resolved(self@, path@) == Some(p@),
                Err(e) => e == LyError::TemplatingError,
            },
    {
        if !holds_opening(self.contents.as_str()) {
            return Ok(self);
        }
        match DirectiveMatcher::new() {
            Ok(matcher) => match matcher.walk(self.contents.as_str(), path) {
                Ok(contents) => Ok(LyWebpage { contents }),
                Err(e) => Err(e),
            },
            Err(e) => Err(e),
        }
    }
}

} // verus!
