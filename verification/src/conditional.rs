//! Conditional directives of the form `[[IF path ... ELSE ...]]`.
//!
//! A directive names a path and holds two branches. When a page is resolved
//! for a path, each directive gives way to its first branch where it names
//! that path, and to its second branch where it names another. The text
//! between directives is kept as it is, and so is bracketed text that is no
//! directive, such as one without `ELSE` or without `]]`.
//!
//! Directives are found by a regular expression. Both branches are matched
//! lazily: the first ends before the first `ELSE` that is followed by white
//! space, the second before the first `]]`. A branch that holds one of these
//! itself is therefore cut short: this is a known limit of the grammar. The
//! white space that frames the first branch, behind the path and before
//! `ELSE`, is no part of it, nor is the white space behind `ELSE` part of the
//! second. Directives do not nest.
//!
//! Every directive begins with `[[`. A text without `[[` therefore holds
//! none: it is handed back as it is, and the regular expression is neither
//! compiled nor run for it.
//!
//! The regular expression reports where a directive and its parts lie. What
//! it reports is checked before the text is cut: a match that lacks a part,
//! or whose parts cannot be cut out of the text, ends the resolution with
//! [`LyError::TemplatingError`].

use crate::error::LyError;
use crate::placeholder::{contains, occurs};
use crate::text::{byte_len, cut, encloses, lemma_span_whole, same_text, span, span_fits};
use regex::Regex;
use vstd::prelude::*;

verus! {

/// The pattern of a directive: `[[`, `IF`, the path, the first branch,
/// `ELSE`, the second branch, `]]`. Its groups are the path and the two
/// branches. A dot stands for any character, a line break too.
pub const DIRECTIVE_PATTERN: &'static str =
    "(?s)\\[\\[\\s*IF\\s+(\\S+)\\s*(.*?)\\s*ELSE\\s+(.*?)\\]\\]";

/// `regex::Regex`, a compiled regular expression. It is handed on and never
/// looked into.
#[verifier::external_type_specification]
#[verifier::external_body]
pub struct ExRegex(regex::Regex);

/// `regex::Error`, the reason why a pattern was refused. It is never looked
/// into.
#[verifier::external_type_specification]
#[verifier::external_body]
pub struct ExRegexError(regex::Error);

/// The pattern that a regular expression was compiled from by `Regex::new`.
pub uninterp spec fn pattern_of(matcher: Regex) -> Seq<char>;

/// Whether `Regex::new` takes `pattern`: whether it is well formed and its
/// compiled form stays within the size that the default settings allow.
pub uninterp spec fn pattern_compiles(pattern: Seq<char>) -> bool;

/// What `Regex::captures_read_at` finds for a regular expression compiled
/// from `pattern`, in `haystack`, at or after the byte offset `start`: for
/// each group of the pattern, the whole match first, the byte offsets where
/// the group's text begins and ends, or `None` for a group that took no
/// part. `None` where nothing matches.
pub uninterp spec fn capture_search(pattern: Seq<char>, haystack: Seq<char>, start: int) -> Option<
    Seq<Option<(usize, usize)>>,
>;

/// `Regex::new` compiles a pattern with the default settings. Whether it
/// takes the pattern depends on the pattern alone; the regular expression
/// it returns is one for that pattern.
pub assume_specification[ Regex::new ](re: &str) -> (compiled: Result<Regex, regex::Error>)
    ensures
        compiled is Ok <==> pattern_compiles(re@),
        compiled matches Ok(matcher) ==> pattern_of(matcher) == re@,
;

/// Searches `haystack` from the byte offset `start` on with
/// `Regex::captures_read_at`, into capture locations made for the purpose by
/// `Regex::capture_locations`, and reads each of its `CaptureLocations::len`
/// groups with `CaptureLocations::get`. What is found depends on the
/// pattern, the haystack and the offset alone. The contract gives it its
/// name and says nothing of the offsets themselves.
#[verifier::external_body]
fn search_from(matcher: &Regex, haystack: &str, start: usize) -> (found: Option<
    Vec<Option<(usize, usize)>>,
>)
    requires
        span_fits(haystack@, start as int, byte_len(haystack@)),
    ensures
        match found {
            Some(groups) => capture_search(pattern_of(*matcher), haystack@, start as int) == Some(
                groups@,
            ),
            None => capture_search(pattern_of(*matcher), haystack@, start as int) is None,
        },
{
    let mut locs = matcher.capture_locations();
    match matcher.captures_read_at(&mut locs, haystack, start) {
        Some(_) => Some((0..locs.len()).map(|group| locs.get(group)).collect()),
        None => None,
    }
}

/// Where a matched directive and its parts lie in the text, in byte offsets.
#[derive(Debug, Clone, Copy)]
pub struct Directive {
    /// The directive from `[[` to `]]`.
    pub whole: (usize, usize),
    /// The path that the directive names.
    pub token: (usize, usize),
    /// The branch taken where the path is the one named.
    pub if_branch: (usize, usize),
    /// The branch taken for any other path.
    pub else_branch: (usize, usize),
}

impl Directive {
    /// The directive that the groups of a match describe, where none of them
    /// is missing.
    pub open spec fn from_groups(groups: Seq<Option<(usize, usize)>>) -> Option<Directive> {
        if groups.len() >= 4 && groups[0] is Some && groups[1] is Some && groups[2] is Some
            && groups[3] is Some {
            Some(
                Directive {
                    whole: groups[0]->0,
                    token: groups[1]->0,
                    if_branch: groups[2]->0,
                    else_branch: groups[3]->0,
                },
            )
        } else {
            None
        }
    }

    /// The directive can be cut out of `text` by a reader that stands at
    /// `cursor`: its parts enclose whole characters, it begins at or after
    /// the cursor, and it ends after the cursor.
    pub open spec fn fits(self, text: Seq<char>, cursor: int) -> bool {
        &&& span_fits(text, self.whole.0 as int, self.whole.1 as int)
        &&& span_fits(text, self.token.0 as int, self.token.1 as int)
        &&& span_fits(text, self.if_branch.0 as int, self.if_branch.1 as int)
        &&& span_fits(text, self.else_branch.0 as int, self.else_branch.1 as int)
        &&& span_fits(text, cursor, self.whole.0 as int)
        &&& cursor < self.whole.1
    }

    /// The path that the directive names.
    pub open spec fn named_path(self, text: Seq<char>) -> Seq<char> {
        span(text, self.token.0 as int, self.token.1 as int)
    }

    /// The second branch of the directive.
    pub open spec fn otherwise(self, text: Seq<char>) -> Seq<char> {
        span(text, self.else_branch.0 as int, self.else_branch.1 as int)
    }

    /// The branch that stands for the directive on the page for `path`.
    pub open spec fn branch(self, text: Seq<char>, path: Seq<char>) -> Seq<char> {
        if self.named_path(text) == path {
            span(text, self.if_branch.0 as int, self.if_branch.1 as int)
        } else {
            self.otherwise(text)
        }
    }

    /// What a reader at `cursor` writes for the directive: the text up to
    /// the directive, then the branch for `path`.
    pub open spec fn output(self, text: Seq<char>, cursor: int, path: Seq<char>) -> Seq<char> {
        span(text, cursor, self.whole.0 as int) + self.branch(text, path)
    }

    /// Takes the groups of a match for the parts of a directive. A match
    /// that lacks one of them is no directive.
    pub fn read(groups: &Vec<Option<(usize, usize)>>) -> (directive: Result<Directive, LyError>)
        ensures
            match directive {
                Ok(d) => Directive::from_groups(groups@) == Some(d),
                Err(e) => e == LyError::TemplatingError && Directive::from_groups(groups@) is None,
            },
    {
        if groups.len() < 4 {
            return Err(LyError::TemplatingError);
        }
        match (groups[0], groups[1], groups[2], groups[3]) {
            (Some(whole), Some(token), Some(if_branch), Some(else_branch)) => Ok(
                Directive { whole, token, if_branch, else_branch },
            ),
            _ => Err(LyError::TemplatingError),
        }
    }

    /// Appends to `out` what stands for the directive on the page for
    /// `path`, after the text between `cursor` and the directive, and
    /// returns the offset behind the directive. Where the directive cannot
    /// be cut out of the text, `out` is left as it was.
    pub fn emit(&self, text: &str, cursor: usize, path: &str, out: &mut String) -> (next: Result<
        usize,
        LyError,
    >)
        ensures
            match next {
                Ok(end) => {
                    &&& self.fits(text@, cursor as int)
                    &&& end == self.whole.1
                    &&& final(out)@ == old(out)@ + self.output(text@, cursor as int, path@)
                },
                Err(e) => {
                    &&& e == LyError::TemplatingError
                    &&& !self.fits(text@, cursor as int)
                    &&& final(out)@ == old(out)@
                },
            },
    {
        let fits = encloses(text, self.whole.0, self.whole.1) && encloses(
            text,
            self.token.0,
            self.token.1,
        ) && encloses(text, self.if_branch.0, self.if_branch.1) && encloses(
            text,
            self.else_branch.0,
            self.else_branch.1,
        ) && encloses(text, cursor, self.whole.0) && cursor < self.whole.1;
        if !fits {
            return Err(LyError::TemplatingError);
        }
        out.append(cut(text, cursor, self.whole.0));
        if same_text(path, cut(text, self.token.0, self.token.1)) {
            out.append(cut(text, self.if_branch.0, self.if_branch.1));
        } else {
            out.append(cut(text, self.else_branch.0, self.else_branch.1));
        }
        assert(out@ =~= old(out)@ + self.output(text@, cursor as int, path@));
        Ok(self.whole.1)
    }
}

/// What resolution for `path` makes of `text` from the byte offset `cursor`
/// on, with directives found by `pattern`: the text up to the next
/// directive, the branch that stands for it, and so on behind it; the rest
/// of the text where no directive follows. `None` where a match is met that
/// is no directive, or one that cannot be cut out of the text.
pub open spec fn resolution(
    pattern: Seq<char>,
    text: Seq<char>,
    path: Seq<char>,
    cursor: int,
) -> Option<Seq<char>>
    decreases byte_len(text) - cursor,
{
    match capture_search(pattern, text, cursor) {
        None => Some(span(text, cursor, byte_len(text))),
        Some(groups) => match Directive::from_groups(groups) {
            None => None,
            Some(d) => if d.fits(text, cursor) {
                match resolution(pattern, text, path, d.whole.1 as int) {
                    Some(rest) => Some(d.output(text, cursor, path) + rest),
                    None => None,
                }
            } else {
                None
            },
        },
    }
}

/// The two brackets that every directive begins with.
pub open spec fn opening() -> Seq<char> {
    seq!['[', '[']
}

/// `text` holds no `[[`, and so no directive.
pub open spec fn directive_free(text: Seq<char>) -> bool {
    !occurs(text, opening())
}

/// What resolution for `path` makes of the whole of `text`. A text without
/// `[[` is kept as it is and is not searched; any other is walked through
/// from its first byte.
pub open spec fn resolved(text: Seq<char>, path: Seq<char>) -> Option<Seq<char>> {
    if directive_free(text) {
        Some(text)
    } else {
        resolution(DIRECTIVE_PATTERN@, text, path, 0)
    }
}

/// Whether `text` holds `[[`, with which every directive begins.
pub fn holds_opening(text: &str) -> (found: bool)
    ensures
        found == !directive_free(text@),
{
    proof {
        reveal_strlit("[[");
        assert("[["@ =~= opening());
    }
    contains(text, "[[")
}

/// None of the directives that resolution meets in `text` from the byte
/// offset `cursor` on names `path`.
pub open spec fn names_nowhere(
    pattern: Seq<char>,
    text: Seq<char>,
    path: Seq<char>,
    cursor: int,
) -> bool
    decreases byte_len(text) - cursor,
{
    match capture_search(pattern, text, cursor) {
        None => true,
        Some(groups) => match Directive::from_groups(groups) {
            None => true,
            Some(d) => if d.fits(text, cursor) {
                d.named_path(text) != path && names_nowhere(pattern, text, path, d.whole.1 as int)
            } else {
                true
            },
        },
    }
}

/// No directive of `text` names `path`.
pub open spec fn path_unnamed(text: Seq<char>, path: Seq<char>) -> bool {
    directive_free(text) || names_nowhere(DIRECTIVE_PATTERN@, text, path, 0)
}

/// `text` from the byte offset `cursor` on, with the second branch in place
/// of each directive, whatever path it names.
pub open spec fn else_resolution(pattern: Seq<char>, text: Seq<char>, cursor: int) -> Option<
    Seq<char>,
>
    decreases byte_len(text) - cursor,
{
    match capture_search(pattern, text, cursor) {
        None => Some(span(text, cursor, byte_len(text))),
        Some(groups) => match Directive::from_groups(groups) {
            None => None,
            Some(d) => if d.fits(text, cursor) {
                match else_resolution(pattern, text, d.whole.1 as int) {
                    Some(rest) => Some(
                        span(text, cursor, d.whole.0 as int) + d.otherwise(text) + rest,
                    ),
                    None => None,
                }
            } else {
                None
            },
        },
    }
}

/// The whole of `text` with the second branch in place of each directive.
pub open spec fn resolved_otherwise(text: Seq<char>) -> Option<Seq<char>> {
    if directive_free(text) {
        Some(text)
    } else {
        else_resolution(DIRECTIVE_PATTERN@, text, 0)
    }
}

proof fn lemma_unnamed_takes_else(
    pattern: Seq<char>,
    text: Seq<char>,
    path: Seq<char>,
    cursor: int,
)
    requires
        names_nowhere(pattern, text, path, cursor),
    ensures
        resolution(pattern, text, path, cursor) == else_resolution(pattern, text, cursor),
    decreases byte_len(text) - cursor,
{
    if let Some(groups) = capture_search(pattern, text, cursor) {
        if let Some(d) = Directive::from_groups(groups) {
            if d.fits(text, cursor) {
                lemma_unnamed_takes_else(pattern, text, path, d.whole.1 as int);
            }
        }
    }
}

/// Resolution leaves a text without `[[` as it is, for every path, and so
/// does resolving what came out once more, for the same path or another.
pub proof fn lemma_directive_free_unchanged(text: Seq<char>, path: Seq<char>, again: Seq<char>)
    requires
        directive_free(text),
    ensures
        resolved(text, path) == Some(text),
        resolved(resolved(text, path)->0, again) == Some(text),
{
}

/// Resolution leaves a text in which the search finds nothing as it is,
/// for every path.
pub proof fn lemma_unmatched_text_unchanged(text: Seq<char>, path: Seq<char>)
    requires
        capture_search(DIRECTIVE_PATTERN@, text, 0) is None,
    ensures
        resolved(text, path) == Some(text),
{
    lemma_span_whole(text);
}

/// Where the search finds one directive in a text and nothing behind it,
/// the page is the text before the directive, the branch that stands for
/// it, and the text behind it.
pub proof fn lemma_single_directive(
    text: Seq<char>,
    path: Seq<char>,
    groups: Seq<Option<(usize, usize)>>,
    d: Directive,
)
    requires
        !directive_free(text),
        capture_search(DIRECTIVE_PATTERN@, text, 0) == Some(groups),
        Directive::from_groups(groups) == Some(d),
        d.fits(text, 0),
        capture_search(DIRECTIVE_PATTERN@, text, d.whole.1 as int) is None,
    ensures
        resolved(text, path) == Some(
            span(text, 0, d.whole.0 as int) + d.branch(text, path) + span(
                text,
                d.whole.1 as int,
                byte_len(text),
            ),
        ),
{
    reveal_with_fuel(resolution, 2);
}

/// For a path that no directive names, resolution puts the second branch in
/// place of every directive.
pub proof fn lemma_unnamed_path_takes_else(text: Seq<char>, path: Seq<char>)
    requires
        path_unnamed(text, path),
    ensures
        resolved(text, path) == resolved_otherwise(text),
{
    if !directive_free(text) {
        lemma_unnamed_takes_else(DIRECTIVE_PATTERN@, text, path, 0);
    }
}

/// Two paths that no directive names give the same page.
pub proof fn lemma_unnamed_paths_agree(text: Seq<char>, one: Seq<char>, other: Seq<char>)
    requires
        path_unnamed(text, one),
        path_unnamed(text, other),
    ensures
        resolved(text, one) == resolved(text, other),
{
    lemma_unnamed_path_takes_else(text, one);
    lemma_unnamed_path_takes_else(text, other);
}

/// A compiled matcher for directives. It is costly to make and can be used
/// any number of times.
pub struct DirectiveMatcher {
    re: Regex,
}

impl DirectiveMatcher {
    #[verifier::type_invariant]
    spec fn matches_directives(self) -> bool {
        pattern_of(self.re) == DIRECTIVE_PATTERN@
    }

    /// The pattern that the matcher was compiled from.
    pub closed spec fn pattern(self) -> Seq<char> {
        pattern_of(self.re)
    }

    /// Compiles the pattern of a directive. It fails where the regular
    /// expression engine does not take the pattern, and only there.
    pub fn new() -> (made: Result<DirectiveMatcher, LyError>)
        ensures
            made is Ok <==> pattern_compiles(DIRECTIVE_PATTERN@),
            match made {
                Ok(matcher) => matcher.pattern() == DIRECTIVE_PATTERN@,
                Err(e) => e == LyError::TemplatingError,
            },
    {
        match Regex::new(DIRECTIVE_PATTERN) {
            Ok(re) => Ok(DirectiveMatcher { re }),
            Err(_) => Err(LyError::TemplatingError),
        }
    }

    /// Resolves the directives of `text` for the page at `path`, in one pass
    /// from left to right. A text without `[[` is handed back as it is.
    pub fn resolve(&self, text: &str, path: &str) -> (done: Result<String, LyError>)
        ensures
            match done {
                Ok(out) => resolved(text@, path@) == Some(out@),
                Err(e) => e == LyError::TemplatingError && resolved(text@, path@) is None,
            },
    {
        if holds_opening(text) {
            self.walk(text, path)
        } else {
            Ok(String::from_str(text))
        }
    }

    /// Walks through `text` from its first byte and writes, for the page at
    /// `path`, the text between directives and the branch that stands for
    /// each directive.
    pub(crate) fn walk(&self, text: &str, path: &str) -> (done: Result<String, LyError>)
        ensures
            match done {
                Ok(out) => resolution(DIRECTIVE_PATTERN@, text@, path@, 0) == Some(out@),
                Err(e) => e == LyError::TemplatingError && resolution(
                    DIRECTIVE_PATTERN@,
                    text@,
                    path@,
                    0,
                ) is None,
            },
    {
        proof {
            use_type_invariant(self);
            lemma_span_whole(text@);
        }
        let ghost whole = resolution(DIRECTIVE_PATTERN@, text@, path@, 0);
        let len = text.as_bytes().len();
        let mut out = String::new();
        let mut cursor: usize = 0;
        assert(Seq::<char>::empty() + whole->0 =~= whole->0);
        loop
            invariant
                pattern_of(self.re) == DIRECTIVE_PATTERN@,
                whole == resolution(DIRECTIVE_PATTERN@, text@, path@, 0),
                len == byte_len(text@),
                span_fits(text@, cursor as int, len as int),
                whole == match resolution(
                    DIRECTIVE_PATTERN@,
                    text@,
                    path@,
                    cursor as int,
                ) {
                    Some(rest) => Some(out@ + rest),
                    None => None,
                },
            decreases len - cursor,
        {
            match search_from(&self.re, text, cursor) {
                None => {
                    out.append(cut(text, cursor, len));
                    return Ok(out);
                },
                Some(groups) => {
                    let directive = match Directive::read(&groups) {
                        Ok(d) => d,
                        Err(e) => {
                            return Err(e);
                        },
                    };
                    let ghost before = out@;
                    let ghost here = cursor as int;
                    match directive.emit(text, cursor, path, &mut out) {
                        Ok(end) => {
                            cursor = end;
                        },
                        Err(e) => {
                            return Err(e);
                        },
                    }
                    proof {
                        let rest = resolution(DIRECTIVE_PATTERN@, text@, path@, cursor as int);
                        if rest is Some {
                            assert(before + (directive.output(text@, here, path@) + rest->0)
                                =~= out@ + rest->0);
                        }
                    }
                },
            }
        }
    }
}

} // verus!
