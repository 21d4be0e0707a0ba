//! A small template engine for static sites.
//!
//! A [`ssg::LyWebpage`] holds the text of a page. Placeholders of the form
//! `[[key]]` are filled with literal text or with rendered Markdown, and
//! directives of the form `[[IF path ... ELSE ...]]` are resolved against the
//! path of the page that is being served.

pub mod conditional;
pub mod error;
pub mod placeholder;
pub mod render;
pub mod ssg;
pub mod text;
