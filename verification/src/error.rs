//! The errors of the engine, and the status convention that goes with them.

use crate::placeholder::substitute;
use crate::ssg::LyWebpage;
use vstd::prelude::*;

verus! {

/// What can go wrong while a page is built.
#[derive(Debug, Clone, Copy, PartialEq, Eq, Structural)]
pub enum LyError {
    /// A source file does not exist.
    NotFound,
    /// A source file exists but could not be read.
    InternalServerError,
    /// A conditional directive could not be matched or taken apart.
    TemplatingError,
}

/// `std::io::Error`, the failure of a read. Only its kind is asked for.
#[verifier::external_type_specification]
#[verifier::external_body]
pub struct ExIoError(std::io::Error);

/// Whether the kind of an I/O error is `ErrorKind::NotFound`: the answer of
/// `std::io::Error::kind`, reduced to the one distinction the engine makes.
pub uninterp spec fn kind_is_not_found(err: std::io::Error) -> bool;

/// Calls `std::io::Error::kind` and tells `ErrorKind::NotFound` from every
/// other kind. The contract only gives that answer its name.
#[verifier::external_body]
fn is_not_found(err: &std::io::Error) -> (missing: bool)
    ensures
        missing == kind_is_not_found(*err),
{
    matches!(err.kind(), std::io::ErrorKind::NotFound)
}

impl LyError {
    /// The HTTP status that stands for this error: 404 for a missing file,
    /// 500 for everything else.
    pub open spec fn status(self) -> u16 {
        match self {
            LyError::NotFound => 404,
            LyError::InternalServerError => 500,
            LyError::TemplatingError => 500,
        }
    }

    /// A short description of the error in words.
    pub open spec fn description(self) -> Seq<char> {
        match self {
            LyError::NotFound => "file not found"@,
            LyError::InternalServerError => "internal server error"@,
            LyError::TemplatingError => "templating error"@,
        }
    }

    /// The status of the error as three decimal digits.
    pub open spec fn status_digits(self) -> Seq<char> {
        match self {
            LyError::NotFound => "404"@,
            LyError::InternalServerError => "500"@,
            LyError::TemplatingError => "500"@,
        }
    }

    /// The text shown for the error: the status, ` -- `, the description.
    pub open spec fn display_text(self) -> Seq<char> {
        self.status_digits() + " -- "@ + self.description()
    }

    /// The error for a failed read: `NotFound` where the file is missing,
    /// `InternalServerError` for any other failure.
    pub open spec fn of_io_error(err: std::io::Error) -> LyError {
        if kind_is_not_found(err) {
            LyError::NotFound
        } else {
            LyError::InternalServerError
        }
    }

    /// The HTTP status that stands for this error.
    pub fn status_code(&self) -> (code: u16)
        ensures
            code == self.status(),
    {
        match self {
            LyError::NotFound => 404,
            LyError::InternalServerError => 500,
            LyError::TemplatingError => 500,
        }
    }

    /// The text shown for the error, such as `404 -- file not found`.
    pub fn to_string(&self) -> (text: String)
        ensures
            text@ == self.display_text(),
    {
        let mut text = match self {
            LyError::NotFound => String::from_str("404"),
            LyError::InternalServerError => String::from_str("500"),
            LyError::TemplatingError => String::from_str("500"),
        };
        text.append(" -- ");
        match self {
            LyError::NotFound => text.append("file not found"),
            LyError::InternalServerError => text.append("internal server error"),
            LyError::TemplatingError => text.append("templating error"),
        }
        text
    }

    /// The body of the response that reports the error: the error page with
    /// the text of the error in place of `[[error]]`, or that text alone
    /// where the error page could not be had.
    pub fn error_body(&self, template: Result<LyWebpage, LyError>) -> (body: String)
        ensures
            body@ == match template {
                Ok(page) => substitute(page@, "error"@, self.display_text()),
                Err(_) => self.display_text(),
            },
    {
        let text = self.to_string();
        match template {
            Ok(page) => page.fill_with_str("error", text.as_str()).contents,
            Err(_) => text,
        }
    }
}

impl From<std::io::Error> for LyError {
    /// A missing file becomes `NotFound`, any other failure
    /// `InternalServerError`.
    fn from(err: std::io::Error) -> (e: Self)
        ensures
            e == LyError::of_io_error(err),
    {
        if is_not_found(&err) {
            LyError::NotFound
        } else {
            LyError::InternalServerError
        }
    }
}

impl vstd::std_specs::convert::FromSpecImpl<std::io::Error> for LyError {
    open spec fn obeys_from_spec() -> bool {
        true
    }

    open spec fn from_spec(err: std::io::Error) -> Self {
        LyError::of_io_error(err)
    }
}

/// The digits shown for an error are the decimal digits of its status.
pub proof fn lemma_status_digits(e: LyError)
    ensures
        e.status_digits().len() == 3,
        e.status() == 100 * (e.status_digits()[0] as int - '0' as int)
            + 10 * (e.status_digits()[1] as int - '0' as int)
            + (e.status_digits()[2] as int - '0' as int),
{
    reveal_strlit("404");
    reveal_strlit("500");
}

} // verus!
