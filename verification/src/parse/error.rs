use vstd::prelude::*;

use crate::diag::format_diagnostic;
use crate::diag::spec_diagnostic;
use crate::span::Span;

verus! {

/// A compile failure: the human-readable diagnostic rendered from the
/// offending source span and a short message.
#[derive(Clone, Debug)]
pub enum Error {
    Formatted(String),
}

impl Error {
    /// The rendered diagnostic text.
    pub open spec fn spec_text(self) -> Seq<char> {
        match self {
            Error::Formatted(s) => s@,
        }
    }

    /// Build the formatted compile failure for an error at `span`.
    pub fn new(template: &str, span: Span, message: &str) -> (r: Error)
        ensures
            r.spec_text() == spec_diagnostic(template@, span, message@),
    {
        Error::Formatted(format_diagnostic(template, span, message))
    }

    pub fn to_string(&self) -> (r: String)
        ensures
            r@ == self.spec_text(),
    {
        match self {
            Error::Formatted(s) => s.clone(),
        }
    }
}

} // verus!
