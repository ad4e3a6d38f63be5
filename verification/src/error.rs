use vstd::prelude::*;

use crate::parse::error::Error as ParseError;

verus! {

/// The runtime error kinds: a compile failure, a failure converting a
/// host value into an attribute value tree, or an attribute name
/// rejected by a template with a declared formal-argument set.
#[derive(Clone, Debug)]
pub enum Error {
    Parse(ParseError),
    Serde(String),
    NoSuchAttribute(String),
}

impl PartialEq for Error {
    /// Errors compare by kind, and `NoSuchAttribute` also by the
    /// rejected name.
    fn eq(&self, other: &Error) -> (r: bool) {
        match (self, other) {
            (Error::Parse(_), Error::Parse(_)) => true,
            (Error::Serde(_), Error::Serde(_)) => true,
            (Error::NoSuchAttribute(name1), Error::NoSuchAttribute(name2)) => {
                crate::strutil::str_eq(name1.as_str(), name2.as_str())
            },
            _ => false,
        }
    }
}

impl vstd::std_specs::cmp::PartialEqSpecImpl for Error {
    open spec fn obeys_eq_spec() -> bool {
        true
    }

    open spec fn eq_spec(&self, other: &Error) -> bool {
        match (self, other) {
            (Error::Parse(_), Error::Parse(_)) => true,
            (Error::Serde(_), Error::Serde(_)) => true,
            (Error::NoSuchAttribute(name1), Error::NoSuchAttribute(name2)) => name1@ == name2@,
            _ => false,
        }
    }
}

impl Error {
    /// Wrap a compile failure.
    pub fn from_parse(error: ParseError) -> (r: Error)
        ensures
            r == Error::Parse(error),
    {
        Error::Parse(error)
    }
}

} // verus!
