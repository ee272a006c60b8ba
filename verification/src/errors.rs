//! The failure taxonomy of the boundary layer and its translation into the
//! two-valued status the flat ABI reports.

use vstd::prelude::*;
use vstd::string::StringExecFns;

verus! {

/// Everything that can go wrong inside this layer. Each failure is terminal
/// for the call that produced it: no retry, no partial result.
#[derive(Clone, Debug)]
pub enum OntologyError {
    /// A string argument held malformed bytes; carries the argument's name.
    InvalidText(String),
    /// The language code resolved to no parser configuration; carries the code.
    UnknownLanguage(String),
    /// A filter element named no kind of the taxonomy; carries the name.
    UnknownEntityKind(String),
    /// An opaque failure surfaced by the external engine, verbatim.
    UnderlyingExtractionFailure(String),
}

/// The two-valued outcome reported over the flat ABI.
#[derive(Clone, Copy, PartialEq, Eq, Structural, Debug)]
pub enum Status {
    Success,
    Failure,
}

impl Status {
    /// The bit-exact code of this status: success is 0, failure is 1.
    pub fn code(&self) -> (r: i32)
        ensures
            *self is Success <==> r == 0,
            *self is Failure <==> r == 1,
    {
        match self {
            Status::Success => 0,
            Status::Failure => 1,
        }
    }
}

impl OntologyError {
    /// The diagnostic message recorded for this failure.
    pub open spec fn spec_message(&self) -> Seq<char> {
        match self {
            OntologyError::InvalidText(ctx) => "malformed UTF-8 bytes in "@ + ctx@,
            OntologyError::UnknownLanguage(code) => "`"@ + code@ + "` isn't a known language"@,
            OntologyError::UnknownEntityKind(name) => "`"@ + name@
                + "` isn't a known builtin entity kind"@,
            OntologyError::UnderlyingExtractionFailure(detail) => "extraction failed: "@
                + detail@,
        }
    }

    pub fn message(&self) -> (m: String)
        ensures
            m@ == self.spec_message(),
    {
        match self {
            OntologyError::InvalidText(ctx) => {
                let mut m = String::from_str("malformed UTF-8 bytes in ");
                m.append(ctx.as_str());
                m
            },
            OntologyError::UnknownLanguage(code) => {
                let mut m = String::from_str("`");
                m.append(code.as_str());
                m.append("` isn't a known language");
                m
            },
            OntologyError::UnknownEntityKind(name) => {
                let mut m = String::from_str("`");
                m.append(name.as_str());
                m.append("` isn't a known builtin entity kind");
                m
            },
            OntologyError::UnderlyingExtractionFailure(detail) => {
                let mut m = String::from_str("extraction failed: ");
                m.append(detail.as_str());
                m
            },
        }
    }
}

/// Translates an internal outcome into the status the caller sees: success
/// exactly on `Ok`, failure exactly on `Err`.
pub fn status_of<T>(r: &Result<T, OntologyError>) -> (s: Status)
    ensures
        s is Success <==> r is Ok,
        s is Failure <==> r is Err,
{
    match r {
        Ok(_) => Status::Success,
        Err(_) => Status::Failure,
    }
}

/// Translates a failure into the status plus the diagnostic message that the
/// side channel records; every failure path reports exactly this pair.
pub fn report(e: &OntologyError) -> (r: (Status, String))
    ensures
        r.0 is Failure,
        r.1@ == e.spec_message(),
{
    (Status::Failure, e.message())
}

} // verus!
