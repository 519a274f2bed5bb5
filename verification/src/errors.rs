use vstd::prelude::*;
use vstd::string::StringExecFns;

use crate::digits::{dec_str, fmt_usize};

verus! {

/// The failure kinds raised by the pagination resolver, the handlers and the
/// store.
#[derive(Debug)]
pub enum Error {
    /// A query parameter was not a non-negative integer; carries the
    /// offending raw value.
    ParseError(String),
    /// Pagination was requested but `start` or `end` was absent.
    MissingParameters,
    /// The referenced question id is not in the store.
    QuestionNotFound,
    /// A pagination range that does not fit the listed collection; carries
    /// the requested bounds and the collection length.
    RangeError { start: usize, end: usize, len: usize },
}

/// The message that [`Error::message`] returns.
pub open spec fn spec_message(e: Error) -> Seq<char> {
    match e {
        Error::ParseError(v) => "Cannot parse parameter: "@ + v@,
        Error::MissingParameters => "Missing parameters"@,
        Error::QuestionNotFound => "Question not found"@,
        Error::RangeError { start, end, len } => "Pagination range out of bounds: start "@
            + dec_str(start as nat) + ", end "@ + dec_str(end as nat) + ", length "@ + dec_str(
            len as nat,
        ),
    }
}

impl Error {
    /// Human-readable message naming the specific problem.
    pub fn message(&self) -> (r: String)
        ensures
            r@ == spec_message(*self),
    {
        match self {
            Error::ParseError(v) => String::from_str("Cannot parse parameter: ").concat(v.as_str()),
            Error::MissingParameters => String::from_str("Missing parameters"),
            Error::QuestionNotFound => String::from_str("Question not found"),
            Error::RangeError { start, end, len } => {
                let r = String::from_str("Pagination range out of bounds: start ").concat(
                    fmt_usize(*start).as_str(),
                ).concat(", end ").concat(fmt_usize(*end).as_str()).concat(", length ").concat(
                    fmt_usize(*len).as_str(),
                );
                proof {
                    assert(r@ =~= spec_message(*self));
                }
                r
            },
        }
    }
}

/// The class of status that a mapped failure is reported with; the literal
/// wire codes belong to the transport layer.
#[derive(Debug, PartialEq, Eq, Structural)]
pub enum StatusClass {
    /// The request input was ill-formed (bad or missing parameters).
    ClientInputError,
    /// The referenced entity does not exist.
    NotFound,
    /// The request body could not be decoded.
    UnprocessableEntity,
    /// The request came from a disallowed origin.
    Forbidden,
}

/// A failure reaching the error mapper: one of the library's own kinds, or
/// one originating in the transport layer.
pub enum Failure {
    /// A failure of the resolver, a handler or the store.
    Service(Error),
    /// A request body the transport could not decode; carries its message.
    MalformedBody(String),
    /// A cross-origin request the transport refused; carries its message.
    ForbiddenOrigin(String),
}

/// The status class that [`return_error`] assigns to each failure kind.
pub open spec fn spec_status(f: Failure) -> StatusClass {
    match f {
        Failure::Service(e) => match e {
            Error::QuestionNotFound => StatusClass::NotFound,
            _ => StatusClass::ClientInputError,
        },
        Failure::MalformedBody(_) => StatusClass::UnprocessableEntity,
        Failure::ForbiddenOrigin(_) => StatusClass::Forbidden,
    }
}

/// The message that [`return_error`] reports for each failure kind.
pub open spec fn spec_failure_message(f: Failure) -> Seq<char> {
    match f {
        Failure::Service(e) => spec_message(e),
        Failure::MalformedBody(m) => m@,
        Failure::ForbiddenOrigin(m) => m@,
    }
}

/// The single mapping boundary: translates a known failure into the
/// externally visible outcome, a status class and a human-readable message.
pub fn return_error(f: &Failure) -> (r: (StatusClass, String))
    ensures
        r.0 == spec_status(*f),
        r.1@ == spec_failure_message(*f),
{
    match f {
        Failure::Service(e) => {
            let class = match e {
                Error::QuestionNotFound => StatusClass::NotFound,
                _ => StatusClass::ClientInputError,
            };
            (class, e.message())
        },
        Failure::MalformedBody(m) => (StatusClass::UnprocessableEntity, m.clone()),
        Failure::ForbiddenOrigin(m) => (StatusClass::Forbidden, m.clone()),
    }
}

} // verus!
