//! The error taxonomy of a generation run. Every error is fatal: the run is
//! all-or-nothing, and each variant carries the offending raw text so that an
//! operator can extend the resolver's table or fix the source document.

use vstd::prelude::*;

verus! {

/// Why a generation run failed.
#[derive(Debug, Clone, PartialEq, Eq)]
pub enum GenError {
    /// The transport to the device failed; raised by the surrounding
    /// application, never by the library itself.
    FetchError(String),
    /// A document is malformed within the modeled subset; the payload names
    /// the offending token.
    ParseError(String),
    /// An argument references a state variable that its own schema's table
    /// does not define; the payload is the referenced name.
    UnknownStateVariable(String),
    /// A state variable declares a data type outside the resolver's table;
    /// the payload is the unrecognized tag.
    UnmappedType(String),
}

/// The mathematical shape of a failure, used by contracts.
pub enum Issue {
    /// A service-type token with too few colon-separated segments.
    BadServiceType(Seq<char>),
    /// An argument's related state variable is missing from the table.
    UnknownVar(Seq<char>),
    /// A state variable's type tag is not recognized.
    BadType(Seq<char>),
}

/// Whether the returned error reports exactly the given failure.
pub open spec fn error_reports(e: GenError, issue: Issue) -> bool {
    match issue {
        Issue::BadServiceType(s) => e matches GenError::ParseError(m) && m@ == s,
        Issue::UnknownVar(s) => e matches GenError::UnknownStateVariable(m) && m@ == s,
        Issue::BadType(s) => e matches GenError::UnmappedType(m) && m@ == s,
    }
}

} // verus!
