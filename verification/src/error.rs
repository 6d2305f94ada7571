use vstd::prelude::*;

verus! {

/// The failure taxonomy of the crate.  Every variant carries the name of the
/// resource it concerns, or — for an external tool — the tool's own
/// diagnostic text, verbatim.
#[derive(Debug)]
pub enum FurnaceError {
    /// A recipe, runtime version or catalog entry is absent.
    NotFound(String),
    /// A second recipe was offered for a path already registered under
    /// another name.
    Conflict(String),
    /// An external validator or process exited non-zero; the payload is its
    /// raw diagnostic text.
    ExternalToolFailure(String),
    /// An expected port or socket is already occupied.
    ResourceUnavailable(String),
    /// A filesystem operation failed.
    IOFailure(String),
}

/// The rendered text of an error, prefix plus detail.
pub open spec fn spec_message(e: FurnaceError) -> Seq<char> {
    match e {
        FurnaceError::NotFound(d) => "not found: "@ + d@,
        FurnaceError::Conflict(d) => "conflict: "@ + d@,
        FurnaceError::ExternalToolFailure(d) => "external tool failure: "@ + d@,
        FurnaceError::ResourceUnavailable(d) => "resource unavailable: "@ + d@,
        FurnaceError::IOFailure(d) => "io failure: "@ + d@,
    }
}

impl FurnaceError {
    /// Human-readable description; names the resource the failure concerns.
    pub fn message(&self) -> (r: String)
        ensures
            r@ == spec_message(*self),
    {
        match self {
            FurnaceError::NotFound(d) => {
                let mut s = String::from_str("not found: ");
                s.append(d.as_str());
                s
            },
            FurnaceError::Conflict(d) => {
                let mut s = String::from_str("conflict: ");
                s.append(d.as_str());
                s
            },
            FurnaceError::ExternalToolFailure(d) => {
                let mut s = String::from_str("external tool failure: ");
                s.append(d.as_str());
                s
            },
            FurnaceError::ResourceUnavailable(d) => {
                let mut s = String::from_str("resource unavailable: ");
                s.append(d.as_str());
                s
            },
            FurnaceError::IOFailure(d) => {
                let mut s = String::from_str("io failure: ");
                s.append(d.as_str());
                s
            },
        }
    }
}

} // verus!
