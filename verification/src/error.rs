use vstd::prelude::*;
use vstd::string::StringExecFns;

verus! {

/// The failures that flattening can report.  There is exactly one
/// kind: the input had no container shape at its top level.
#[derive(Debug, Clone, PartialEq, Eq)]
pub enum MavecError {
    /// The value was a bare scalar, so no token sequence exists for it.
    /// The carried text describes the refusal to the caller.
    JsonStructureParseError(String),
}

/// The one-line text of an error: a fixed prefix naming the error
/// kind, then the carried detail.
pub open spec fn error_text(e: MavecError) -> Seq<char> {
    match e {
        MavecError::JsonStructureParseError(detail) => "Json structure parse error: "@ + detail@,
    }
}

impl MavecError {
    /// Renders the error as one human-readable line.
    pub fn message(&self) -> (text: String)
        ensures
            text@ == error_text(*self),
    {
        match self {
            MavecError::JsonStructureParseError(detail) => {
                String::from_str("Json structure parse error: ").concat(detail.as_str())
            },
        }
    }
}

} // verus!
