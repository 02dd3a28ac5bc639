//! The terminal errors of the discovery pipeline.

use vstd::prelude::*;
use vstd::string::StringExecFns;

verus! {

/// The spec-level shape of a [`SubspaceError`].
pub ghost enum SubspaceErrorV {
    NotAFile { path: Seq<char> },
    NoParent { path: Seq<char> },
    WorkspaceMemberNotFound { manifest_path: Seq<char> },
    InvalidBuildMessage { detail: Seq<char> },
}

/// An error that aborts a discovery request.
///
/// Every core operation either fully succeeds or surfaces one of these; there
/// is no local retry inside the library.
#[derive(Debug)]
pub enum SubspaceError {
    /// A path that was required to name a regular file does not.
    NotAFile { path: String },
    /// A path with no parent directory was given where a file path was
    /// required; a well-formed file path always has a parent.
    NoParent { path: String },
    /// No package in the graph has the given manifest path.
    WorkspaceMemberNotFound { manifest_path: String },
    /// A line of the build tool's message stream could not be decoded.
    InvalidBuildMessage { detail: String },
}

impl DeepView for SubspaceError {
    type V = SubspaceErrorV;

    open spec fn deep_view(&self) -> SubspaceErrorV {
        match self {
            SubspaceError::NotAFile { path } => SubspaceErrorV::NotAFile { path: path@ },
            SubspaceError::NoParent { path } => SubspaceErrorV::NoParent { path: path@ },
            SubspaceError::WorkspaceMemberNotFound { manifest_path } => {
                SubspaceErrorV::WorkspaceMemberNotFound { manifest_path: manifest_path@ }
            },
            SubspaceError::InvalidBuildMessage { detail } => {
                SubspaceErrorV::InvalidBuildMessage { detail: detail@ }
            },
        }
    }
}

/// The rendered text of an error value.
pub open spec fn spec_message(e: SubspaceErrorV) -> Seq<char> {
    match e {
        SubspaceErrorV::NotAFile { path } => "`"@ + path + "` is not a file"@,
        SubspaceErrorV::NoParent { path } => "`"@ + path + "` has no parent directory"@,
        SubspaceErrorV::WorkspaceMemberNotFound { manifest_path } => {
            "Could not find workspace member with manifest path "@ + manifest_path
        },
        SubspaceErrorV::InvalidBuildMessage { detail } => {
            "Failed to decode build message: "@ + detail
        },
    }
}

impl SubspaceError {
    /// Renders the error as the human-readable message the caller reports.
    pub fn message(&self) -> (r: String)
        ensures
            r@ == spec_message(self.deep_view()),
    {
        match self {
            SubspaceError::NotAFile { path } => {
                String::from_str("`").concat(path.as_str()).concat("` is not a file")
            },
            SubspaceError::NoParent { path } => {
                String::from_str("`").concat(path.as_str()).concat("` has no parent directory")
            },
            SubspaceError::WorkspaceMemberNotFound { manifest_path } => {
                String::from_str("Could not find workspace member with manifest path ").concat(
                    manifest_path.as_str(),
                )
            },
            SubspaceError::InvalidBuildMessage { detail } => {
                String::from_str("Failed to decode build message: ").concat(detail.as_str())
            },
        }
    }
}

} // verus!
