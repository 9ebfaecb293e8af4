//! The unified error taxonomy of a run.
//!
//! Every failure of the pipeline is one of these four kinds; the
//! reporter renders each as a single human-readable line.

use vstd::prelude::*;

verus! {

/// One terminal failure of a run.
#[derive(Debug)]
pub enum RuntimeError {
    /// The directory of a directory-range source cannot be listed.
    DirectoryNotFound { dir: String },
    /// The output file cannot be created or cannot be fully written.
    DestinationUnwritable { dest: String },
    /// Reserved: individual decode failures are absorbed, never surfaced.
    Decode { detail: String },
    /// The animation encoder rejected the frame set or frame rate; the
    /// detail is the encoder's own diagnostic, kept verbatim.
    Encode { detail: String },
}

/// The mathematical shadow of a `RuntimeError`: the same four kinds over
/// character sequences.
pub enum ErrorModel {
    DirectoryNotFound(Seq<char>),
    DestinationUnwritable(Seq<char>),
    Decode(Seq<char>),
    Encode(Seq<char>),
}

impl View for RuntimeError {
    type V = ErrorModel;

    open spec fn view(&self) -> ErrorModel {
        match self {
            RuntimeError::DirectoryNotFound { dir } => ErrorModel::DirectoryNotFound(dir@),
            RuntimeError::DestinationUnwritable { dest } => ErrorModel::DestinationUnwritable(
                dest@,
            ),
            RuntimeError::Decode { detail } => ErrorModel::Decode(detail@),
            RuntimeError::Encode { detail } => ErrorModel::Encode(detail@),
        }
    }
}

impl RuntimeError {
    /// The one-line diagnostic for this error.
    pub open spec fn spec_message(self) -> Seq<char> {
        match self {
            RuntimeError::DirectoryNotFound { dir } => "No such directory \""@ + dir@ + "\""@,
            RuntimeError::DestinationUnwritable { dest } => "Couldn't write to output '"@ + dest@
                + "'"@,
            RuntimeError::Decode { detail } => "Image load error: "@ + detail@,
            RuntimeError::Encode { detail } => detail@,
        }
    }

    /// Renders the one-line diagnostic for this error.
    pub fn message(&self) -> (r: String)
        ensures
            r@ == self.spec_message(),
    {
        match self {
            RuntimeError::DirectoryNotFound { dir } => String::from_str(
                "No such directory \"",
            ).concat(dir.as_str()).concat("\""),
            RuntimeError::DestinationUnwritable { dest } => String::from_str(
                "Couldn't write to output '",
            ).concat(dest.as_str()).concat("'"),
            RuntimeError::Decode { detail } => String::from_str("Image load error: ").concat(
                detail.as_str(),
            ),
            RuntimeError::Encode { detail } => detail.clone(),
        }
    }
}

} // verus!
