//! The ways in which a run is refused or breaks off.

use vstd::prelude::*;

verus! {

/// Why a run stopped.
#[derive(Clone, Copy, Debug, PartialEq, Eq, Structural)]
pub enum ErrorKind {
    /// The source directory is missing: nothing has been touched.
    InvalidSource,
    /// The modification date of an entry cannot be had.
    MetadataUnavailable,
    /// Something already lies where a file would go.
    DestinationCollision,
    /// A folder for one day could not be made.
    DirectoryCreationFailure,
    /// Copying or renaming a file failed.
    RelocationFailure,
}

/// A fatal error: its kind and the path at which it arose.
#[derive(Clone, Debug, PartialEq, Eq)]
pub struct SortError {
    pub kind: ErrorKind,
    pub path: String,
}

/// A [`SortError`] as contracts see it.
pub struct SortErrorView {
    pub kind: ErrorKind,
    pub path: Seq<char>,
}

impl View for SortError {
    type V = SortErrorView;

    open spec fn view(&self) -> SortErrorView {
        SortErrorView { kind: self.kind, path: self.path@ }
    }
}

/// What a message says in front of the path.
pub open spec fn lead_of(kind: ErrorKind) -> Seq<char> {
    match kind {
        ErrorKind::InvalidSource => "Source directory does not exist: \""@,
        ErrorKind::MetadataUnavailable => "Modification date is not available for \""@,
        ErrorKind::DestinationCollision => "File \""@,
        ErrorKind::DirectoryCreationFailure => "Cannot create directory \""@,
        ErrorKind::RelocationFailure => "Cannot put file into place at \""@,
    }
}

/// What a message says behind the path.
pub open spec fn tail_of(kind: ErrorKind) -> Seq<char> {
    match kind {
        ErrorKind::DestinationCollision => "\" already exists at destination"@,
        _ => "\""@,
    }
}

/// The message of an error: its cause, around the failing path in quotes.
pub open spec fn message_of(error: SortErrorView) -> Seq<char> {
    lead_of(error.kind) + error.path + tail_of(error.kind)
}

impl SortError {
    /// A sentence for a human reader that names the failing path and the
    /// cause.
    pub fn message(&self) -> (text: String)
        ensures
            text@ == message_of(self@),
    {
        let lead = match self.kind {
            ErrorKind::InvalidSource => "Source directory does not exist: \"",
            ErrorKind::MetadataUnavailable => "Modification date is not available for \"",
            ErrorKind::DestinationCollision => "File \"",
            ErrorKind::DirectoryCreationFailure => "Cannot create directory \"",
            ErrorKind::RelocationFailure => "Cannot put file into place at \"",
        };
        let tail = match self.kind {
            ErrorKind::DestinationCollision => "\" already exists at destination",
            _ => "\"",
        };
        String::from_str(lead).concat(self.path.as_str()).concat(tail)
    }
}

} // verus!
