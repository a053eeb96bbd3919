use vstd::prelude::*;

verus! {

/// Why a load or save operation failed.
///
/// Filesystem failures are reported by the shell that performs the actual
/// reads and writes; this library only ever produces the variants below.
#[derive(Clone, Copy, PartialEq, Eq, Structural, Debug)]
pub enum DocError {
    /// The path's suffix is none of `.fb2`, `.fbz`, `.fb2.zip`.
    UnsupportedFormat,
    /// The archive holds no entry at all.
    ArchiveEmpty,
    /// The archive holds more than one entry.
    ArchiveHasMultipleEntries,
    /// The archive's only entry is a directory.
    ArchiveEntryIsDirectory,
    /// The container bytes are not a single-entry DEFLATE zip this codec reads.
    MalformedArchive,
    /// The entry name or payload does not fit the zip container's size fields.
    TooLarge,
}

impl DocError {
    /// The message for this error, as a sequence of characters.
    pub open spec fn message_spec(self) -> Seq<char> {
        match self {
            DocError::UnsupportedFormat => "unsupported file format."@,
            DocError::ArchiveEmpty => "archive is empty."@,
            DocError::ArchiveHasMultipleEntries => "archive contains more than one file."@,
            DocError::ArchiveEntryIsDirectory => "archive contains a directory."@,
            DocError::MalformedArchive => "archive is corrupt."@,
            DocError::TooLarge => "document is too large to pack."@,
        }
    }

    /// The human-readable message surfaced to the UI layer.
    pub fn message(&self) -> (r: String)
        ensures
            r@ == self.message_spec(),
    {
        match self {
            DocError::UnsupportedFormat => "unsupported file format.".to_string(),
            DocError::ArchiveEmpty => "archive is empty.".to_string(),
            DocError::ArchiveHasMultipleEntries => "archive contains more than one file.".to_string(),
            DocError::ArchiveEntryIsDirectory => "archive contains a directory.".to_string(),
            DocError::MalformedArchive => "archive is corrupt.".to_string(),
            DocError::TooLarge => "document is too large to pack.".to_string(),
        }
    }
}

} // verus!
