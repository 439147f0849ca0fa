use vstd::prelude::*;

use vstd::slice::slice_index_get;

verus! {

/// What the filesystem reported about a path argument. The caller queries
/// the filesystem and hands the outcome in as plain data.
#[derive(Clone, Copy, Debug, PartialEq, Eq, Structural)]
pub enum MetadataOutcome {
    /// Metadata was read; `is_file` says whether the path is a regular file.
    Found { is_file: bool },
    /// No entry exists under the path.
    NotFound,
    /// Metadata could not be read for some other reason.
    Unreadable,
}

/// The verdict on a file argument before the read loop starts.
#[derive(Clone, Copy, Debug, PartialEq, Eq, Structural)]
pub enum FileCheck {
    /// The argument may be opened and read.
    Usable,
    /// The path exists but is not a regular file.
    NotAFile,
    /// The path does not exist.
    NotFound,
    /// The path could not be examined.
    Unreadable,
}

/// Whether a file argument selects standard input: exactly the single
/// byte `-`.
pub fn is_stdin_path(path: &[u8]) -> (r: bool)
    ensures
        r <==> path@ =~= seq![45u8],
{
    path.len() == 1 && *slice_index_get(path, 0) == 45
}

/// The verdict a non-stdin file argument receives for each filesystem
/// outcome. `-` never reaches this decision: it is accepted without
/// touching the filesystem.
pub open spec fn spec_check_metadata(outcome: MetadataOutcome) -> FileCheck {
    match outcome {
        MetadataOutcome::Found { is_file } => if is_file {
            FileCheck::Usable
        } else {
            FileCheck::NotAFile
        },
        MetadataOutcome::NotFound => FileCheck::NotFound,
        MetadataOutcome::Unreadable => FileCheck::Unreadable,
    }
}

/// Validates a real path from what the filesystem reported: usable exactly
/// when the path is an existing regular file, and otherwise the verdict
/// that names what went wrong.
pub fn check_metadata(outcome: &MetadataOutcome) -> (r: FileCheck)
    ensures
        r == spec_check_metadata(*outcome),
        r == FileCheck::Usable <==> *outcome == (MetadataOutcome::Found { is_file: true }),
{
    match outcome {
        MetadataOutcome::Found { is_file } => {
            if *is_file {
                FileCheck::Usable
            } else {
                FileCheck::NotAFile
            }
        },
        MetadataOutcome::NotFound => FileCheck::NotFound,
        MetadataOutcome::Unreadable => FileCheck::Unreadable,
    }
}

} // verus!
