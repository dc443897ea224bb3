//! Error taxonomy of the installation pipeline.
//!
//! Every stage-level failure is fatal to the current installation attempt:
//! the first error encountered aborts the remaining stages and is wrapped
//! into the top-level [`InstallerError`]. Messages of errors that originate
//! outside the library (transport, archive container, local I/O) are carried
//! as plain strings.

use vstd::prelude::*;

verus! {

/// An error that occurred while downloading an asset.
#[derive(Debug)]
pub enum DownloadError {
    /// Got an invalid response / failed to send a request.
    RequestError(String),
    /// The server failed to provide a (valid, anyway) content length.
    InvalidContentLen,
    /// The server returned a non-success status code for a ranged request.
    InvalidStatusCode(u16),
    /// General I/O failure: couldn't write/read.
    IOError(String),
}

/// An error that occurred while extracting an archive.
#[derive(Debug)]
pub enum ExtractionError {
    /// An issue with the archive container itself.
    ArchiveError(String),
    /// Unsafe file path in the archive: the entry would write outside
    /// the destination tree.
    UnsafeFilepath(String),
    /// General I/O failure: couldn't write/read.
    IOError(String),
}

/// The top-level error of one installation attempt. Each inner stage error
/// is wrapped by value; there is no silent coercion.
#[derive(Debug)]
pub enum InstallerError {
    /// An error occurred during downloading.
    DownloadError(DownloadError),
    /// The release catalog is structurally invalid or missing a required
    /// asset role.
    CorruptedJSON(&'static str),
    /// The catalog body could not be deserialized at all.
    InvalidJson(String),
    /// Got an invalid response / failed to send a request.
    RequestError(String),
    /// General I/O failure: couldn't write/read.
    IOError(String),
    /// An error occurred during extraction.
    ExtractionError(ExtractionError),
}

impl InstallerError {
    /// Wraps a download-stage error, by value.
    pub fn from_download(err: DownloadError) -> (r: InstallerError)
        ensures
            r == InstallerError::DownloadError(err),
    {
        InstallerError::DownloadError(err)
    }

    /// Wraps an extraction-stage error, by value.
    pub fn from_extraction(err: ExtractionError) -> (r: InstallerError)
        ensures
            r == InstallerError::ExtractionError(err),
    {
        InstallerError::ExtractionError(err)
    }
}

/// The result of one whole installation attempt.
pub type InstallResult = Result<(), InstallerError>;

} // verus!
