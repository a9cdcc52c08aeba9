//! The engine's error taxonomy. Each variant carries the human-readable
//! detail that a failed download's `Failed` reason is built from.

use vstd::prelude::*;

verus! {

/// Why an engine operation failed.
#[derive(Debug, PartialEq, Eq)]
pub enum DownloadError {
    /// Connection failure, timeout, or an unacceptable response status.
    NetworkError(String),
    /// File create, write, read or unlink failure.
    IoError(String),
    /// Persistence open, upsert or query failure.
    StorageError(String),
    /// The client builder rejected an option, or no directory resolves.
    ConfigError(String),
    /// A strict lookup targeted an unknown id.
    NotFound,
}

/// The detail text a variant carries; empty for `NotFound`.
pub open spec fn spec_error_detail(e: &DownloadError) -> Seq<char> {
    match e {
        DownloadError::NetworkError(m) => m@,
        DownloadError::IoError(m) => m@,
        DownloadError::StorageError(m) => m@,
        DownloadError::ConfigError(m) => m@,
        DownloadError::NotFound => Seq::<char>::empty(),
    }
}

impl DownloadError {
    /// The human-readable text of this error, as surfaced to the shell:
    /// the carried detail, or "Download not found" for `NotFound`.
    pub fn message(&self) -> (r: String)
        ensures
            *self is NotFound ==> r@ == "Download not found"@,
            !(*self is NotFound) ==> r@ == spec_error_detail(self),
    {
        match self {
            DownloadError::NetworkError(m) => m.clone(),
            DownloadError::IoError(m) => m.clone(),
            DownloadError::StorageError(m) => m.clone(),
            DownloadError::ConfigError(m) => m.clone(),
            DownloadError::NotFound => String::from_str("Download not found"),
        }
    }
}

impl Clone for DownloadError {
    fn clone(&self) -> (r: Self)
        ensures
            r == *self,
    {
        match self {
            DownloadError::NetworkError(m) => DownloadError::NetworkError(m.clone()),
            DownloadError::IoError(m) => DownloadError::IoError(m.clone()),
            DownloadError::StorageError(m) => DownloadError::StorageError(m.clone()),
            DownloadError::ConfigError(m) => DownloadError::ConfigError(m.clone()),
            DownloadError::NotFound => DownloadError::NotFound,
        }
    }
}

} // verus!
