//! The error taxonomy of the staging pipeline.

use vstd::prelude::*;

verus! {

/// One failure class per pipeline stage. Resolution, fetch, extraction,
/// parse and download errors abort a job; notification and cleanup errors
/// are reported but never fail an otherwise-successful job.
#[derive(Debug, Clone, PartialEq)]
pub enum JobError {
    /// The input URL belongs to no recognized source family.
    UnsupportedSource,
    /// The source-family marker is absent from the input URL.
    IdentifierNotFound,
    /// Network or non-2xx failure while fetching the listing page.
    FetchError(String),
    /// The listing page holds no embedded structured-data element.
    ExtractionError,
    /// The embedded structured-data text is not valid JSON.
    ParseError,
    /// A single image fetch or write failed.
    DownloadError(String),
    /// A remote-storage write failed.
    UploadError(String),
    /// The downstream gateway rejected or never received the notification.
    NotificationError(String),
    /// A staged local file could not be removed.
    CleanupError(String),
}

} // verus!
