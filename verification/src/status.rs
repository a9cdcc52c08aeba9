//! The lifecycle state of a download, and its persisted text tag.
//!
//! The store keeps the status as a lowercase tag. The tag does not carry a
//! failure's reason, so a `Failed` status rehydrates with the reason
//! "Unknown error".

use vstd::prelude::*;

verus! {

/// Lifecycle state of one download. `Failed` carries the human-readable
/// reason reported by the failing component.
#[derive(Debug, PartialEq, Eq)]
pub enum DownloadStatus {
    Pending,
    Downloading,
    Paused,
    Completed,
    Failed(String),
    Cancelled,
}

impl Clone for DownloadStatus {
    fn clone(&self) -> (r: Self)
        ensures
            r == *self,
    {
        match self {
            DownloadStatus::Pending => DownloadStatus::Pending,
            DownloadStatus::Downloading => DownloadStatus::Downloading,
            DownloadStatus::Paused => DownloadStatus::Paused,
            DownloadStatus::Completed => DownloadStatus::Completed,
            DownloadStatus::Failed(reason) => DownloadStatus::Failed(reason.clone()),
            DownloadStatus::Cancelled => DownloadStatus::Cancelled,
        }
    }
}

/// Whether a status is terminal: once a download is completed, failed or
/// cancelled, it is never mutated again.
pub open spec fn spec_is_terminal(s: &DownloadStatus) -> bool {
    s is Completed || s is Failed || s is Cancelled
}

/// The lowercase tag under which a status is persisted.
pub open spec fn spec_status_tag(s: &DownloadStatus) -> Seq<char> {
    match s {
        DownloadStatus::Pending => "pending"@,
        DownloadStatus::Downloading => "downloading"@,
        DownloadStatus::Paused => "paused"@,
        DownloadStatus::Completed => "completed"@,
        DownloadStatus::Failed(_) => "failed"@,
        DownloadStatus::Cancelled => "cancelled"@,
    }
}

/// What parsing a persisted tag yields: the status named by the tag, a
/// `Failed` with reason "Unknown error" (the tag holds no reason), or
/// `Pending` for a tag no status produces.
pub open spec fn parsed_status(tag: Seq<char>, r: DownloadStatus) -> bool {
    if tag == "pending"@ {
        r is Pending
    } else if tag == "downloading"@ {
        r is Downloading
    } else if tag == "paused"@ {
        r is Paused
    } else if tag == "completed"@ {
        r is Completed
    } else if tag == "failed"@ {
        r is Failed && r->Failed_0@ == "Unknown error"@
    } else if tag == "cancelled"@ {
        r is Cancelled
    } else {
        r is Pending
    }
}

/// How a status relates to its own rehydration: identical in every case but
/// `Failed`, whose reason reduces to "Unknown error".
pub open spec fn rehydrates_to(s: &DownloadStatus, r: &DownloadStatus) -> bool {
    match s {
        DownloadStatus::Pending => *r is Pending,
        DownloadStatus::Downloading => *r is Downloading,
        DownloadStatus::Paused => *r is Paused,
        DownloadStatus::Completed => *r is Completed,
        DownloadStatus::Failed(_) => *r is Failed && r->Failed_0@ == "Unknown error"@,
        DownloadStatus::Cancelled => *r is Cancelled,
    }
}

impl DownloadStatus {
    /// Whether this status is terminal.
    pub fn is_terminal(&self) -> (r: bool)
        ensures
            r == spec_is_terminal(self),
    {
        match self {
            DownloadStatus::Completed => true,
            DownloadStatus::Failed(_) => true,
            DownloadStatus::Cancelled => true,
            _ => false,
        }
    }

    /// The lowercase tag under which this status is persisted.
    pub fn tag(&self) -> (r: &'static str)
        ensures
            r@ == spec_status_tag(self),
    {
        match self {
            DownloadStatus::Pending => "pending",
            DownloadStatus::Downloading => "downloading",
            DownloadStatus::Paused => "paused",
            DownloadStatus::Completed => "completed",
            DownloadStatus::Failed(_) => "failed",
            DownloadStatus::Cancelled => "cancelled",
        }
    }
}

/// Parses a persisted tag back into a status. A `failed` tag yields
/// `Failed("Unknown error")`; a tag that no status produces yields
/// `Pending`.
pub fn decode_status(tag: &String) -> (r: DownloadStatus)
    ensures
        parsed_status(tag@, r),
{
    if *tag == String::from_str("pending") {
        DownloadStatus::Pending
    } else if *tag == String::from_str("downloading") {
        DownloadStatus::Downloading
    } else if *tag == String::from_str("paused") {
        DownloadStatus::Paused
    } else if *tag == String::from_str("completed") {
        DownloadStatus::Completed
    } else if *tag == String::from_str("failed") {
        DownloadStatus::Failed(String::from_str("Unknown error"))
    } else if *tag == String::from_str("cancelled") {
        DownloadStatus::Cancelled
    } else {
        DownloadStatus::Pending
    }
}

/// Law: encoding a status as its tag and parsing the tag back yields the
/// same status, except that a failure's reason reduces to "Unknown error".
pub proof fn lemma_status_tag_round_trip(s: &DownloadStatus, r: DownloadStatus)
    requires
        parsed_status(spec_status_tag(s), r),
    ensures
        rehydrates_to(s, &r),
{
    reveal_strlit("pending");
    reveal_strlit("downloading");
    reveal_strlit("paused");
    reveal_strlit("completed");
    reveal_strlit("failed");
    reveal_strlit("cancelled");
    assert(("pending"@).len() == 7);
    assert(("downloading"@).len() == 11);
    assert(("paused"@).len() == 6);
    assert(("completed"@).len() == 9);
    assert(("failed"@).len() == 6);
    assert(("cancelled"@).len() == 9);
    assert(("paused"@)[0] != ("failed"@)[0]);
    assert(("completed"@)[1] != ("cancelled"@)[1]);
}

} // verus!
