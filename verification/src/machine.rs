//! The per-download state machine: how control commands and supervisor
//! events move a record between statuses, with terminal states sticky.

use vstd::prelude::*;
use crate::record::DownloadInfo;
use crate::status::{DownloadStatus, spec_is_terminal};

verus! {

/// A control command delivered to a running download's supervisor.
#[derive(Clone, Copy, Debug, PartialEq, Eq, Structural)]
pub enum DownloadCommand {
    Pause,
    Resume,
    Cancel,
}

/// The status a command moves a download to: pause takes effect only while
/// downloading, resume only while paused, cancel from any live state;
/// terminal states never change.
pub open spec fn spec_apply_command(s: DownloadStatus, cmd: DownloadCommand) -> DownloadStatus {
    match cmd {
        DownloadCommand::Pause => if s is Downloading {
            DownloadStatus::Paused
        } else {
            s
        },
        DownloadCommand::Resume => if s is Paused {
            DownloadStatus::Downloading
        } else {
            s
        },
        DownloadCommand::Cancel => if !spec_is_terminal(&s) {
            DownloadStatus::Cancelled
        } else {
            s
        },
    }
}

/// Applies one control command to a status.
pub fn apply_command(s: DownloadStatus, cmd: DownloadCommand) -> (r: DownloadStatus)
    ensures
        r == spec_apply_command(s, cmd),
{
    match cmd {
        DownloadCommand::Pause => {
            if matches!(s, DownloadStatus::Downloading) {
                DownloadStatus::Paused
            } else {
                s
            }
        },
        DownloadCommand::Resume => {
            if matches!(s, DownloadStatus::Paused) {
                DownloadStatus::Downloading
            } else {
                s
            }
        },
        DownloadCommand::Cancel => {
            if !s.is_terminal() {
                DownloadStatus::Cancelled
            } else {
                s
            }
        },
    }
}

impl DownloadInfo {
    /// Lets the record observe one control command: the status moves as the
    /// state machine says, and the mutation stamp is refreshed.
    pub fn observe_command(&mut self, cmd: DownloadCommand, now: i64)
        requires
            old(self).wf(),
        ensures
            *final(self) == (DownloadInfo {
                status: spec_apply_command(old(self).status, cmd),
                updated_at: now,
                ..*old(self)
            }),
            final(self).wf(),
    {
        let next = apply_command(self.status.clone(), cmd);
        self.status = next;
        self.updated_at = now;
    }

    /// Begins the run: the probe's result becomes the known total, the
    /// record enters `Downloading`, and the byte count restarts from zero
    /// (a run never resumes mid-byte; it fetches from the start).
    pub fn mark_downloading(&mut self, total_size: Option<u64>, now: i64)
        requires
            old(self).wf(),
        ensures
            *final(self) == (DownloadInfo {
                status: DownloadStatus::Downloading,
                total_size,
                downloaded_size: 0,
                updated_at: now,
                ..*old(self)
            }),
            final(self).wf(),
    {
        self.status = DownloadStatus::Downloading;
        self.total_size = total_size;
        self.downloaded_size = 0;
        self.updated_at = now;
    }

    /// Publishes byte progress of a running download. While the download
    /// is active the persisted count never decreases, and never exceeds a
    /// known total.
    pub fn set_progress(&mut self, downloaded: u64, now: i64)
        requires
            old(self).wf(),
            old(self).status is Downloading,
            downloaded >= old(self).downloaded_size,
            old(self).total_size is Some ==> downloaded <= old(self).total_size->0,
        ensures
            *final(self) == (DownloadInfo {
                downloaded_size: downloaded,
                updated_at: now,
                ..*old(self)
            }),
            final(self).downloaded_size >= old(self).downloaded_size,
            final(self).wf(),
    {
        self.downloaded_size = downloaded;
        self.updated_at = now;
    }

    /// Concludes a run whose byte stream delivered `bytes` bytes in all.
    /// Succeeds exactly when the total, if known, was fully delivered;
    /// otherwise the record is unchanged (the body was truncated, and the
    /// caller fails the download instead).
    pub fn try_complete(&mut self, bytes: u64, now: i64) -> (ok: bool)
        requires
            old(self).wf(),
            old(self).status is Downloading,
        ensures
            ok <==> (old(self).total_size is None || old(self).total_size == Some(bytes)),
            ok ==> *final(self) == (DownloadInfo {
                status: DownloadStatus::Completed,
                downloaded_size: bytes,
                updated_at: now,
                ..*old(self)
            }),
            !ok ==> *final(self) == *old(self),
            final(self).wf(),
    {
        let full = match self.total_size {
            None => true,
            Some(t) => t == bytes,
        };
        if full {
            self.status = DownloadStatus::Completed;
            self.downloaded_size = bytes;
            self.updated_at = now;
        }
        full
    }

    /// Records a failure with its human-readable reason.
    pub fn mark_failed(&mut self, reason: String, now: i64)
        requires
            old(self).wf(),
        ensures
            *final(self) == (DownloadInfo {
                status: DownloadStatus::Failed(reason),
                updated_at: now,
                ..*old(self)
            }),
            final(self).wf(),
    {
        self.status = DownloadStatus::Failed(reason);
        self.updated_at = now;
    }
}

/// Law: a well-formed record that reached `Completed` with a known total
/// has downloaded exactly `total_size` bytes.
pub proof fn lemma_completed_download_is_full(r: &DownloadInfo)
    requires
        r.wf(),
        r.status is Completed,
        r.total_size is Some,
    ensures
        r.total_size == Some(r.downloaded_size),
{
}

/// The status after a whole sequence of control commands.
pub open spec fn spec_apply_commands(s: DownloadStatus, cmds: Seq<DownloadCommand>) -> DownloadStatus
    decreases cmds.len(),
{
    if cmds.len() == 0 {
        s
    } else {
        spec_apply_commands(spec_apply_command(s, cmds.first()), cmds.drop_first())
    }
}

/// Law: any sequence of pause/resume commands that ends in a resume leaves
/// an active download `Downloading`, never stalled in `Paused`; the
/// supervisor then proceeds to completion or failure.
pub proof fn lemma_resume_leaves_downloading(s: DownloadStatus, cmds: Seq<DownloadCommand>)
    requires
        s is Downloading || s is Paused,
        cmds.len() > 0,
        forall|i: int| 0 <= i < cmds.len() ==> cmds[i] is Pause || cmds[i] is Resume,
        cmds.last() is Resume,
    ensures
        spec_apply_commands(s, cmds) is Downloading,
    decreases cmds.len(),
{
    let s1 = spec_apply_command(s, cmds.first());
    assert(cmds[0] is Pause || cmds[0] is Resume);
    assert(spec_apply_commands(s, cmds) == spec_apply_commands(s1, cmds.drop_first()));
    if cmds.len() == 1 {
        assert(cmds.first() == cmds.last());
        assert(cmds.drop_first().len() == 0);
        assert(spec_apply_commands(s1, cmds.drop_first()) == s1);
        assert(s1 is Downloading);
    } else {
        let rest = cmds.drop_first();
        assert forall|i: int| 0 <= i < rest.len() implies rest[i] is Pause || rest[i] is Resume by {
            assert(rest[i] == cmds[i + 1]);
        }
        assert(rest.last() == cmds.last());
        lemma_resume_leaves_downloading(s1, rest);
    }
}

} // verus!
