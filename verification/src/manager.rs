//! The manager's compute core: registering a new download in the store
//! and the live registry, the supervisor's persistence of an observed
//! control command, and the strict lookup of the control API.

use vstd::prelude::*;
use crate::errors::DownloadError;
use crate::machine::{spec_apply_command, DownloadCommand};
use crate::record::{new_record, DownloadInfo};
use crate::registry::Registry;
use crate::store::{find_id, lemma_find_id_member, remove_id, DownloadPersistence};

verus! {

/// Registers a new download: mints its record, persists it as `Pending`,
/// and enters its control handle in the live registry; the saved record
/// comes back for the caller to emit. Yields nothing only when the
/// freshly minted id collides with a live 36-character entry — so on an
/// empty registry it always succeeds — and a caller treats that as a
/// transient failure and may simply retry.
pub fn start_download(
    persistence: &mut DownloadPersistence,
    registry: &mut Registry,
    url: String,
    download_dir: String,
    cookies: Option<String>,
    referrer: Option<String>,
    user_agent: Option<String>,
    now: i64,
    handle: u64,
) -> (r: Option<DownloadInfo>)
    requires
        old(persistence).wf(),
        old(registry).wf(),
    ensures
        final(persistence).wf(),
        final(registry).wf(),
        match r {
            Some(rec) => {
                &&& rec.wf()
                &&& rec.status is Pending
                &&& rec.url == url
                &&& rec.downloaded_size == 0
                &&& rec.total_size is None
                &&& rec.cookies == cookies
                &&& rec.referrer == referrer
                &&& rec.user_agent == user_agent
                &&& rec.created_at == now
                &&& rec.updated_at == now
                &&& rec.id@.len() == 36
                &&& final(persistence).records@ == remove_id(
                    old(persistence).records@,
                    rec.id@,
                ).push(rec)
                &&& final(registry).entries@ == old(registry).entries@.push((rec.id, handle))
            },
            None => {
                &&& *final(persistence) == *old(persistence)
                &&& *final(registry) == *old(registry)
            },
        },
        r is None ==> exists|i: int|
            0 <= i < old(registry).entries@.len() && (#[trigger] old(
                registry,
            ).entries@[i]).0@.len() == 36,
        old(registry).entries@.len() == 0 ==> r is Some,
{
    let rec = new_record(url, download_dir, cookies, referrer, user_agent, now);
    if registry.contains(&rec.id) {
        proof {
            let i = choose|i: int|
                0 <= i < registry.entries@.len() && (#[trigger] registry.entries@[i]).0@
                    == rec.id@;
            assert(old(registry).entries@[i].0@.len() == 36);
        }
        return None;
    }
    let id = rec.id.clone();
    let snapshot = rec.clone();
    persistence.save_download(rec);
    registry.insert(id, handle);
    Some(snapshot)
}

/// The supervisor's half of a control command: upon observing `cmd` it
/// moves its stored record as the state machine says, persists it, and
/// hands the persisted snapshot back for emission. An id with no stored
/// record leaves the store unchanged. Control-plane calls themselves do
/// not mutate persistence: they only deliver the command to the live
/// supervisor (found through `Registry::lookup`), which calls this upon
/// receiving it.
pub fn persist_observed_command(
    persistence: &mut DownloadPersistence,
    id: &String,
    cmd: DownloadCommand,
    now: i64,
) -> (r: Option<DownloadInfo>)
    requires
        old(persistence).wf(),
    ensures
        final(persistence).wf(),
        match find_id(old(persistence).records@, id@) {
            Some(rec) => {
                &&& r == Some(
                    (DownloadInfo {
                        status: spec_apply_command(rec.status, cmd),
                        updated_at: now,
                        ..rec
                    }),
                )
                &&& final(persistence).records@ == remove_id(
                    old(persistence).records@,
                    id@,
                ).push(
                    (DownloadInfo {
                        status: spec_apply_command(rec.status, cmd),
                        updated_at: now,
                        ..rec
                    }),
                )
            },
            None => r is None && *final(persistence) == *old(persistence),
        },
{
    let found = persistence.get(id);
    match found {
        Some(rec_ref) => {
            let mut rec = rec_ref.clone();
            proof {
                lemma_find_id_member(persistence.records@, id@);
            }
            rec.observe_command(cmd, now);
            let snapshot = rec.clone();
            persistence.save_download(rec);
            Some(snapshot)
        },
        None => None,
    }
}

/// The strict lookup of the control API: the record for the id, or
/// `NotFound` exactly when no record of that id is stored.
pub fn get_download_info<'a>(persistence: &'a DownloadPersistence, id: &String) -> (r: Result<
    &'a DownloadInfo,
    DownloadError,
>)
    ensures
        match r {
            Ok(rec) => find_id(persistence.records@, id@) == Some(*rec),
            Err(e) => find_id(persistence.records@, id@) is None && e is NotFound,
        },
{
    match persistence.get(id) {
        Some(rec) => Ok(rec),
        None => Err(DownloadError::NotFound),
    }
}

} // verus!
