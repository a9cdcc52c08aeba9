//! The persistence model: the table of download records keyed by id, with
//! upsert, load and delete, and the flat row shape a record is stored as.

use vstd::prelude::*;
use crate::record::DownloadInfo;
use crate::status::{decode_status, parsed_status, rehydrates_to, spec_status_tag,
    lemma_status_tag_round_trip};

verus! {

/// Whether some record of `s` carries the id.
pub open spec fn has_id(s: Seq<DownloadInfo>, id: Seq<char>) -> bool {
    exists|i: int| 0 <= i < s.len() && (#[trigger] s[i]).id@ == id
}

/// Whether no two records of `s` share an id.
pub open spec fn ids_unique(s: Seq<DownloadInfo>) -> bool {
    forall|i: int, j: int|
        0 <= i < j < s.len() ==> (#[trigger] s[i]).id@ != (#[trigger] s[j]).id@
}

/// The records of `s` with every record of the given id removed.
pub open spec fn remove_id(s: Seq<DownloadInfo>, id: Seq<char>) -> Seq<DownloadInfo>
    decreases s.len(),
{
    if s.len() == 0 {
        s
    } else if s.last().id@ == id {
        remove_id(s.drop_last(), id)
    } else {
        remove_id(s.drop_last(), id).push(s.last())
    }
}

/// The first record of `s` with the given id.
pub open spec fn find_id(s: Seq<DownloadInfo>, id: Seq<char>) -> Option<DownloadInfo>
    decreases s.len(),
{
    if s.len() == 0 {
        None
    } else if s.first().id@ == id {
        Some(s.first())
    } else {
        find_id(s.drop_first(), id)
    }
}

proof fn lemma_remove_id_facts(s: Seq<DownloadInfo>, id: Seq<char>)
    requires
        ids_unique(s),
    ensures
        remove_id(s, id).len() <= s.len(),
        forall|k: int|
            0 <= k < remove_id(s, id).len() ==> (#[trigger] remove_id(s, id)[k]).id@ != id,
        ids_unique(remove_id(s, id)),
        !has_id(remove_id(s, id), id),
        forall|k: int|
            #![trigger remove_id(s, id)[k]]
            0 <= k < remove_id(s, id).len() ==> exists|j: int|
                0 <= j < s.len() && remove_id(s, id)[k] == #[trigger] s[j],
    decreases s.len(),
{
    let rl = remove_id(s, id);
    if s.len() > 0 {
        let d = s.drop_last();
        assert(forall|i: int| 0 <= i < d.len() ==> #[trigger] d[i] == s[i]);
        assert(ids_unique(d));
        lemma_remove_id_facts(d, id);
        let rd = remove_id(d, id);
        if s.last().id@ == id {
            assert forall|k: int| #![trigger rl[k]] 0 <= k < rl.len() implies exists|j: int|
                0 <= j < s.len() && rl[k] == #[trigger] s[j] by {
                let j = choose|j: int| 0 <= j < d.len() && rd[k] == d[j];
                assert(rl[k] == s[j]);
            }
        } else {
            assert forall|k: int| #![trigger rl[k]] 0 <= k < rl.len() implies exists|j: int|
                0 <= j < s.len() && rl[k] == #[trigger] s[j] by {
                if k < rd.len() {
                    assert(rl[k] == rd[k]);
                    let j = choose|j: int| 0 <= j < d.len() && rd[k] == d[j];
                    assert(rl[k] == s[j]);
                } else {
                    assert(rl[k] == s.last());
                    assert(rl[k] == s[s.len() - 1]);
                }
            }
            assert forall|k: int| 0 <= k < rl.len() implies rl[k].id@ != id by {
                if k < rd.len() {
                    assert(rl[k] == rd[k]);
                } else {
                    assert(rl[k] == s.last());
                }
            }
            assert forall|i: int, j: int| 0 <= i < j < rl.len() implies rl[i].id@ != rl[j].id@ by {
                if j < rd.len() {
                    assert(rl[i] == rd[i] && rl[j] == rd[j]);
                } else {
                    assert(rl[j] == s.last());
                    assert(rl[i] == rd[i]);
                    let m = choose|m: int| 0 <= m < d.len() && rd[i] == d[m];
                    assert(s[m].id@ != s[s.len() - 1].id@);
                }
            }
        }
    }
}

/// Law: what a lookup finds is one of the stored records.
pub proof fn lemma_find_id_member(s: Seq<DownloadInfo>, id: Seq<char>)
    requires
        find_id(s, id) is Some,
    ensures
        exists|j: int| 0 <= j < s.len() && find_id(s, id) == Some(#[trigger] s[j])
            && s[j].id@ == id,
    decreases s.len(),
{
    if s.len() > 0 {
        if s.first().id@ == id {
            assert(find_id(s, id) == Some(s[0]));
        } else {
            let d = s.drop_first();
            lemma_find_id_member(d, id);
            let j = choose|j: int| 0 <= j < d.len() && find_id(d, id) == Some(#[trigger] d[j])
                && d[j].id@ == id;
            assert(d[j] == s[j + 1]);
            assert(find_id(s, id) == Some(s[j + 1]));
        }
    }
}

/// The whole table of download records, one per id: the model the durable
/// store realizes.
pub struct DownloadPersistence {
    pub records: Vec<DownloadInfo>,
}

impl DownloadPersistence {
    /// No two records share an id, and every record is well-formed.
    pub open spec fn wf(&self) -> bool {
        &&& ids_unique(self.records@)
        &&& forall|i: int| 0 <= i < self.records@.len() ==> (#[trigger] self.records@[i]).wf()
    }

    /// An empty store.
    pub fn new() -> (r: Self)
        ensures
            r.records@ == Seq::<DownloadInfo>::empty(),
            r.wf(),
    {
        DownloadPersistence { records: Vec::new() }
    }

    /// Removes the record with the id; an absent id is a no-op.
    pub fn delete_download(&mut self, id: &String)
        requires
            old(self).wf(),
        ensures
            final(self).records@ == remove_id(old(self).records@, id@),
            final(self).wf(),
            !has_id(final(self).records@, id@),
    {
        let n = self.records.len();
        let mut kept: Vec<DownloadInfo> = Vec::new();
        let mut i: usize = 0;
        while i < n
            invariant
                0 <= i <= n,
                *self == *old(self),
                n == self.records@.len(),
                kept@ == remove_id(self.records@.subrange(0, i as int), id@),
            decreases n - i,
        {
            let rec = &self.records[i];
            proof {
                let p1 = self.records@.subrange(0, i + 1);
                assert(p1.drop_last() =~= self.records@.subrange(0, i as int));
                assert(p1.last() == self.records@[i as int]);
            }
            if !(rec.id == *id) {
                kept.push(rec.clone());
            }
            i = i + 1;
        }
        proof {
            assert(self.records@.subrange(0, n as int) =~= self.records@);
            lemma_remove_id_facts(self.records@, id@);
            let rl = remove_id(self.records@, id@);
            assert forall|k: int| 0 <= k < rl.len() implies (#[trigger] rl[k]).wf() by {
                let j = choose|j: int| 0 <= j < self.records@.len() && rl[k] == self.records@[j];
                assert(self.records@[j].wf());
            }
        }
        self.records = kept;
    }

    /// Upserts a record: any stored record of the same id is replaced.
    pub fn save_download(&mut self, r: DownloadInfo)
        requires
            old(self).wf(),
            r.wf(),
        ensures
            final(self).records@ == remove_id(old(self).records@, r.id@).push(r),
            final(self).records@.contains(r),
            has_id(final(self).records@, r.id@),
            final(self).wf(),
    {
        let id = r.id.clone();
        self.delete_download(&id);
        proof {
            lemma_remove_id_facts(old(self).records@, r.id@);
        }
        self.records.push(r);
        proof {
            let s = final(self).records@;
            assert(s[s.len() - 1] == r);
            let kept = remove_id(old(self).records@, r.id@);
            assert forall|i: int, j: int| 0 <= i < j < s.len() implies s[i].id@ != s[j].id@ by {
                if j < kept.len() {
                    assert(s[i] == kept[i] && s[j] == kept[j]);
                } else {
                    assert(s[j] == r);
                    assert(s[i] == kept[i]);
                }
            }
            assert forall|i: int| 0 <= i < s.len() implies (#[trigger] s[i]).wf() by {
                if i < kept.len() {
                    assert(s[i] == kept[i]);
                } else {
                    assert(s[i] == r);
                }
            }
        }
    }

    /// Returns every stored record; no ordering is promised beyond the
    /// stored sequence itself.
    pub fn load_downloads(&self) -> (r: Vec<DownloadInfo>)
        ensures
            r@ == self.records@,
    {
        let n = self.records.len();
        let mut out: Vec<DownloadInfo> = Vec::new();
        let mut i: usize = 0;
        while i < n
            invariant
                0 <= i <= n,
                n == self.records@.len(),
                out@ == self.records@.subrange(0, i as int),
            decreases n - i,
        {
            out.push(self.records[i].clone());
            proof {
                assert(self.records@.subrange(0, i + 1) =~= self.records@.subrange(
                    0,
                    i as int,
                ).push(self.records@[i as int]));
            }
            i = i + 1;
        }
        proof {
            assert(self.records@.subrange(0, n as int) =~= self.records@);
        }
        out
    }

    /// Looks up the record with the given id.
    pub fn get(&self, id: &String) -> (r: Option<&DownloadInfo>)
        ensures
            match r {
                Some(rec) => find_id(self.records@, id@) == Some(*rec),
                None => find_id(self.records@, id@) is None,
            },
    {
        let n = self.records.len();
        let mut i: usize = 0;
        proof {
            assert(self.records@.subrange(0, n as int) =~= self.records@);
        }
        while i < n
            invariant
                0 <= i <= n,
                n == self.records@.len(),
                find_id(self.records@, id@) == find_id(
                    self.records@.subrange(i as int, n as int),
                    id@,
                ),
            decreases n - i,
        {
            let rec = &self.records[i];
            proof {
                let t = self.records@.subrange(i as int, n as int);
                assert(t.first() == self.records@[i as int]);
                assert(t.drop_first() =~= self.records@.subrange(i + 1, n as int));
            }
            if rec.id == *id {
                return Some(rec);
            }
            i = i + 1;
        }
        None
    }
}

/// Law: after a save, the stored records contain the saved record itself.
pub proof fn lemma_save_then_load_contains(before: Seq<DownloadInfo>, r: DownloadInfo)
    ensures
        remove_id(before, r.id@).push(r).contains(r),
{
    let s = remove_id(before, r.id@).push(r);
    assert(s[s.len() - 1] == r);
}

/// One row of the durable table: a record with its status flattened to
/// the persisted tag.
#[derive(Debug, PartialEq, Eq)]
pub struct DownloadRow {
    pub id: String,
    pub url: String,
    pub file_path: String,
    pub file_name: String,
    pub total_size: Option<u64>,
    pub downloaded_size: u64,
    pub status_tag: String,
    pub cookies: Option<String>,
    pub referrer: Option<String>,
    pub user_agent: Option<String>,
    pub created_at: i64,
    pub updated_at: i64,
}

/// Whether `row` is the stored shape of `r`.
pub open spec fn row_matches_record(row: &DownloadRow, r: &DownloadInfo) -> bool {
    &&& row.id == r.id
    &&& row.url == r.url
    &&& row.file_path == r.file_path
    &&& row.file_name == r.file_name
    &&& row.total_size == r.total_size
    &&& row.downloaded_size == r.downloaded_size
    &&& row.status_tag@ == spec_status_tag(&r.status)
    &&& row.cookies == r.cookies
    &&& row.referrer == r.referrer
    &&& row.user_agent == r.user_agent
    &&& row.created_at == r.created_at
    &&& row.updated_at == r.updated_at
}

/// Whether `r` is what rehydrating `row` yields.
pub open spec fn rehydrated_from(row: &DownloadRow, r: &DownloadInfo) -> bool {
    &&& r.id == row.id
    &&& r.url == row.url
    &&& r.file_path == row.file_path
    &&& r.file_name == row.file_name
    &&& r.total_size == row.total_size
    &&& r.downloaded_size == row.downloaded_size
    &&& parsed_status(row.status_tag@, r.status)
    &&& r.cookies == row.cookies
    &&& r.referrer == row.referrer
    &&& r.user_agent == row.user_agent
    &&& r.created_at == row.created_at
    &&& r.updated_at == row.updated_at
}

/// Whether two records agree in every field except that the second's
/// status carries the rehydrated failure reason.
pub open spec fn same_but_reason(a: &DownloadInfo, b: &DownloadInfo) -> bool {
    &&& b.id == a.id
    &&& b.url == a.url
    &&& b.file_path == a.file_path
    &&& b.file_name == a.file_name
    &&& b.total_size == a.total_size
    &&& b.downloaded_size == a.downloaded_size
    &&& rehydrates_to(&a.status, &b.status)
    &&& b.cookies == a.cookies
    &&& b.referrer == a.referrer
    &&& b.user_agent == a.user_agent
    &&& b.created_at == a.created_at
    &&& b.updated_at == a.updated_at
}

/// Flattens a record to its stored row.
pub fn row_of_record(r: &DownloadInfo) -> (row: DownloadRow)
    ensures
        row_matches_record(&row, r),
{
    let row = DownloadRow {
        id: r.id.clone(),
        url: r.url.clone(),
        file_path: r.file_path.clone(),
        file_name: r.file_name.clone(),
        total_size: r.total_size,
        downloaded_size: r.downloaded_size,
        status_tag: String::from_str(r.status.tag()),
        cookies: r.cookies.clone(),
        referrer: r.referrer.clone(),
        user_agent: r.user_agent.clone(),
        created_at: r.created_at,
        updated_at: r.updated_at,
    };
    proof {
        assert(row.cookies == r.cookies);
        assert(row.referrer == r.referrer);
        assert(row.user_agent == r.user_agent);
    }
    row
}

/// Rehydrates a stored row into a record.
pub fn record_of_row(row: DownloadRow) -> (r: DownloadInfo)
    ensures
        rehydrated_from(&row, &r),
{
    let status = decode_status(&row.status_tag);
    DownloadInfo {
        id: row.id,
        url: row.url,
        file_path: row.file_path,
        file_name: row.file_name,
        total_size: row.total_size,
        downloaded_size: row.downloaded_size,
        status,
        cookies: row.cookies,
        referrer: row.referrer,
        user_agent: row.user_agent,
        created_at: row.created_at,
        updated_at: row.updated_at,
    }
}

/// Law: a record flattened to a row and rehydrated again is equal to the
/// record it came from in every field, except that a `Failed` status's
/// reason reduces to "Unknown error" (the row does not store the reason).
pub proof fn lemma_row_round_trip(r: &DownloadInfo, row: &DownloadRow, r2: &DownloadInfo)
    requires
        row_matches_record(row, r),
        rehydrated_from(row, r2),
    ensures
        same_but_reason(r, r2),
{
    lemma_status_tag_round_trip(&r.status, r2.status);
}

} // verus!
