//! The download record: the unit the store persists and the shell sees,
//! together with its construction (fresh id, derived file name).

use vstd::prelude::*;
use crate::status::DownloadStatus;

verus! {

/// One download's identity, metadata, status and byte progress.
#[derive(Debug, PartialEq, Eq)]
pub struct DownloadInfo {
    pub id: String,
    pub url: String,
    pub file_path: String,
    pub file_name: String,
    pub total_size: Option<u64>,
    pub downloaded_size: u64,
    pub status: DownloadStatus,
    pub cookies: Option<String>,
    pub referrer: Option<String>,
    pub user_agent: Option<String>,
    pub created_at: i64,
    pub updated_at: i64,
}

impl DownloadInfo {
    /// Well-formedness: progress never exceeds a known total, and a
    /// completed download with a known total has downloaded exactly that
    /// many bytes.
    pub open spec fn wf(&self) -> bool {
        &&& (self.total_size is Some ==> self.downloaded_size <= self.total_size->0)
        &&& (self.status is Completed && self.total_size is Some ==> self.total_size
            == Some(self.downloaded_size))
    }

    /// Checks well-formedness at run time, as rehydrated rows are
    /// screened before they may enter the store.
    pub fn is_wf(&self) -> (r: bool)
        ensures
            r == self.wf(),
    {
        let within = match self.total_size {
            Some(t) => self.downloaded_size <= t,
            None => true,
        };
        let complete_ok = if matches!(self.status, DownloadStatus::Completed) {
            match self.total_size {
                Some(t) => t == self.downloaded_size,
                None => true,
            }
        } else {
            true
        };
        within && complete_ok
    }
}

impl Clone for DownloadInfo {
    fn clone(&self) -> (r: Self)
        ensures
            r == *self,
    {
        let r = DownloadInfo {
            id: self.id.clone(),
            url: self.url.clone(),
            file_path: self.file_path.clone(),
            file_name: self.file_name.clone(),
            total_size: self.total_size,
            downloaded_size: self.downloaded_size,
            status: self.status.clone(),
            cookies: self.cookies.clone(),
            referrer: self.referrer.clone(),
            user_agent: self.user_agent.clone(),
            created_at: self.created_at,
            updated_at: self.updated_at,
        };
        proof {
            assert(r.cookies == self.cookies);
            assert(r.referrer == self.referrer);
            assert(r.user_agent == self.user_agent);
        }
        r
    }
}

/// The suffix of `s` after its last `/`; all of `s` when it has none.
pub open spec fn after_last_slash(s: Seq<char>) -> Seq<char>
    decreases s.len(),
{
    if s.len() == 0 {
        s
    } else if s.last() == '/' {
        Seq::<char>::empty()
    } else {
        after_last_slash(s.drop_last()).push(s.last())
    }
}

/// The prefix of `s` before its first `?`; all of `s` when it has none.
pub open spec fn before_first_query(s: Seq<char>) -> Seq<char>
    decreases s.len(),
{
    if s.len() == 0 {
        s
    } else if s.first() == '?' {
        Seq::<char>::empty()
    } else {
        seq![s.first()] + before_first_query(s.drop_first())
    }
}

/// The file name a URL yields: the part after the last `/` and before the
/// first `?` thereafter; none when that part is empty.
pub open spec fn spec_extract_filename(url: Seq<char>) -> Option<Seq<char>> {
    let name = before_first_query(after_last_slash(url));
    if name.len() == 0 {
        None
    } else {
        Some(name)
    }
}

proof fn lemma_bfq_no_query(t: Seq<char>)
    requires
        forall|k: int| 0 <= k < t.len() ==> t[k] != '?',
    ensures
        before_first_query(t) == t,
    decreases t.len(),
{
    if t.len() > 0 {
        lemma_bfq_no_query(t.drop_first());
        assert(seq![t.first()] + t.drop_first() =~= t);
    }
}

proof fn lemma_bfq_query_at(t: Seq<char>, p: int)
    requires
        0 <= p < t.len(),
        t[p] == '?',
        forall|k: int| 0 <= k < p ==> t[k] != '?',
    ensures
        before_first_query(t) == t.subrange(0, p),
    decreases p,
{
    if p == 0 {
        assert(t.subrange(0, 0) =~= Seq::<char>::empty());
    } else {
        assert(t.drop_first()[p - 1] == t[p]);
        assert(forall|k: int| 0 <= k < p - 1 ==> #[trigger] t.drop_first()[k] == t[k + 1]);
        lemma_bfq_query_at(t.drop_first(), p - 1);
        assert(seq![t.first()] + t.drop_first().subrange(0, p - 1) =~= t.subrange(0, p));
    }
}

/// Derives the artifact's base name from the URL: the path component after
/// the last `/`, stripped of any query; `None` when that leaves nothing.
pub fn extract_filename(url: &str) -> (r: Option<String>)
    ensures
        match r {
            Some(name) => spec_extract_filename(url@) == Some(name@),
            None => spec_extract_filename(url@) is None,
        },
{
    let n = url.unicode_len();
    let mut start: usize = 0;
    let mut i: usize = 0;
    while i < n
        invariant
            0 <= start <= i <= n,
            n == url@.len(),
            after_last_slash(url@.subrange(0, i as int)) == url@.subrange(start as int, i as int),
        decreases n - i,
    {
        let c = url.get_char(i);
        if c == '/' {
            start = i + 1;
        }
        proof {
            let pre = url@.subrange(0, i + 1);
            assert(pre.drop_last() =~= url@.subrange(0, i as int));
            assert(pre.last() == url@[i as int]);
            if c == '/' {
                assert(after_last_slash(pre) =~= url@.subrange(i + 1, i + 1));
            } else {
                assert(after_last_slash(pre) == url@.subrange(start as int, i as int).push(
                    url@[i as int],
                ));
                assert(url@.subrange(start as int, i as int).push(url@[i as int]) =~= url@.subrange(
                    start as int,
                    i + 1,
                ));
            }
        }
        i = i + 1;
    }
    proof {
        assert(url@.subrange(0, n as int) =~= url@);
    }
    let mut end: usize = start;
    while end < n && url.get_char(end) != '?'
        invariant
            start <= end <= n,
            n == url@.len(),
            forall|k: int| start <= k < end ==> url@[k] != '?',
        decreases n - end,
    {
        end = end + 1;
    }
    proof {
        let t = url@.subrange(start as int, n as int);
        if end == n {
            lemma_bfq_no_query(t);
        } else {
            assert(forall|k: int|
                0 <= k < end - start ==> #[trigger] t[k] == url@[k + start]);
            lemma_bfq_query_at(t, end - start);
            assert(t.subrange(0, end - start) =~= url@.subrange(start as int, end as int));
        }
        assert(before_first_query(t) == url@.subrange(start as int, end as int));
    }
    if end == start {
        None
    } else {
        Some(String::from_str(url.substring_char(start, end)))
    }
}

/// The stand-in name for a download whose URL yields no file name:
/// `download_` followed by the first eight characters of the id.
pub fn fallback_name(id: &str) -> (r: String)
    requires
        id@.len() >= 8,
    ensures
        r@ == "download_"@ + id@.subrange(0, 8),
{
    let prefix = id.substring_char(0, 8);
    let mut name = String::from_str("download_");
    name.append(prefix);
    name
}

/// Relies on `uuid::Uuid::new_v4` and its `Display` impl: a fresh random
/// UUID rendered in the hyphenated form, which is exactly 36 characters.
/// Nothing more is assumed of the value: it is random.
#[verifier::external_body]
fn mint_id() -> (r: String)
    ensures
        r@.len() == 36,
{
    uuid::Uuid::new_v4().to_string()
}

/// Creates the record for a freshly requested download: a new 36-character
/// id, a file name derived from the URL (with the `download_` fallback),
/// the final path under the download directory, no known size, zero bytes
/// downloaded, and status `Pending`.
pub fn new_record(
    url: String,
    download_dir: String,
    cookies: Option<String>,
    referrer: Option<String>,
    user_agent: Option<String>,
    now: i64,
) -> (r: DownloadInfo)
    ensures
        r.id@.len() == 36,
        r.url == url,
        r.total_size is None,
        r.downloaded_size == 0,
        r.status is Pending,
        r.cookies == cookies,
        r.referrer == referrer,
        r.user_agent == user_agent,
        r.created_at == now,
        r.updated_at == now,
        match spec_extract_filename(url@) {
            Some(name) => r.file_name@ == name,
            None => r.file_name@ == "download_"@ + r.id@.subrange(0, 8),
        },
        r.file_path@ == download_dir@ + "/"@ + r.file_name@,
        r.wf(),
{
    let id = mint_id();
    let file_name = match extract_filename(url.as_str()) {
        Some(name) => name,
        None => fallback_name(id.as_str()),
    };
    let mut file_path = download_dir;
    file_path.append("/");
    file_path.append(file_name.as_str());
    DownloadInfo {
        id,
        url,
        file_path,
        file_name,
        total_size: None,
        downloaded_size: 0,
        status: DownloadStatus::Pending,
        cookies,
        referrer,
        user_agent,
        created_at: now,
        updated_at: now,
    }
}

} // verus!
