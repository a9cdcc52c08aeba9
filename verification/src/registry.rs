//! The live-download registry: the process-wide table that maps each
//! running download's id to the handle its control channel is reached by.
//! An id is unique across the registry; an entry exists exactly while its
//! supervisor runs.

use vstd::prelude::*;

verus! {

/// Whether some entry of `s` carries the id.
pub open spec fn has_entry(s: Seq<(String, u64)>, id: Seq<char>) -> bool {
    exists|i: int| 0 <= i < s.len() && (#[trigger] s[i]).0@ == id
}

/// Whether no two entries of `s` share an id.
pub open spec fn entry_ids_unique(s: Seq<(String, u64)>) -> bool {
    forall|i: int, j: int|
        0 <= i < j < s.len() ==> (#[trigger] s[i]).0@ != (#[trigger] s[j]).0@
}

/// The entries of `s` with the given id's entry removed.
pub open spec fn remove_entry(s: Seq<(String, u64)>, id: Seq<char>) -> Seq<(String, u64)>
    decreases s.len(),
{
    if s.len() == 0 {
        s
    } else if s.last().0@ == id {
        remove_entry(s.drop_last(), id)
    } else {
        remove_entry(s.drop_last(), id).push(s.last())
    }
}

/// The handle of the first entry with the given id.
pub open spec fn find_entry(s: Seq<(String, u64)>, id: Seq<char>) -> Option<u64>
    decreases s.len(),
{
    if s.len() == 0 {
        None
    } else if s.first().0@ == id {
        Some(s.first().1)
    } else {
        find_entry(s.drop_first(), id)
    }
}

proof fn lemma_remove_entry_facts(s: Seq<(String, u64)>, id: Seq<char>)
    requires
        entry_ids_unique(s),
    ensures
        remove_entry(s, id).len() <= s.len(),
        forall|k: int|
            0 <= k < remove_entry(s, id).len() ==> (#[trigger] remove_entry(s, id)[k]).0@ != id,
        entry_ids_unique(remove_entry(s, id)),
        !has_entry(remove_entry(s, id), id),
        forall|k: int|
            #![trigger remove_entry(s, id)[k]]
            0 <= k < remove_entry(s, id).len() ==> exists|j: int|
                0 <= j < s.len() && remove_entry(s, id)[k] == #[trigger] s[j],
    decreases s.len(),
{
    let rl = remove_entry(s, id);
    if s.len() > 0 {
        let d = s.drop_last();
        assert(forall|i: int| 0 <= i < d.len() ==> #[trigger] d[i] == s[i]);
        assert(entry_ids_unique(d));
        lemma_remove_entry_facts(d, id);
        let rd = remove_entry(d, id);
        if s.last().0@ == id {
            assert forall|k: int| #![trigger rl[k]] 0 <= k < rl.len() implies exists|j: int|
                0 <= j < s.len() && rl[k] == #[trigger] s[j] by {
                let j = choose|j: int| 0 <= j < d.len() && rd[k] == d[j];
                assert(rl[k] == s[j]);
            }
        } else {
            assert forall|k: int| #![trigger rl[k]] 0 <= k < rl.len() implies exists|j: int|
                0 <= j < s.len() && rl[k] == #[trigger] s[j] by {
                if k < rd.len() {
                    assert(rl[k] == rd[k]);
                    let j = choose|j: int| 0 <= j < d.len() && rd[k] == d[j];
                    assert(rl[k] == s[j]);
                } else {
                    assert(rl[k] == s[s.len() - 1]);
                }
            }
            assert forall|k: int| 0 <= k < rl.len() implies rl[k].0@ != id by {
                if k < rd.len() {
                    assert(rl[k] == rd[k]);
                } else {
                    assert(rl[k] == s.last());
                }
            }
            assert forall|i: int, j: int| 0 <= i < j < rl.len() implies rl[i].0@ != rl[j].0@ by {
                if j < rd.len() {
                    assert(rl[i] == rd[i] && rl[j] == rd[j]);
                } else {
                    assert(rl[j] == s.last());
                    assert(rl[i] == rd[i]);
                    let m = choose|m: int| 0 <= m < d.len() && rd[i] == d[m];
                    assert(s[m].0@ != s[s.len() - 1].0@);
                }
            }
        }
    }
}

/// The table of live downloads: one entry per running supervisor.
pub struct Registry {
    pub entries: Vec<(String, u64)>,
}

impl Registry {
    /// No two entries share an id.
    pub open spec fn wf(&self) -> bool {
        entry_ids_unique(self.entries@)
    }

    /// An empty registry.
    pub fn new() -> (r: Self)
        ensures
            r.entries@ == Seq::<(String, u64)>::empty(),
            r.wf(),
    {
        Registry { entries: Vec::new() }
    }

    /// Whether a download with this id is live.
    pub fn contains(&self, id: &String) -> (r: bool)
        ensures
            r == has_entry(self.entries@, id@),
    {
        let n = self.entries.len();
        let mut i: usize = 0;
        while i < n
            invariant
                0 <= i <= n,
                n == self.entries@.len(),
                forall|k: int| 0 <= k < i ==> (#[trigger] self.entries@[k]).0@ != id@,
            decreases n - i,
        {
            let entry = &self.entries[i];
            if entry.0 == *id {
                return true;
            }
            i = i + 1;
        }
        false
    }

    /// Registers a fresh download's control handle. The id must not be
    /// live yet; minted ids never collide with live ones.
    pub fn insert(&mut self, id: String, handle: u64)
        requires
            old(self).wf(),
            !has_entry(old(self).entries@, id@),
        ensures
            final(self).entries@ == old(self).entries@.push((id, handle)),
            final(self).wf(),
            has_entry(final(self).entries@, id@),
    {
        let ghost id_view = id@;
        self.entries.push((id, handle));
        proof {
            let s = final(self).entries@;
            assert(s[s.len() - 1].0@ == id_view);
            assert forall|i: int, j: int| 0 <= i < j < s.len() implies s[i].0@ != s[j].0@ by {
                if j < s.len() - 1 {
                    assert(s[i] == old(self).entries@[i] && s[j] == old(self).entries@[j]);
                } else {
                    assert(s[i] == old(self).entries@[i]);
                }
            }
        }
    }

    /// Unregisters a download when its supervisor exits or was never
    /// live; an absent id is a no-op.
    pub fn remove(&mut self, id: &String)
        requires
            old(self).wf(),
        ensures
            final(self).entries@ == remove_entry(old(self).entries@, id@),
            final(self).wf(),
            !has_entry(final(self).entries@, id@),
    {
        let n = self.entries.len();
        let mut kept: Vec<(String, u64)> = Vec::new();
        let mut i: usize = 0;
        while i < n
            invariant
                0 <= i <= n,
                *self == *old(self),
                n == self.entries@.len(),
                kept@ == remove_entry(self.entries@.subrange(0, i as int), id@),
            decreases n - i,
        {
            let entry = &self.entries[i];
            proof {
                let p1 = self.entries@.subrange(0, i + 1);
                assert(p1.drop_last() =~= self.entries@.subrange(0, i as int));
                assert(p1.last() == self.entries@[i as int]);
            }
            if !(entry.0 == *id) {
                kept.push((entry.0.clone(), entry.1));
            }
            i = i + 1;
        }
        proof {
            assert(self.entries@.subrange(0, n as int) =~= self.entries@);
            lemma_remove_entry_facts(self.entries@, id@);
        }
        self.entries = kept;
    }

    /// Looks up the control handle a command for this id is sent through;
    /// nothing for an id that is not live (the command is then a no-op).
    pub fn lookup(&self, id: &String) -> (r: Option<u64>)
        ensures
            r == find_entry(self.entries@, id@),
    {
        let n = self.entries.len();
        let mut i: usize = 0;
        proof {
            assert(self.entries@.subrange(0, n as int) =~= self.entries@);
        }
        while i < n
            invariant
                0 <= i <= n,
                n == self.entries@.len(),
                find_entry(self.entries@, id@) == find_entry(
                    self.entries@.subrange(i as int, n as int),
                    id@,
                ),
            decreases n - i,
        {
            let entry = &self.entries[i];
            proof {
                let t = self.entries@.subrange(i as int, n as int);
                assert(t.first() == self.entries@[i as int]);
                assert(t.drop_first() =~= self.entries@.subrange(i + 1, n as int));
            }
            if entry.0 == *id {
                return Some(entry.1);
            }
            i = i + 1;
        }
        None
    }
}

} // verus!
