//! Byte-progress accounting: per-chunk counting in a worker, and the
//! supervisor's aggregation of per-segment progress into one figure.

use vstd::prelude::*;
use crate::planner::{plan_length_sum, Segment};

verus! {

/// A progress event is published whenever the downloaded byte count
/// crosses this boundary (1 MiB).
pub const PROGRESS_STRIDE: u64 = 1024 * 1024;

/// Accounts one received chunk: returns the new byte count and whether it
/// crossed a stride boundary, upon which progress is published.
pub fn apply_chunk(downloaded: u64, chunk_len: u64) -> (r: (u64, bool))
    requires
        downloaded + chunk_len <= u64::MAX,
    ensures
        r.0 == downloaded + chunk_len,
        r.1 <==> downloaded / PROGRESS_STRIDE != r.0 / PROGRESS_STRIDE,
{
    let next = downloaded + chunk_len;
    let emit = downloaded / PROGRESS_STRIDE != next / PROGRESS_STRIDE;
    (next, emit)
}

/// The bytes downloaded so far across all segments of a plan.
pub open spec fn plan_progress_sum(s: Seq<Segment>) -> int
    decreases s.len(),
{
    if s.len() == 0 {
        0
    } else {
        plan_progress_sum(s.drop_last()) + s.last().downloaded
    }
}

/// Each segment's progress stays within its own byte range.
pub open spec fn seg_progress_wf(s: Seq<Segment>) -> bool {
    forall|i: int|
        0 <= i < s.len() ==> (#[trigger] s[i]).start <= s[i].end && s[i].downloaded <= s[i].end
            - s[i].start + 1
}

/// Law: while every segment's progress stays within its range, the summed
/// progress never exceeds the plan's total byte count.
pub proof fn lemma_progress_within_plan(s: Seq<Segment>)
    requires
        seg_progress_wf(s),
    ensures
        plan_progress_sum(s) <= plan_length_sum(s),
    decreases s.len(),
{
    if s.len() > 0 {
        assert(forall|i: int|
            0 <= i < s.drop_last().len() ==> #[trigger] s.drop_last()[i] == s[i]);
        lemma_progress_within_plan(s.drop_last());
        assert(s.last() == s[s.len() - 1]);
    }
}

proof fn lemma_progress_prefix_le(s: Seq<Segment>, i: int)
    requires
        0 <= i <= s.len(),
    ensures
        plan_progress_sum(s.subrange(0, i)) <= plan_progress_sum(s),
    decreases s.len() - i,
{
    if i == s.len() {
        assert(s.subrange(0, s.len() as int) =~= s);
    } else {
        lemma_progress_prefix_le(s, i + 1);
        assert(s.subrange(0, i + 1).drop_last() =~= s.subrange(0, i));
        assert(s.subrange(0, i + 1).last() == s[i]);
    }
}

/// Sums the workers' per-segment progress; the supervisor publishes this
/// as the download's byte count, so distinct workers never race on one
/// shared counter.
pub fn total_progress(plan: &Vec<Segment>) -> (r: u64)
    requires
        plan_progress_sum(plan@) <= u64::MAX,
    ensures
        r == plan_progress_sum(plan@),
{
    let mut sum: u64 = 0;
    let mut i: usize = 0;
    while i < plan.len()
        invariant
            0 <= i <= plan@.len(),
            plan_progress_sum(plan@) <= u64::MAX,
            sum == plan_progress_sum(plan@.subrange(0, i as int)),
        decreases plan@.len() - i,
    {
        proof {
            lemma_progress_prefix_le(plan@, i + 1);
            assert(plan@.subrange(0, i + 1).drop_last() =~= plan@.subrange(0, i as int));
            assert(plan@.subrange(0, i + 1).last() == plan@[i as int]);
        }
        sum = sum + plan[i].downloaded;
        i = i + 1;
    }
    proof {
        assert(plan@.subrange(0, plan@.len() as int) =~= plan@);
    }
    sum
}

/// Stores one worker's progress report in its segment of the plan.
pub fn set_segment_progress(plan: &mut Vec<Segment>, idx: usize, downloaded: u64)
    requires
        idx < old(plan)@.len(),
        old(plan)@[idx as int].start <= old(plan)@[idx as int].end,
        downloaded <= old(plan)@[idx as int].end - old(plan)@[idx as int].start + 1,
    ensures
        final(plan)@ == old(plan)@.update(
            idx as int,
            (Segment { downloaded, ..old(plan)@[idx as int] }),
        ),
{
    let seg = Segment { downloaded, ..plan[idx] };
    plan.set(idx, seg);
}

} // verus!
