//! Segment planning: how many parallel byte-range fetches a download of a
//! given size is split into, and the exact byte boundaries of each segment.

use vstd::prelude::*;

verus! {

/// Upper bound on how many parallel segments one download may use.
pub const MAX_SEGMENTS: u64 = 32;

/// Smallest byte count that earns a segment of its own (1 MiB).
pub const MIN_SEGMENT_SIZE: u64 = 1024 * 1024;

/// One byte range of a segmented download. `start` and `end` are inclusive
/// byte offsets into the final artifact; `downloaded` counts the bytes of
/// this range fetched so far.
#[derive(Clone, Copy, Debug, PartialEq, Eq, Structural)]
pub struct Segment {
    pub index: usize,
    pub start: u64,
    pub end: u64,
    pub downloaded: u64,
}

/// The number of segments a download of `total_size` bytes is split into:
/// one per whole MiB, capped at `MAX_SEGMENTS`, and at least one.
pub open spec fn spec_segment_count(total_size: u64) -> u64 {
    let by_size = total_size / MIN_SEGMENT_SIZE;
    if by_size > MAX_SEGMENTS {
        MAX_SEGMENTS
    } else if by_size < 1 {
        1
    } else {
        by_size
    }
}

/// Decides the segment count for a download of known size.
///
/// The count is always between 1 and `MAX_SEGMENTS`, and more than one
/// segment is used only when the file has at least two minimum-sized
/// segments' worth of bytes.
pub fn calculate_segments(total_size: u64) -> (n: u64)
    ensures
        n == spec_segment_count(total_size),
        1 <= n <= MAX_SEGMENTS,
        n > 1 ==> total_size >= 2 * MIN_SEGMENT_SIZE,
        n <= total_size || total_size < MIN_SEGMENT_SIZE,
{
    let by_size = total_size / MIN_SEGMENT_SIZE;
    proof {
        assert(total_size >= by_size * MIN_SEGMENT_SIZE) by (nonlinear_arith)
            requires
                by_size == total_size / MIN_SEGMENT_SIZE,
                MIN_SEGMENT_SIZE == 1024 * 1024,
        ;
    }
    if by_size > MAX_SEGMENTS {
        MAX_SEGMENTS
    } else if by_size < 1 {
        1
    } else {
        by_size
    }
}

/// The total number of bytes covered by a sequence of segments.
pub open spec fn plan_length_sum(s: Seq<Segment>) -> int
    decreases s.len(),
{
    if s.len() == 0 {
        0
    } else {
        plan_length_sum(s.drop_last()) + (s.last().end - s.last().start + 1)
    }
}

/// Computes the byte boundaries of an `n`-way split of `total_size` bytes.
///
/// The segments partition `[0, total_size)` contiguously: the first starts
/// at zero, each next segment starts one byte past the previous one's end,
/// the last ends at `total_size - 1`, and the covered lengths sum to
/// `total_size`. Every segment but the last spans exactly
/// `total_size / n` bytes; the last absorbs the remainder.
pub fn plan_segments(total_size: u64, n: u64) -> (plan: Vec<Segment>)
    requires
        1 <= n <= total_size,
        n <= usize::MAX,
    ensures
        plan@.len() == n,
        forall|i: int| 0 <= i < n ==> (#[trigger] plan@[i]).index == i,
        forall|i: int| 0 <= i < n ==> (#[trigger] plan@[i]).downloaded == 0,
        forall|i: int|
            0 <= i < n ==> (#[trigger] plan@[i]).start == i * (total_size / n),
        forall|i: int|
            0 <= i < n ==> (#[trigger] plan@[i]).end == if i == n - 1 {
                total_size - 1
            } else {
                (i + 1) * (total_size / n) - 1
            },
        plan@[0].start == 0,
        plan@[n - 1].end == total_size - 1,
        forall|i: int|
            0 <= i < n - 1 ==> (#[trigger] plan@[i + 1]).start == plan@[i].end + 1,
        forall|i: int|
            0 <= i < n ==> (#[trigger] plan@[i]).start <= plan@[i].end < total_size,
        plan_length_sum(plan@) == total_size,
{
    let seg_size = total_size / n;
    proof {
        assert(seg_size * n <= total_size && seg_size >= 1) by (nonlinear_arith)
            requires
                seg_size == total_size / n,
                1 <= n <= total_size,
        ;
    }
    let mut plan: Vec<Segment> = Vec::new();
    let mut i: u64 = 0;
    let mut start: u64 = 0;
    while i < n
        invariant
            0 <= i <= n,
            1 <= n <= total_size,
            n <= usize::MAX,
            seg_size == total_size / n,
            seg_size >= 1,
            seg_size * n <= total_size,
            plan@.len() == i,
            start == if i < n { i * seg_size } else { total_size as int },
            plan_length_sum(plan@) == start,
            forall|j: int| 0 <= j < i ==> (#[trigger] plan@[j]).index == j,
            forall|j: int| 0 <= j < i ==> (#[trigger] plan@[j]).downloaded == 0,
            forall|j: int| 0 <= j < i ==> (#[trigger] plan@[j]).start == j * seg_size,
            forall|j: int|
                0 <= j < i ==> (#[trigger] plan@[j]).end == if j == n - 1 {
                    total_size - 1
                } else {
                    (j + 1) * seg_size - 1
                },
            forall|j: int|
                0 <= j < i ==> (#[trigger] plan@[j]).start <= plan@[j].end < total_size,
        decreases n - i,
    {
        proof {
            assert((i + 1) * seg_size == i * seg_size + seg_size) by (nonlinear_arith);
            assert((i + 1) * seg_size <= seg_size * n) by (nonlinear_arith)
                requires
                    i + 1 <= n,
                    seg_size >= 1,
            ;
        }
        let end: u64 = if i == n - 1 {
            total_size - 1
        } else {
            start + seg_size - 1
        };
        proof {
            if i == n - 1 {
                assert(i * seg_size <= total_size - seg_size) by (nonlinear_arith)
                    requires
                        i == n - 1,
                        seg_size * n <= total_size,
                ;
            }
        }
        let seg = Segment { index: i as usize, start, end, downloaded: 0 };
        let ghost prev = plan@;
        plan.push(seg);
        proof {
            assert(plan@.drop_last() =~= prev);
        }
        start = end + 1;
        i = i + 1;
    }
    proof {
        assert(plan@[0].start == 0 * seg_size);
        assert(forall|j: int|
            0 <= j < n - 1 ==> (#[trigger] plan@[j + 1]).start == plan@[j].end + 1);
    }
    plan
}

/// The single character a digit denotes.
pub open spec fn spec_digit(d: int) -> Seq<char> {
    if d == 0 {
        "0"@
    } else if d == 1 {
        "1"@
    } else if d == 2 {
        "2"@
    } else if d == 3 {
        "3"@
    } else if d == 4 {
        "4"@
    } else if d == 5 {
        "5"@
    } else if d == 6 {
        "6"@
    } else if d == 7 {
        "7"@
    } else if d == 8 {
        "8"@
    } else {
        "9"@
    }
}

/// The decimal rendering of a non-negative integer, without leading
/// zeroes (a lone zero for zero).
pub open spec fn spec_u64_dec(v: int) -> Seq<char>
    decreases v,
{
    if v < 10 {
        spec_digit(v)
    } else {
        spec_u64_dec(v / 10) + spec_digit(v % 10)
    }
}

fn digit_str(d: u64) -> (r: &'static str)
    requires
        d < 10,
    ensures
        r@ == spec_digit(d as int),
{
    match d {
        0 => "0",
        1 => "1",
        2 => "2",
        3 => "3",
        4 => "4",
        5 => "5",
        6 => "6",
        7 => "7",
        8 => "8",
        _ => "9",
    }
}

/// Renders an integer in decimal, as segment indexes appear in part-file
/// names and byte offsets in `Range` headers.
pub fn u64_to_dec(v: u64) -> (r: String)
    ensures
        r@ == spec_u64_dec(v as int),
    decreases v,
{
    if v < 10 {
        String::from_str(digit_str(v))
    } else {
        let mut s = u64_to_dec(v / 10);
        s.append(digit_str(v % 10));
        s
    }
}

/// The path of one segment's part-file: the artifact's own path with
/// `.part.<index>` appended, so the parts sit beside the artifact.
pub fn part_file_path(file_path: &str, index: u64) -> (r: String)
    ensures
        r@ == file_path@ + ".part."@ + spec_u64_dec(index as int),
{
    let mut s = String::from_str(file_path);
    s.append(".part.");
    s.append(u64_to_dec(index).as_str());
    s
}

} // verus!
