//! Interpreting the HEAD probe: the `Content-Length` and `Accept-Ranges`
//! headers, the acceptable response statuses, and the choice between a
//! single stream and a segmented plan.

use vstd::prelude::*;
use crate::planner::{calculate_segments, spec_segment_count, MAX_SEGMENTS, MIN_SEGMENT_SIZE};

verus! {

/// Whether a character is a decimal digit.
pub open spec fn is_digit(c: char) -> bool {
    48 <= c as int <= 57
}

/// Whether every character of `s` is a decimal digit.
pub open spec fn all_digits(s: Seq<char>) -> bool {
    forall|i: int| 0 <= i < s.len() ==> is_digit(#[trigger] s[i])
}

/// The integer a digit string denotes.
pub open spec fn spec_dec_val(s: Seq<char>) -> int
    decreases s.len(),
{
    if s.len() == 0 {
        0
    } else {
        spec_dec_val(s.drop_last()) * 10 + (s.last() as int - 48)
    }
}

/// What parsing a decimal `u64` yields: the denoted value for a nonempty
/// all-digit string whose value fits; nothing otherwise.
pub open spec fn spec_parse_u64(s: Seq<char>) -> Option<u64> {
    if s.len() > 0 && all_digits(s) && spec_dec_val(s) <= u64::MAX {
        Some(spec_dec_val(s) as u64)
    } else {
        None
    }
}

proof fn lemma_dec_val_nonneg(s: Seq<char>)
    requires
        all_digits(s),
    ensures
        spec_dec_val(s) >= 0,
    decreases s.len(),
{
    if s.len() > 0 {
        assert(forall|i: int|
            0 <= i < s.len() - 1 ==> #[trigger] s.drop_last()[i] == s[i]);
        lemma_dec_val_nonneg(s.drop_last());
    }
}

proof fn lemma_dec_val_prefix_le(s: Seq<char>, k: int)
    requires
        all_digits(s),
        0 <= k <= s.len(),
    ensures
        spec_dec_val(s.subrange(0, k)) <= spec_dec_val(s),
    decreases s.len() - k,
{
    if k == s.len() {
        assert(s.subrange(0, s.len() as int) =~= s);
    } else {
        lemma_dec_val_prefix_le(s, k + 1);
        let p1 = s.subrange(0, k + 1);
        let p0 = s.subrange(0, k);
        assert(p1.drop_last() =~= p0);
        assert(p1.last() == s[k]);
        assert(forall|i: int| 0 <= i < k ==> #[trigger] p0[i] == s[i]);
        lemma_dec_val_nonneg(p0);
    }
}

/// Parses a decimal integer, as a `Content-Length` value is read: the
/// denoted value for a nonempty digit string that fits a `u64`.
pub fn parse_u64_dec(s: &str) -> (r: Option<u64>)
    ensures
        r == spec_parse_u64(s@),
{
    let n = s.unicode_len();
    if n == 0 {
        return None;
    }
    let mut acc: u64 = 0;
    let mut i: usize = 0;
    while i < n
        invariant
            0 <= i <= n,
            n == s@.len(),
            n > 0,
            all_digits(s@.subrange(0, i as int)),
            acc == spec_dec_val(s@.subrange(0, i as int)),
        decreases n - i,
    {
        let c = s.get_char(i);
        let cv = c as u32;
        if cv < 48 || cv > 57 {
            proof {
                assert(!is_digit(s@[i as int]));
            }
            return None;
        }
        let d: u64 = (cv - 48) as u64;
        if acc > (u64::MAX - d) / 10 {
            proof {
                assert(acc * 10 + d > u64::MAX) by (nonlinear_arith)
                    requires
                        acc > (u64::MAX - d) / 10,
                        d <= 9,
                        acc <= u64::MAX,
                ;
                let p1 = s@.subrange(0, i + 1);
                assert(p1.drop_last() =~= s@.subrange(0, i as int));
                assert(p1.last() == s@[i as int]);
                assert(forall|j: int|
                    0 <= j < i + 1 ==> #[trigger] p1[j] == s@[j]);
                assert(all_digits(p1));
                assert(spec_dec_val(p1) == acc * 10 + d);
                if all_digits(s@) {
                    lemma_dec_val_prefix_le(s@, i + 1);
                    assert(spec_dec_val(s@) > u64::MAX);
                }
            }
            return None;
        }
        proof {
            assert(acc * 10 + d <= u64::MAX) by (nonlinear_arith)
                requires
                    acc <= (u64::MAX - d) / 10,
                    d <= 9,
            ;
        }
        acc = acc * 10 + d;
        proof {
            let p1 = s@.subrange(0, i + 1);
            assert(p1.drop_last() =~= s@.subrange(0, i as int));
            assert(p1.last() == s@[i as int]);
            assert(forall|j: int| 0 <= j < i + 1 ==> #[trigger] p1[j] == s@[j]);
            assert(all_digits(p1));
        }
        i = i + 1;
    }
    proof {
        assert(s@.subrange(0, n as int) =~= s@);
    }
    Some(acc)
}

/// Reads the probe's `Content-Length` header: an absent or non-numeric
/// header leaves the size unknown.
pub fn parse_content_length(header: &Option<String>) -> (r: Option<u64>)
    ensures
        r == (match header {
            Some(h) => spec_parse_u64(h@),
            None => None::<u64>,
        }),
{
    match header {
        Some(h) => parse_u64_dec(h.as_str()),
        None => None,
    }
}

/// Whether the probe advertised byte-range support: `Accept-Ranges` is
/// present and equal to `bytes`.
pub fn range_supported(header: &Option<String>) -> (r: bool)
    ensures
        r <==> (header is Some && header->0@ == "bytes"@),
{
    match header {
        Some(h) => *h == String::from_str("bytes"),
        None => false,
    }
}

/// What the HEAD probe discovered about the resource.
#[derive(Debug)]
pub struct ProbeInfo {
    pub total_size: Option<u64>,
    pub supports_range: bool,
}

/// Interprets the probe's response headers.
pub fn interpret_probe(content_length: &Option<String>, accept_ranges: &Option<String>) -> (r:
    ProbeInfo)
    ensures
        r.total_size == (match content_length {
            Some(h) => spec_parse_u64(h@),
            None => None::<u64>,
        }),
        r.supports_range <==> (accept_ranges is Some && accept_ranges->0@ == "bytes"@),
{
    ProbeInfo {
        total_size: parse_content_length(content_length),
        supports_range: range_supported(accept_ranges),
    }
}

/// How a download will run: one plain stream, or that many ranged
/// segments fetched in parallel.
#[derive(Clone, Copy, Debug, PartialEq, Eq, Structural)]
pub enum DownloadStrategy {
    SingleStream,
    Segmented(u64),
}

/// The strategy a probe result calls for: segmented only when the size is
/// known, ranges are supported, and the size is worth more than one
/// segment.
pub open spec fn spec_choose_strategy(total_size: Option<u64>, supports_range: bool)
    -> DownloadStrategy {
    match total_size {
        None => DownloadStrategy::SingleStream,
        Some(t) => if !supports_range || spec_segment_count(t) <= 1 {
            DownloadStrategy::SingleStream
        } else {
            DownloadStrategy::Segmented(spec_segment_count(t))
        },
    }
}

/// Chooses between a single stream and a segmented plan. A segmented
/// choice always satisfies the planner's preconditions.
pub fn choose_strategy(probe: &ProbeInfo) -> (r: DownloadStrategy)
    ensures
        r == spec_choose_strategy(probe.total_size, probe.supports_range),
        r is Segmented ==> {
            &&& 2 <= r->Segmented_0 <= MAX_SEGMENTS
            &&& probe.total_size is Some
            &&& r->Segmented_0 <= probe.total_size->0
            &&& probe.total_size->0 >= 2 * MIN_SEGMENT_SIZE
        },
{
    match probe.total_size {
        None => DownloadStrategy::SingleStream,
        Some(t) => {
            if !probe.supports_range {
                DownloadStrategy::SingleStream
            } else {
                let n = calculate_segments(t);
                if n <= 1 {
                    DownloadStrategy::SingleStream
                } else {
                    DownloadStrategy::Segmented(n)
                }
            }
        },
    }
}

/// Whether a response status is acceptable for a fetch: any success
/// status. A ranged request answered outside this range (and not with
/// `206 Partial Content`, which is itself a success status) must fail the
/// download.
pub fn status_ok(status: u16) -> (r: bool)
    ensures
        r <==> 200 <= status < 300,
{
    200 <= status && status < 300
}

} // verus!
