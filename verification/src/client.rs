//! The per-download request configuration: which auth context values are
//! attached to outbound requests.

use vstd::prelude::*;

verus! {

/// The `User-Agent` attached to every request: the requester's own value,
/// or the engine's default when none was supplied.
pub fn effective_user_agent(user_agent: &Option<String>) -> (r: String)
    ensures
        match user_agent {
            Some(u) => r@ == u@,
            None => r@ == "GripDL/1.0"@,
        },
{
    match user_agent {
        Some(u) => u.clone(),
        None => String::from_str("GripDL/1.0"),
    }
}

/// The `Range` header value for one segment's fetch:
/// `bytes=<start>-<end>`.
pub fn range_header_value(start: u64, end: u64) -> (r: String)
    ensures
        r@ == "bytes="@ + crate::planner::spec_u64_dec(start as int) + "-"@
            + crate::planner::spec_u64_dec(end as int),
{
    let mut s = String::from_str("bytes=");
    s.append(crate::planner::u64_to_dec(start).as_str());
    s.append("-");
    s.append(crate::planner::u64_to_dec(end).as_str());
    s
}

} // verus!
