//! The browser bridge's wire format: length-prefixed frames (a `u32`
//! little-endian byte count, then that many payload bytes), and the reply
//! owed for each incoming frame.

use vstd::prelude::*;
use vstd::bytes::{
    lemma_auto_spec_u32_to_from_le_bytes, spec_u32_from_le_bytes, spec_u32_to_le_bytes,
    u32_from_le_bytes, u32_to_le_bytes,
};

verus! {

/// The bytes of one bridge frame: the payload's length as four
/// little-endian bytes, then the payload itself.
pub open spec fn spec_frame(payload: Seq<u8>) -> Seq<u8> {
    spec_u32_to_le_bytes(payload.len() as u32) + payload
}

/// The engine's end of the browser bridge: the framing of the channel it
/// is spoken to over, and the reply owed for each frame.
pub struct NativeMessagingHost;

impl NativeMessagingHost {
    /// Encodes one frame for the bridge channel.
    pub fn encode_frame(payload: &Vec<u8>) -> (r: Vec<u8>)
        requires
            payload@.len() <= u32::MAX,
        ensures
            r@ == spec_frame(payload@),
    {
        let len = payload.len() as u32;
        let mut out = u32_to_le_bytes(len);
        let mut i: usize = 0;
        while i < payload.len()
            invariant
                0 <= i <= payload@.len(),
                payload@.len() <= u32::MAX,
                out@ == spec_u32_to_le_bytes(payload@.len() as u32) + payload@.subrange(0, i as int),
            decreases payload@.len() - i,
        {
            out.push(payload[i]);
            proof {
                assert(payload@.subrange(0, i + 1) =~= payload@.subrange(0, i as int).push(
                    payload@[i as int],
                ));
                assert(out@ =~= spec_u32_to_le_bytes(payload@.len() as u32) + payload@.subrange(
                    0,
                    i + 1,
                ));
            }
            i = i + 1;
        }
        proof {
            assert(payload@.subrange(0, payload@.len() as int) =~= payload@);
        }
        out
    }

    /// Decodes a frame's four-byte length prefix.
    pub fn decode_frame_len(header: &Vec<u8>) -> (n: u32)
        requires
            header@.len() == 4,
        ensures
            n == spec_u32_from_le_bytes(header@),
    {
        u32_from_le_bytes(header.as_slice())
    }

}

/// Law: a frame parses back to exactly what it was built from: its first
/// four bytes decode to the payload's length, and the rest is the payload.
pub proof fn lemma_frame_round_trip(payload: Seq<u8>)
    requires
        payload.len() <= u32::MAX,
    ensures
        spec_frame(payload).len() == payload.len() + 4,
        spec_u32_from_le_bytes(spec_frame(payload).subrange(0, 4)) == payload.len(),
        spec_frame(payload).subrange(4, spec_frame(payload).len() as int) == payload,
{
    lemma_auto_spec_u32_to_from_le_bytes();
    assert(spec_frame(payload).subrange(0, 4) =~= spec_u32_to_le_bytes(payload.len() as u32));
    assert(spec_frame(payload).subrange(4, spec_frame(payload).len() as int) =~= payload);
}

/// The reply the bridge owes for one incoming frame.
#[derive(Debug, PartialEq, Eq)]
pub struct BridgeReply {
    pub success: bool,
    pub message: Option<String>,
}

/// Decides the bridge's reply: success when the frame's payload parsed as
/// a download request, otherwise a failure naming the format error.
pub fn bridge_reply(parse_ok: bool) -> (r: BridgeReply)
    ensures
        r.success == parse_ok,
        parse_ok ==> r.message is None,
        !parse_ok ==> r.message is Some && r.message->0@ == "Invalid message format"@,
{
    if parse_ok {
        BridgeReply { success: true, message: None }
    } else {
        BridgeReply { success: false, message: Some(String::from_str("Invalid message format")) }
    }
}

} // verus!
