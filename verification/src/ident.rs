//! The message identifier: a content-derived correlation key.
//!
//! A message is identified by a hash of its encoded order together with the
//! origin / destination pair and a transport nonce. The identifier is
//! deterministic — the same routing context and order always give the same
//! key — and it is computed once, when a message enters the correlation
//! store, never recomputed afterwards.

use vstd::prelude::*;
use vstd::bytes::spec_u32_to_le_bytes;
use vstd::bytes::u32_to_le_bytes;
use crate::codec::{encode_order, spec_enc_order};
use crate::xbi_format::{AccountIdOf, XBIOrder};

verus! {

/// Offset basis of the 64-bit FNV-1a hash.
pub const FNV_OFFSET: u64 = 0xcbf29ce484222325;

/// Prime of the 64-bit FNV-1a hash.
pub const FNV_PRIME: u64 = 0x100000001b3;

/// One FNV-1a step: fold one byte into the running hash.
pub open spec fn spec_fnv_step(h: u64, b: u8) -> u64 {
    (h ^ (b as u64)).wrapping_mul(FNV_PRIME)
}

/// FNV-1a over the suffix of `s` that starts at `i`, with running hash `h`.
pub open spec fn spec_fnv1a_from(s: Seq<u8>, i: int, h: u64) -> u64
    decreases s.len() - i,
{
    if 0 <= i < s.len() {
        spec_fnv1a_from(s, i + 1, spec_fnv_step(h, s[i]))
    } else {
        h
    }
}

/// The 64-bit FNV-1a hash of a byte string.
pub open spec fn spec_fnv1a(s: Seq<u8>) -> u64 {
    spec_fnv1a_from(s, 0, FNV_OFFSET)
}

/// The identifier of a message: the hash of origin, destination, nonce and
/// the encoded order, in that byte order.
pub open spec fn spec_message_id(
    order: crate::xbi_format::OrderView,
    origin: Seq<u8>,
    dest: Seq<u8>,
    nonce: u32,
) -> u64 {
    spec_fnv1a(origin + dest + spec_u32_to_le_bytes(nonce) + spec_enc_order(order))
}

/// FNV-1a over a byte buffer.
pub fn fnv1a(s: &[u8]) -> (r: u64)
    ensures
        r == spec_fnv1a(s@),
{
    let mut h: u64 = FNV_OFFSET;
    let mut i: usize = 0;
    while i < s.len()
        invariant
            0 <= i <= s@.len(),
            spec_fnv1a(s@) == spec_fnv1a_from(s@, i as int, h),
        decreases s@.len() - i,
    {
        h = (h ^ (s[i] as u64)).wrapping_mul(FNV_PRIME);
        i = i + 1;
    }
    h
}

/// Compute a message's identifier from its order and routing context.
pub fn message_id(order: &XBIOrder, origin: &AccountIdOf, dest: &AccountIdOf, nonce: u32) -> (r:
    u64)
    ensures
        r == spec_message_id(order@, origin@, dest@, nonce),
{
    let mut buf = vstd::slice::slice_to_vec(origin.as_slice());
    let mut dest_bytes = vstd::slice::slice_to_vec(dest.as_slice());
    buf.append(&mut dest_bytes);
    let mut nonce_bytes = u32_to_le_bytes(nonce);
    buf.append(&mut nonce_bytes);
    let mut order_bytes = encode_order(order);
    buf.append(&mut order_bytes);
    proof {
        assert(buf@ =~= origin@ + dest@ + spec_u32_to_le_bytes(nonce) + spec_enc_order(order@));
    }
    fnv1a(buf.as_slice())
}

} // verus!
