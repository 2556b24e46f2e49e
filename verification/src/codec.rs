//! The persisted form of the record.
//!
//! In account data the host convention puts an 8-byte discriminator
//! prefix first; what follows it is laid out here: the 32-byte recipient
//! key, the lifetime counter as 8 bytes little-endian, and the
//! derivation discriminant byte — 41 bytes in all.

use vstd::bytes::{
    lemma_auto_spec_u64_to_from_le_bytes, spec_u64_from_le_bytes, spec_u64_to_le_bytes,
    u64_from_le_bytes, u64_to_le_bytes,
};
use vstd::prelude::*;

use crate::account::TipAccount;
use crate::keys::Pubkey;

verus! {

/// Length in bytes of the stored record, after the host's prefix.
pub const RECORD_LEN: usize = 41;

/// The bytes a record is stored as.
pub open spec fn spec_encode_record(a: TipAccount) -> Seq<u8> {
    a.recipient@ + spec_u64_to_le_bytes(a.total_tips) + seq![a.bump]
}

/// Lay a record out in its stored form.
pub fn encode_tip_account(a: &TipAccount) -> (r: Vec<u8>)
    ensures
        r@ == spec_encode_record(*a),
        r@.len() == RECORD_LEN,
{
    let mut out: Vec<u8> = Vec::new();
    let mut i: usize = 0;
    while i < 32
        invariant
            i <= 32,
            out@ == a.recipient@.subrange(0, i as int),
        decreases 32 - i,
    {
        out.push(a.recipient.bytes[i]);
        proof {
            assert(out@ =~= a.recipient@.subrange(0, i + 1 as int));
        }
        i = i + 1;
    }
    let mut counter_bytes = u64_to_le_bytes(a.total_tips);
    out.append(&mut counter_bytes);
    out.push(a.bump);
    proof {
        lemma_auto_spec_u64_to_from_le_bytes();
        assert(a.recipient@.subrange(0, 32) =~= a.recipient@);
        assert(out@ =~= spec_encode_record(*a));
    }
    out
}

/// Read a record back from its stored form.  Every 41-byte sequence is
/// some record's stored form, so only the length can disqualify the
/// input.
pub fn decode_tip_account(data: &[u8]) -> (r: Option<TipAccount>)
    ensures
        match r {
            Some(a) => data@.len() == RECORD_LEN && spec_encode_record(a) == data@,
            None => data@.len() != RECORD_LEN,
        },
{
    if data.len() != RECORD_LEN {
        return None;
    }
    let mut key_bytes: [u8; 32] = [0u8; 32];
    let mut i: usize = 0;
    while i < 32
        invariant
            i <= 32,
            data@.len() == RECORD_LEN,
            forall|j: int| 0 <= j < i ==> key_bytes@[j] == data@[j],
        decreases 32 - i,
    {
        key_bytes[i] = data[i];
        i = i + 1;
    }
    let total_tips: u64 = u64_from_le_bytes(&data[32..40]);
    let bump: u8 = data[40];
    let a = TipAccount { recipient: Pubkey { bytes: key_bytes }, total_tips, bump };
    proof {
        lemma_auto_spec_u64_to_from_le_bytes();
        assert(a.recipient@ =~= data@.subrange(0, 32));
        assert(spec_u64_to_le_bytes(a.total_tips) == data@.subrange(32, 40));
        assert(spec_encode_record(a) =~= data@);
    }
    Some(a)
}

/// The layout loses nothing: two records stored as the same bytes agree
/// in every field the record holds.
pub proof fn lemma_record_bytes_faithful(a: TipAccount, b: TipAccount)
    requires
        spec_encode_record(a) == spec_encode_record(b),
    ensures
        a.recipient@ == b.recipient@,
        a.total_tips == b.total_tips,
        a.bump == b.bump,
{
    lemma_auto_spec_u64_to_from_le_bytes();
    assert(a.recipient@ =~= spec_encode_record(a).subrange(0, 32));
    assert(b.recipient@ =~= spec_encode_record(b).subrange(0, 32));
    assert(spec_u64_to_le_bytes(a.total_tips) =~= spec_encode_record(a).subrange(32, 40));
    assert(spec_u64_to_le_bytes(b.total_tips) =~= spec_encode_record(b).subrange(32, 40));
    assert(a.total_tips == spec_u64_from_le_bytes(spec_u64_to_le_bytes(a.total_tips)));
    assert(b.total_tips == spec_u64_from_le_bytes(spec_u64_to_le_bytes(b.total_tips)));
    assert(a.bump == spec_encode_record(a)[40]);
    assert(b.bump == spec_encode_record(b)[40]);
}

} // verus!
