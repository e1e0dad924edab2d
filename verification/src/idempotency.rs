use vstd::prelude::*;


use crate::contract::EventsContract;
use crate::effects::{child_op_payload, child_payload_spec};
use crate::types::OpId;

verus! {

#[verifier::external_type_specification]
#[verifier::external_body]
pub struct ExEnv(soroban_sdk::Env);

/// The SHA-256 digest of `data`.
pub uninterp spec fn sha256_digest(data: Seq<u8>) -> Seq<u8>;

/// SHA-256 of `data`, computed by the ledger host
/// (`soroban_sdk::crypto::Crypto::sha256`). Claimed: the 32 bytes returned
/// are the digest of `data`, whatever host computes them.
#[verifier::external_body]
fn sha256(env: &soroban_sdk::Env, data: &Vec<u8>) -> (r: [u8; 32])
    ensures
        r@ == sha256_digest(data@),
{
    let bytes = soroban_sdk::Bytes::from_slice(env, data.as_slice());
    env.crypto().sha256(&bytes).to_array()
}

/// The 32 bytes of an operation id: `hi` then `lo`, each big-endian.
pub open spec fn op_id_bytes(id: OpId) -> Seq<u8> {
    Seq::new(32, |i: int| if i < 16 { byte_of(id.hi, 15 - i) } else { byte_of(id.lo, 31 - i) })
}

/// Byte `k` (from the least significant) of `w`.
pub open spec fn byte_of(w: u128, k: int) -> u8 {
    ((w >> ((8 * k) as u128)) & 0xffu128) as u8
}

/// The 32 bytes of an operation id.
pub fn op_id_to_bytes(id: &OpId) -> (r: Vec<u8>)
    ensures
        r@ == op_id_bytes(*id),
{
    let mut out: Vec<u8> = Vec::new();
    let mut i: usize = 0;
    while i < 32
        invariant
            i <= 32,
            out@.len() == i,
            forall|j: int| 0 <= j < i ==> out@[j] == op_id_bytes(*id)[j],
        decreases 32 - i,
    {
        let b: u8 = if i < 16 {
            ((id.hi >> ((8 * (15 - i)) as u128)) & 0xffu128) as u8
        } else {
            ((id.lo >> ((8 * (31 - i)) as u128)) & 0xffu128) as u8
        };
        out.push(b);
        i += 1;
    }
    assert(out@ =~= op_id_bytes(*id));
    out
}

/// The child operation id for the `sub_idx`-th call tagged `op_tag` made on
/// behalf of `parent`: the SHA-256 of the parent id, the tag, the sub-index
/// and the callee contract's XDR encoding. Hashing with the callee as domain
/// separator keeps the ids of different callees and tags apart.
pub fn derive_child_indexed(env: &soroban_sdk::Env, parent: &OpId, op_tag: u8, sub_idx: u8, callee_xdr: &Vec<u8>) -> (r: [u8; 32])
    ensures
        r@ == sha256_digest(child_payload_spec(op_id_bytes(*parent), op_tag, sub_idx, callee_xdr@)),
{
    let parent_bytes = op_id_to_bytes(parent);
    let payload = child_op_payload(&parent_bytes, op_tag, sub_idx, callee_xdr);
    sha256(env, &payload)
}

/// The first child operation id for a call tagged `op_tag`.
pub fn derive_child(env: &soroban_sdk::Env, parent: &OpId, op_tag: u8, callee_xdr: &Vec<u8>) -> (r: [u8; 32])
    ensures
        r@ == sha256_digest(child_payload_spec(op_id_bytes(*parent), op_tag, 0, callee_xdr@)),
{
    derive_child_indexed(env, parent, op_tag, 0, callee_xdr)
}

/// `a.saturating_add(b)` on `u64`, as a mathematical value.
pub open spec fn sat_add_u64(a: u64, b: u64) -> u64 {
    if a + b > u64::MAX { u64::MAX } else { (a + b) as u64 }
}

impl EventsContract {
    /// Base of this deployment's event ids: the deployment ledger in the
    /// high 32 bits.
    pub open spec fn id_base_spec(&self) -> u64 {
        (self.deployment_seq as u64 * 0x1_0000_0000u64) as u64
    }

    /// The id the next created event receives.
    pub open spec fn next_id_spec(&self) -> u64 {
        match self.next_event_id {
            Some(n) => n,
            None => sat_add_u64(self.id_base_spec(), 1),
        }
    }

    /// `new` is `old` after handing out `id`: the next id of `old`, below
    /// `u64::MAX`, with the counter advanced past it and the deployment kept.
    pub open spec fn id_issued(old: &EventsContract, new: &EventsContract, id: u64) -> bool {
        &&& id == old.next_id_spec()
        &&& id < u64::MAX
        &&& new.next_event_id == Some((id + 1) as u64)
        &&& new.deployment_seq == old.deployment_seq
    }

    /// Base of this deployment's event ids.
    pub fn id_base(&self) -> (b: u64)
        ensures
            b == self.id_base_spec(),
            b & 0xFFFF_FFFFu64 == 0,
    {
        let seq = self.deployment_seq as u64;
        assert(seq * 0x1_0000_0000u64 <= u64::MAX) by (nonlinear_arith)
            requires
                seq <= u32::MAX,
        ;
        let b = seq << 32u64;
        assert(b == seq * 0x1_0000_0000u64) by (bit_vector)
            requires
                seq <= 0xFFFF_FFFFu64,
                b == seq << 32u64,
        ;
        assert(b & 0xFFFF_FFFFu64 == 0) by (bit_vector)
            requires
                b == seq << 32u64,
        ;
        b
    }

    /// Takes the next event id and advances the counter (saturating).
    pub fn next_event_id(&mut self) -> (id: u64)
        ensures
            id == old(self).next_id_spec(),
            *final(self) == (EventsContract { next_event_id: Some(sat_add_u64(id, 1)), ..*old(self) }),
    {
        let base = self.id_base();
        let id = match self.next_event_id {
            Some(n) => n,
            None => base.saturating_add(1),
        };
        self.next_event_id = Some(id.saturating_add(1));
        id
    }
}

} // verus!
