use vstd::prelude::*;

use crate::events::Notice;
use crate::types::{Account, Hash32, OpId};

verus! {

/// Domain tags that separate the child operation ids derived from one
/// parent id for different profile calls.
pub const TAG_BOOTSTRAP: u8 = 0xB0;
pub const TAG_BUMP_REP: u8 = 0xD1;
pub const TAG_SLASH_REP: u8 = 0xD2;
pub const TAG_REGISTER_EARNINGS: u8 = 0xE1;

/// A child operation id, to be derived (see `idempotency::derive_child`) from
/// the parent id, the tag and the profile contract's address once the host
/// makes the call.
#[derive(Clone, Copy, Debug, PartialEq, Eq, Structural)]
pub struct ChildOp {
    pub parent: OpId,
    pub tag: u8,
}

#[derive(Clone, Copy, Debug, PartialEq, Eq, Structural)]
pub enum Reason {
    Win,
    Milestone,
}

/// Work that the host performs, in order, after a call succeeds. Token
/// movements go between an address and the contract's own escrow. A profile
/// call marked `best_effort` may fail without failing the call.
pub enum Effect {
    /// Transfer `amount` of `token` from `from` into the contract.
    Collect { token: Account, from: Account, amount: i128 },
    /// Transfer `amount` of `token` from the contract to `to`.
    Pay { token: Account, to: Account, amount: i128 },
    Bootstrap { user: Account, op: ChildOp, best_effort: bool },
    BumpReputation { user: Account, delta: u32, reason: Reason, op: ChildOp, best_effort: bool },
    RegisterEarnings { user: Account, token: Account, amount: i128, op: ChildOp, best_effort: bool },
    /// Replace the contract's code with the wasm of the given hash.
    UpdateWasm { hash: Hash32 },
    Publish(Notice),
}

/// The bytes hashed (SHA-256) to get a child operation id: the parent id,
/// the tag, the sub-index and the callee's XDR encoding.
pub open spec fn child_payload_spec(parent: Seq<u8>, tag: u8, sub_idx: u8, callee_xdr: Seq<u8>) -> Seq<u8> {
    parent + seq![tag, sub_idx] + callee_xdr
}

/// Builds the preimage of a child operation id.
pub fn child_op_payload(parent: &Vec<u8>, tag: u8, sub_idx: u8, callee_xdr: &Vec<u8>) -> (r: Vec<u8>)
    ensures
        r@ == child_payload_spec(parent@, tag, sub_idx, callee_xdr@),
{
    let mut out: Vec<u8> = Vec::new();
    let mut i: usize = 0;
    while i < parent.len()
        invariant
            i <= parent@.len(),
            out@ == parent@.subrange(0, i as int),
        decreases parent@.len() - i,
    {
        out.push(parent[i]);
        i += 1;
        assert(out@ =~= parent@.subrange(0, i as int));
    }
    out.push(tag);
    out.push(sub_idx);
    let ghost head = out@;
    assert(head =~= parent@ + seq![tag, sub_idx]);
    let mut j: usize = 0;
    while j < callee_xdr.len()
        invariant
            j <= callee_xdr@.len(),
            out@ == head + callee_xdr@.subrange(0, j as int),
        decreases callee_xdr@.len() - j,
    {
        out.push(callee_xdr[j]);
        j += 1;
        assert(out@ =~= head + callee_xdr@.subrange(0, j as int));
    }
    assert(callee_xdr@.subrange(0, callee_xdr@.len() as int) =~= callee_xdr@);
    out
}

} // verus!
