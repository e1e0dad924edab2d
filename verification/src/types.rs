use vstd::prelude::*;

verus! {

/// An on-chain address (account or contract), identified by a number that
/// the host assigns to each distinct address it hands to the library.
pub type Account = u64;

/// A 32-byte value (an operation id or a wasm hash), as two 128-bit words:
/// `hi` holds bytes 0..16 and `lo` bytes 16..32, both big-endian.
#[derive(Clone, Copy, Debug, PartialEq, Eq, Structural)]
pub struct Hash32 {
    pub hi: u128,
    pub lo: u128,
}

/// Idempotency key that callers attach to every state-changing call.
pub type OpId = Hash32;

/// The host's view of the current invocation: ledger clock and the addresses
/// whose authorization the transaction carries.
pub struct Invocation {
    pub timestamp: u64,
    pub sequence: u32,
    pub signers: Vec<Account>,
}

impl Invocation {
    pub open spec fn authorizes(&self, who: Account) -> bool {
        self.signers@.contains(who)
    }

    /// Whether `who` authorized this invocation.
    pub fn is_authorized(&self, who: Account) -> (r: bool)
        ensures
            r == self.authorizes(who),
    {
        let mut i: usize = 0;
        while i < self.signers.len()
            invariant
                i <= self.signers@.len(),
                forall|j: int| 0 <= j < i ==> self.signers@[j] != who,
            decreases self.signers@.len() - i,
        {
            if self.signers[i] == who {
                return true;
            }
            i += 1;
        }
        false
    }
}

#[derive(Clone, Copy, Debug, PartialEq, Eq, Structural)]
pub enum Pillar {
    Hackathon,
    Bounty,
    Grant,
    Crowdfunding,
}

/// Lifecycle of an event. `Cancelling` is the frozen state between
/// `start_cancel` and `finalize_cancel`.
#[derive(Clone, Copy, Debug, PartialEq, Eq, Structural)]
pub enum EventStatus {
    Active,
    Cancelled,
    Completed,
    Cancelling,
}

/// How a paged cancellation splits what is left in escrow.
#[derive(Clone, Copy, Debug, PartialEq, Eq, Structural)]
pub enum CancellationBranch {
    /// No partner contributions: the owner gets everything back at once.
    OwnerOnly,
    /// Escrow covers every partner: partners in full, owner the residual.
    FullPartnerThenResidual,
    /// Escrow short of partner total: partners pro rata, owner nothing.
    ProRataPartners,
}

/// Snapshot taken by `start_cancel`; the cursor advances batch by batch.
#[derive(Clone, Copy, Debug, PartialEq, Eq, Structural)]
pub struct CancellationState {
    pub non_owner_total: i128,
    pub remaining_at_start: i128,
    pub count_at_start: u32,
    pub next_idx: u32,
    pub branch: CancellationBranch,
}

#[derive(Clone, Copy, Debug, PartialEq, Eq, Structural)]
pub enum ReleaseKind {
    Single,
    Multi(u32),
}

/// A key-unique map from winner position to percentage of the prize pool,
/// kept as entries in insertion order.
pub struct PercentMap {
    pub entries: Vec<(u32, u32)>,
}

/// The value under `k` in a list of entries (the first entry with that key).
pub open spec fn lookup(s: Seq<(u32, u32)>, k: u32) -> Option<u32>
    decreases s.len(),
{
    if s.len() == 0 {
        None
    } else if s[0].0 == k {
        Some(s[0].1)
    } else {
        lookup(s.drop_first(), k)
    }
}

/// The entries after setting `k` to `v`: replaced in place when present,
/// appended otherwise.
pub open spec fn set_entry(s: Seq<(u32, u32)>, k: u32, v: u32) -> Seq<(u32, u32)>
    decreases s.len(),
{
    if s.len() == 0 {
        seq![(k, v)]
    } else if s[0].0 == k {
        s.update(0, (k, v))
    } else {
        seq![s[0]].add(set_entry(s.drop_first(), k, v))
    }
}

/// The keys of the entries are pairwise distinct.
pub open spec fn keys_unique(s: Seq<(u32, u32)>) -> bool {
    forall|i: int, j: int| 0 <= i < j < s.len() ==> s[i].0 != s[j].0
}

/// Sum of the values of the entries, as a mathematical integer.
pub open spec fn value_sum(s: Seq<(u32, u32)>) -> int
    decreases s.len(),
{
    if s.len() == 0 {
        0
    } else {
        value_sum(s.drop_last()) + s.last().1
    }
}

impl PercentMap {
    pub open spec fn wf(&self) -> bool {
        keys_unique(self.entries@)
    }

    pub open spec fn get_spec(&self, k: u32) -> Option<u32> {
        lookup(self.entries@, k)
    }

    /// An empty map.
    pub fn new() -> (m: Self)
        ensures
            m.wf(),
            m.entries@.len() == 0,
    {
        PercentMap { entries: Vec::new() }
    }

    pub fn len(&self) -> (n: usize)
        ensures
            n == self.entries@.len(),
    {
        self.entries.len()
    }

    pub fn is_empty(&self) -> (b: bool)
        ensures
            b == (self.entries@.len() == 0),
    {
        self.entries.len() == 0
    }

    /// The sum of the percentages, saturating at `u32::MAX`.
    pub fn saturating_sum(&self) -> (total: u32)
        ensures
            total == if value_sum(self.entries@) > u32::MAX { u32::MAX as int } else { value_sum(self.entries@) },
    {
        let mut sum: u32 = 0;
        let mut i: usize = 0;
        while i < self.entries.len()
            invariant
                i <= self.entries@.len(),
                value_sum(self.entries@.subrange(0, i as int)) >= 0,
                sum == if value_sum(self.entries@.subrange(0, i as int)) > u32::MAX {
                    u32::MAX as int
                } else {
                    value_sum(self.entries@.subrange(0, i as int))
                },
            decreases self.entries@.len() - i,
        {
            proof {
                let pre = self.entries@.subrange(0, i + 1);
                assert(pre.drop_last() =~= self.entries@.subrange(0, i as int));
            }
            sum = sum.saturating_add(self.entries[i].1);
            i += 1;
        }
        assert(self.entries@.subrange(0, self.entries@.len() as int) =~= self.entries@);
        sum
    }

    /// The percentage recorded for position `k`, if any.
    pub fn get(&self, k: u32) -> (r: Option<u32>)
        ensures
            r == self.get_spec(k),
    {
        let mut i: usize = 0;
        assert(self.entries@.skip(0) =~= self.entries@);
        while i < self.entries.len()
            invariant
                i <= self.entries@.len(),
                lookup(self.entries@, k) == lookup(self.entries@.skip(i as int), k),
            decreases self.entries@.len() - i,
        {
            proof {
                assert(self.entries@.skip(i as int).drop_first() =~= self.entries@.skip(i + 1));
            }
            if self.entries[i].0 == k {
                return Some(self.entries[i].1);
            }
            i += 1;
        }
        proof {
            assert(self.entries@.skip(i as int).len() == 0);
        }
        None
    }

    /// Sets position `k` to percentage `v`.
    pub fn set(&mut self, k: u32, v: u32)
        requires
            old(self).wf(),
        ensures
            final(self).wf(),
            final(self).entries@ == set_entry(old(self).entries@, k, v),
            final(self).get_spec(k) == Some(v),
            forall|k2: u32| k2 != k ==> final(self).get_spec(k2) == old(self).get_spec(k2),
    {
        let ghost s0 = self.entries@;
        let mut i: usize = 0;
        while i < self.entries.len()
            invariant
                i <= self.entries@.len(),
                self.entries@ == s0,
                s0 == old(self).entries@,
                keys_unique(s0),
                forall|j: int| 0 <= j < i ==> s0[j].0 != k,
            decreases self.entries@.len() - i,
        {
            if self.entries[i].0 == k {
                self.entries.set(i, (k, v));
                proof {
                    lemma_set_entry_at(s0, k, v, i as int);
                }
                return;
            }
            i += 1;
        }
        self.entries.push((k, v));
        proof {
            lemma_set_entry_absent(s0, k, v);
        }
    }
}

/// `set_entry` on a key found first at index `i` replaces that entry.
pub proof fn lemma_set_entry_at(s: Seq<(u32, u32)>, k: u32, v: u32, i: int)
    requires
        keys_unique(s),
        0 <= i < s.len(),
        s[i].0 == k,
        forall|j: int| 0 <= j < i ==> s[j].0 != k,
    ensures
        set_entry(s, k, v) == s.update(i, (k, v)),
        keys_unique(s.update(i, (k, v))),
        lookup(s.update(i, (k, v)), k) == Some(v),
        forall|k2: u32| k2 != k ==> lookup(s.update(i, (k, v)), k2) == lookup(s, k2),
    decreases s.len(),
{
    if i == 0 {
        assert forall|k2: u32| k2 != k implies lookup(s.update(0, (k, v)), k2) == lookup(s, k2) by {
            assert(s.update(0, (k, v)).drop_first() =~= s.drop_first());
        }
    } else {
        let t = s.drop_first();
        assert(keys_unique(t));
        lemma_set_entry_at(t, k, v, i - 1);
        assert(seq![s[0]].add(t.update(i - 1, (k, v))) =~= s.update(i, (k, v)));
        assert(s.update(i, (k, v)).drop_first() =~= t.update(i - 1, (k, v)));
        assert forall|k2: u32| k2 != k implies lookup(s.update(i, (k, v)), k2) == lookup(s, k2) by {
            let s2 = s.update(i, (k, v));
            assert(s2[0] == s[0]);
            assert(s2.drop_first() =~= t.update(i - 1, (k, v)));
            assert(lookup(t.update(i - 1, (k, v)), k2) == lookup(t, k2));
            if s[0].0 != k2 {
                assert(lookup(s2, k2) == lookup(s2.drop_first(), k2));
                assert(lookup(s, k2) == lookup(t, k2));
            }
        }
    }
}

/// `set_entry` on an absent key appends the entry.
pub proof fn lemma_set_entry_absent(s: Seq<(u32, u32)>, k: u32, v: u32)
    requires
        keys_unique(s),
        forall|j: int| 0 <= j < s.len() ==> s[j].0 != k,
    ensures
        set_entry(s, k, v) == s.push((k, v)),
        keys_unique(s.push((k, v))),
        lookup(s.push((k, v)), k) == Some(v),
        forall|k2: u32| k2 != k ==> lookup(s.push((k, v)), k2) == lookup(s, k2),
    decreases s.len(),
{
    if s.len() == 0 {
        assert(seq![(k, v)] =~= s.push((k, v)));
        assert forall|k2: u32| k2 != k implies lookup(s.push((k, v)), k2) == lookup(s, k2) by {
            let s2 = s.push((k, v));
            assert(s2.len() == 1);
            assert(s2[0] == (k, v));
            assert(s2.drop_first().len() == 0);
            assert(lookup(s2.drop_first(), k2) == None::<u32>);
            assert(lookup(s2, k2) == lookup(s2.drop_first(), k2));
        }
    } else {
        let t = s.drop_first();
        lemma_set_entry_absent(t, k, v);
        assert(seq![s[0]].add(t.push((k, v))) =~= s.push((k, v)));
        assert(s.push((k, v)).drop_first() =~= t.push((k, v)));
        assert forall|k2: u32| k2 != k implies lookup(s.push((k, v)), k2) == lookup(s, k2) by {
            let s2 = s.push((k, v));
            assert(s2[0] == s[0]);
            assert(s2.drop_first() =~= t.push((k, v)));
            assert(lookup(t.push((k, v)), k2) == lookup(t, k2));
            if s[0].0 != k2 {
                assert(lookup(s2, k2) == lookup(s2.drop_first(), k2));
                assert(lookup(s, k2) == lookup(t, k2));
            }
        }
    }
}

} // verus!

verus! {

/// The stored record of an event.
pub struct EventRecord {
    pub id: u64,
    pub pillar: Pillar,
    pub owner: Account,
    pub token: Account,
    pub total_budget: i128,
    pub remaining_escrow: i128,
    pub release_kind: ReleaseKind,
    pub status: EventStatus,
    pub content_uri: Vec<u8>,
    pub title: Vec<u8>,
    pub created_at: u64,
    pub deadline: Option<u64>,
    pub winner_distribution: PercentMap,
    pub fee_bps_override: Option<u32>,
    /// Fixed prize amount per position, written by the migration to the
    /// prize-floor layout; empty until that migration has run.
    pub prize_floors: Vec<(u32, i128)>,
}

impl EventRecord {
    /// `self` and `other` hold the same values, byte strings compared by content.
    pub open spec fn same_as(&self, other: &EventRecord) -> bool {
        &&& self.id == other.id
        &&& self.pillar == other.pillar
        &&& self.owner == other.owner
        &&& self.token == other.token
        &&& self.total_budget == other.total_budget
        &&& self.remaining_escrow == other.remaining_escrow
        &&& self.release_kind == other.release_kind
        &&& self.status == other.status
        &&& self.content_uri@ == other.content_uri@
        &&& self.title@ == other.title@
        &&& self.created_at == other.created_at
        &&& self.deadline == other.deadline
        &&& self.winner_distribution.entries@ == other.winner_distribution.entries@
        &&& self.fee_bps_override == other.fee_bps_override
        &&& self.prize_floors@ == other.prize_floors@
    }

    /// A copy of the record.
    pub fn duplicate(&self) -> (r: EventRecord)
        ensures
            r.same_as(self),
    {
        EventRecord {
            id: self.id,
            pillar: self.pillar,
            owner: self.owner,
            token: self.token,
            total_budget: self.total_budget,
            remaining_escrow: self.remaining_escrow,
            release_kind: self.release_kind,
            status: self.status,
            content_uri: copy_vec(&self.content_uri),
            title: copy_vec(&self.title),
            created_at: self.created_at,
            deadline: self.deadline,
            winner_distribution: PercentMap { entries: copy_vec(&self.winner_distribution.entries) },
            fee_bps_override: self.fee_bps_override,
            prize_floors: copy_vec(&self.prize_floors),
        }
    }
}

/// An element-by-element copy of `v`.
pub fn copy_vec<T: Copy>(v: &Vec<T>) -> (r: Vec<T>)
    ensures
        r@ == v@,
{
    let mut r: Vec<T> = Vec::new();
    let mut i: usize = 0;
    while i < v.len()
        invariant
            i <= v@.len(),
            r@ == v@.subrange(0, i as int),
        decreases v@.len() - i,
    {
        r.push(v[i]);
        i += 1;
        assert(r@ =~= v@.subrange(0, i as int));
    }
    assert(v@.subrange(0, v@.len() as int) =~= v@);
    r
}

/// Arguments of `create_event`.
pub struct CreateEventParams {
    pub pillar: Pillar,
    pub owner: Account,
    pub token: Account,
    pub total_budget: i128,
    pub release_kind: ReleaseKind,
    pub content_uri: Vec<u8>,
    pub title: Vec<u8>,
    pub deadline: Option<u64>,
    pub winner_distribution: PercentMap,
    pub fee_bps_override: Option<u32>,
    /// Address that manages the event in place of the owner, if any.
    pub manager: Option<Account>,
}

pub struct Submission {
    pub applicant: Account,
    pub content_uri: Vec<u8>,
    pub submitted_at: u64,
}

/// A partner's running contribution to an event's escrow.
#[derive(Clone, Copy, Debug, PartialEq, Eq, Structural)]
pub struct Contribution {
    pub contributor: Account,
    pub amount: i128,
}

#[derive(Clone, Copy, Debug, PartialEq, Eq, Structural)]
pub struct Winner {
    pub recipient: Account,
    pub position: u32,
    pub amount: i128,
    pub milestone: Option<u32>,
    pub paid_at: Option<u64>,
    pub reputation_bump: Option<u32>,
}

/// Input to `select_winners`.
#[derive(Clone, Copy, Debug, PartialEq, Eq, Structural)]
pub struct WinnerSpec {
    pub recipient: Account,
    pub position: u32,
    pub reputation_bump: u32,
}

/// A prize recorded at selection, claimable once by its recipient.
#[derive(Clone, Copy, Debug, PartialEq, Eq, Structural)]
pub struct PrizeAward {
    pub position: u32,
    pub recipient: Account,
    pub anchor_idx: u32,
    pub reputation_bump: u32,
}

/// A grant milestone already paid to a recipient.
#[derive(Clone, Copy, Debug, PartialEq, Eq, Structural)]
pub struct MilestoneClaim {
    pub recipient: Account,
    pub milestone: u32,
}

#[derive(Clone, Copy, Debug, PartialEq, Eq, Structural)]
pub struct PendingAdmin {
    pub target: Account,
    pub expires_at_ledger: u32,
}

pub struct PendingUpgrade {
    pub wasm_hash: Hash32,
    pub new_version: Vec<u8>,
    pub proposed_at_ledger: u32,
    pub available_at_ledger: u32,
    pub expires_at_ledger: u32,
}

/// An operation id already used by `domain`, the address that authorized it.
#[derive(Clone, Copy, Debug, PartialEq, Eq, Structural)]
pub struct SeenOp {
    pub domain: Account,
    pub op: OpId,
}

} // verus!
