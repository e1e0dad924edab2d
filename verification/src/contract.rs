use vstd::prelude::*;

use crate::errors::Error;
use crate::types::{Account, CancellationState, Contribution, EventRecord, Invocation, MilestoneClaim, OpId, PendingAdmin, PendingUpgrade, PrizeAward, SeenOp, Submission, Winner};

verus! {

/// Everything stored for one event: the record and its per-event indexes.
pub struct EventEntry {
    pub record: EventRecord,
    /// Address that authorizes winner selection and cancellation in place of
    /// the owner, when set.
    pub manager: Option<Account>,
    /// Applicants in slot order; an applicant's slot is its index plus one.
    pub applicants: Vec<Account>,
    /// At most one submission per applicant.
    pub submissions: Vec<Submission>,
    pub winners: Vec<Winner>,
    /// Partners (never the owner) in the order of their first contribution,
    /// with their running totals.
    pub contributors: Vec<Contribution>,
    /// Sum of all partner contributions, once initialized.
    pub non_owner_total: Option<i128>,
    pub claimed_milestones: Vec<MilestoneClaim>,
    /// Milestones already paid out of a crowdfunding campaign.
    pub crowdfunding_claimed: u32,
    /// Present exactly while the event is `Cancelling`.
    pub cancellation: Option<CancellationState>,
    pub prize_awards: Vec<PrizeAward>,
    pub unclaimed_prizes: u32,
    /// Escrow balance at the first prize selection; the base of every prize.
    pub prize_base_escrow: Option<i128>,
    /// Until this time selected winners may claim before a cancel can start.
    pub prize_claim_expiry: Option<u64>,
}

/// Holds when no two submissions belong to the same applicant.
pub open spec fn submissions_unique(s: Seq<Submission>) -> bool {
    forall|i: int, j: int| 0 <= i < j < s.len() ==> s[i].applicant != s[j].applicant
}

pub open spec fn contributors_unique(s: Seq<Contribution>) -> bool {
    forall|i: int, j: int| 0 <= i < j < s.len() ==> s[i].contributor != s[j].contributor
}

pub open spec fn awards_unique(s: Seq<PrizeAward>) -> bool {
    forall|i: int, j: int| 0 <= i < j < s.len() ==> s[i].position != s[j].position
}

impl EventEntry {
    pub open spec fn wf(&self) -> bool {
        &&& self.record.winner_distribution.wf()
        &&& self.applicants@.no_duplicates()
        &&& self.applicants@.len() <= u32::MAX
        &&& submissions_unique(self.submissions@)
        &&& self.winners@.len() <= u32::MAX
        &&& contributors_unique(self.contributors@)
        &&& self.contributors@.len() <= u32::MAX
        &&& awards_unique(self.prize_awards@)
        &&& self.cancellation matches Some(st) ==> st.non_owner_total > 0
        &&& self.record.remaining_escrow >= 0
    }
}

/// The whole stored state of the events contract.
pub struct EventsContract {
    /// `None` until `initialize` has run.
    pub admin: Option<Account>,
    pub pending_admin: Option<PendingAdmin>,
    pub fee_account: Account,
    pub fee_bps: u32,
    pub profile_contract: Account,
    pub paused: bool,
    pub deployment_seq: u32,
    pub version: Option<Vec<u8>>,
    pub pending_upgrade: Option<PendingUpgrade>,
    pub migrated_to_version: Option<Vec<u8>>,
    /// Whitelisted tokens, in slot order.
    pub supported_tokens: Vec<Account>,
    pub next_event_id: Option<u64>,
    pub events: Vec<EventEntry>,
    pub seen_ops: Vec<SeenOp>,
    /// Operation ids recorded before ids were scoped by their authorizer.
    pub legacy_seen_ops: Vec<OpId>,
}

pub open spec fn event_ids_unique(s: Seq<EventEntry>) -> bool {
    forall|i: int, j: int| 0 <= i < j < s.len() ==> s[i].record.id != s[j].record.id
}

impl EventsContract {
    pub open spec fn wf(&self) -> bool {
        &&& event_ids_unique(self.events@)
        &&& forall|i: int| 0 <= i < self.events@.len() ==> (#[trigger] self.events@[i]).wf()
        &&& self.supported_tokens@.no_duplicates()
        &&& self.supported_tokens@.len() <= u32::MAX
    }

    pub open spec fn is_initialized(&self) -> bool {
        self.admin is Some
    }

    pub open spec fn has_event(&self, id: u64) -> bool {
        exists|i: int| 0 <= i < self.events@.len() && self.events@[i].record.id == id
    }

    /// Index of the event with the given id (meaningful when it exists).
    pub open spec fn event_index(&self, id: u64) -> int {
        choose|i: int| 0 <= i < self.events@.len() && self.events@[i].record.id == id
    }

    /// The stored entry of an existing event.
    pub open spec fn entry(&self, id: u64) -> EventEntry {
        self.events@[self.event_index(id)]
    }

    /// `op` was already used by `domain` (or before scoping existed).
    pub open spec fn op_seen(&self, domain: Account, op: OpId) -> bool {
        self.seen_ops@.contains(SeenOp { domain, op }) || self.legacy_seen_ops@.contains(op)
    }

    /// `new` differs from `old` at most in the entry of event `id`, which
    /// became `e`, and in the operation ids seen.
    pub open spec fn only_entry_changed(old: &EventsContract, new: &EventsContract, id: u64, e: EventEntry) -> bool {
        &&& new.events@ == old.events@.update(old.event_index(id), e)
        &&& new.admin == old.admin
        &&& new.pending_admin == old.pending_admin
        &&& new.fee_account == old.fee_account
        &&& new.fee_bps == old.fee_bps
        &&& new.profile_contract == old.profile_contract
        &&& new.paused == old.paused
        &&& new.deployment_seq == old.deployment_seq
        &&& new.version == old.version
        &&& new.pending_upgrade == old.pending_upgrade
        &&& new.migrated_to_version == old.migrated_to_version
        &&& new.supported_tokens == old.supported_tokens
        &&& new.next_event_id == old.next_event_id
        &&& new.legacy_seen_ops == old.legacy_seen_ops
    }

    /// Looks up the position of an event by id.
    pub fn find_event(&self, id: u64) -> (r: Option<usize>)
        requires
            self.wf(),
        ensures
            r is None <==> !self.has_event(id),
            r matches Some(i) ==> i < self.events@.len() && i == self.event_index(id)
                && self.events@[i as int].record.id == id,
    {
        let mut i: usize = 0;
        while i < self.events.len()
            invariant
                i <= self.events@.len(),
                forall|j: int| 0 <= j < i ==> self.events@[j].record.id != id,
            decreases self.events@.len() - i,
        {
            if self.events[i].record.id == id {
                proof {
                    self.lemma_index_of(id, i as int);
                }
                return Some(i);
            }
            i += 1;
        }
        None
    }

    /// In a well-formed state, the event found at index `i` is the one
    /// `event_index` designates.
    pub proof fn lemma_index_of(&self, id: u64, i: int)
        requires
            event_ids_unique(self.events@),
            0 <= i < self.events@.len(),
            self.events@[i].record.id == id,
        ensures
            self.has_event(id),
            self.event_index(id) == i,
    {
        let k = self.event_index(id);
        assert(0 <= k < self.events@.len() && self.events@[k].record.id == id);
        if k != i {
            if k < i {
                assert(self.events@[k].record.id != self.events@[i].record.id);
            } else {
                assert(self.events@[i].record.id != self.events@[k].record.id);
            }
        }
    }

    /// Whether `op` was already used by `domain`.
    pub fn is_op_seen(&self, domain: Account, op: OpId) -> (r: bool)
        ensures
            r == self.op_seen(domain, op),
    {
        let target = SeenOp { domain, op };
        let mut i: usize = 0;
        while i < self.seen_ops.len()
            invariant
                i <= self.seen_ops@.len(),
                forall|j: int| 0 <= j < i ==> self.seen_ops@[j] != target,
            decreases self.seen_ops@.len() - i,
        {
            if self.seen_ops[i] == target {
                assert(self.seen_ops@.contains(target));
                return true;
            }
            i += 1;
        }
        let mut k: usize = 0;
        while k < self.legacy_seen_ops.len()
            invariant
                k <= self.legacy_seen_ops@.len(),
                !self.seen_ops@.contains(target),
                forall|j: int| 0 <= j < k ==> self.legacy_seen_ops@[j] != op,
            decreases self.legacy_seen_ops@.len() - k,
        {
            if self.legacy_seen_ops[k] == op {
                assert(self.legacy_seen_ops@.contains(op));
                return true;
            }
            k += 1;
        }
        false
    }

    /// `OpAlreadySeen` when `domain` already used `op`.
    pub fn require_unseen(&self, domain: Account, op: OpId) -> (r: Result<(), Error>)
        ensures
            r is Err <==> self.op_seen(domain, op),
            r matches Err(e) ==> e == Error::OpAlreadySeen,
    {
        if self.is_op_seen(domain, op) {
            Err(Error::OpAlreadySeen)
        } else {
            Ok(())
        }
    }

    /// Records that `domain` used `op`.
    pub fn mark_seen(&mut self, domain: Account, op: OpId)
        ensures
            final(self).seen_ops@ == old(self).seen_ops@.push(SeenOp { domain, op }),
            final(self).events == old(self).events,
            final(self).legacy_seen_ops == old(self).legacy_seen_ops,
            final(self).admin == old(self).admin,
            final(self).pending_admin == old(self).pending_admin,
            final(self).fee_account == old(self).fee_account,
            final(self).fee_bps == old(self).fee_bps,
            final(self).profile_contract == old(self).profile_contract,
            final(self).paused == old(self).paused,
            final(self).deployment_seq == old(self).deployment_seq,
            final(self).version == old(self).version,
            final(self).pending_upgrade == old(self).pending_upgrade,
            final(self).migrated_to_version == old(self).migrated_to_version,
            final(self).supported_tokens == old(self).supported_tokens,
            final(self).next_event_id == old(self).next_event_id,
    {
        self.seen_ops.push(SeenOp { domain, op });
    }

    /// `Paused` while the contract is paused.
    pub fn require_not_paused(&self) -> (r: Result<(), Error>)
        ensures
            r is Err <==> self.paused,
            r matches Err(e) ==> e == Error::Paused,
    {
        if self.paused {
            Err(Error::Paused)
        } else {
            Ok(())
        }
    }

    /// The address that manages an event: its manager when set, else its owner.
    pub open spec fn manager_of(e: &EventEntry) -> Account {
        match e.manager {
            Some(m) => m,
            None => e.record.owner,
        }
    }
}

/// `Unauthorized` unless `who` signed the invocation.
pub fn require_auth(inv: &Invocation, who: Account) -> (r: Result<(), Error>)
    ensures
        r is Err <==> !inv.authorizes(who),
        r matches Err(e) ==> e == Error::Unauthorized,
{
    if inv.is_authorized(who) {
        Ok(())
    } else {
        Err(Error::Unauthorized)
    }
}

/// Index of the first occurrence of `x` in `v`.
pub fn position_of(v: &Vec<Account>, x: Account) -> (r: Option<usize>)
    ensures
        r is None <==> !v@.contains(x),
        r matches Some(i) ==> i < v@.len() && v@[i as int] == x && forall|j: int| 0 <= j < i ==> v@[j] != x,
{
    let mut i: usize = 0;
    while i < v.len()
        invariant
            i <= v@.len(),
            forall|j: int| 0 <= j < i ==> v@[j] != x,
        decreases v@.len() - i,
    {
        if v[i] == x {
            return Some(i);
        }
        i += 1;
    }
    None
}

impl EventEntry {
    /// Per-event storage of a new record, with every index empty.
    pub fn fresh(record: EventRecord) -> (e: EventEntry)
        ensures
            e.record == record,
            e.manager is None,
            e.applicants@.len() == 0,
            e.submissions@.len() == 0,
            e.winners@.len() == 0,
            e.contributors@.len() == 0,
            e.non_owner_total is None,
            e.claimed_milestones@.len() == 0,
            e.crowdfunding_claimed == 0,
            e.cancellation is None,
            e.prize_awards@.len() == 0,
            e.unclaimed_prizes == 0,
            e.prize_base_escrow is None,
            e.prize_claim_expiry is None,
    {
        EventEntry {
            record,
            manager: None,
            applicants: Vec::new(),
            submissions: Vec::new(),
            winners: Vec::new(),
            contributors: Vec::new(),
            non_owner_total: None,
            claimed_milestones: Vec::new(),
            crowdfunding_claimed: 0,
            cancellation: None,
            prize_awards: Vec::new(),
            unclaimed_prizes: 0,
            prize_base_escrow: None,
            prize_claim_expiry: None,
        }
    }
}

impl EventsContract {
    /// Replacing the entry of event `id` by `e` (same id) changes that entry
    /// only: every other event keeps its entry.
    pub proof fn lemma_entry_update(old: &EventsContract, new: &EventsContract, id: u64, e: EventEntry)
        requires
            old.wf(),
            old.has_event(id),
            e.record.id == id,
            e.wf(),
            new.events@ == old.events@.update(old.event_index(id), e),
        ensures
            event_ids_unique(new.events@),
            forall|i: int| 0 <= i < new.events@.len() ==> (#[trigger] new.events@[i]).wf(),
            new.has_event(id),
            new.event_index(id) == old.event_index(id),
            new.entry(id) == e,
            forall|id2: u64| id2 != id ==> (new.has_event(id2) <==> old.has_event(id2)),
            forall|id2: u64| id2 != id && old.has_event(id2) ==> new.entry(id2) == old.entry(id2),
    {
        let k = old.event_index(id);
        old.lemma_index_of(id, k);
        assert(event_ids_unique(new.events@)) by {
            assert forall|i: int, j: int| 0 <= i < j < new.events@.len() implies new.events@[i].record.id
                != new.events@[j].record.id by {
                assert(old.events@[i].record.id != old.events@[j].record.id);
            }
        }
        new.lemma_index_of(id, k);
        assert forall|id2: u64| id2 != id implies (new.has_event(id2) <==> old.has_event(id2)) by {
            if new.has_event(id2) {
                let j = new.event_index(id2);
                assert(old.events@[j].record.id == id2);
            }
            if old.has_event(id2) {
                let j = old.event_index(id2);
                assert(new.events@[j].record.id == id2);
            }
        }
        assert forall|id2: u64| id2 != id && old.has_event(id2) implies new.entry(id2) == old.entry(id2) by {
            let j = old.event_index(id2);
            assert(new.events@[j].record.id == id2);
            new.lemma_index_of(id2, j);
        }
    }

    /// Appending the entry of a new event `id` adds that event only.
    pub proof fn lemma_entry_push(old: &EventsContract, new: &EventsContract, id: u64, e: EventEntry)
        requires
            old.wf(),
            !old.has_event(id),
            e.record.id == id,
            e.wf(),
            new.events@ == old.events@.push(e),
        ensures
            event_ids_unique(new.events@),
            forall|i: int| 0 <= i < new.events@.len() ==> (#[trigger] new.events@[i]).wf(),
            new.has_event(id),
            new.entry(id) == e,
            forall|id2: u64| id2 != id ==> (new.has_event(id2) <==> old.has_event(id2)),
            forall|id2: u64| id2 != id && old.has_event(id2) ==> new.entry(id2) == old.entry(id2),
    {
        let n = old.events@.len() as int;
        assert(event_ids_unique(new.events@)) by {
            assert forall|i: int, j: int| 0 <= i < j < new.events@.len() implies new.events@[i].record.id
                != new.events@[j].record.id by {
                if j == n {
                    assert(old.events@[i].record.id != id);
                } else {
                    assert(old.events@[i].record.id != old.events@[j].record.id);
                }
            }
        }
        new.lemma_index_of(id, n);
        assert forall|id2: u64| id2 != id implies (new.has_event(id2) <==> old.has_event(id2)) by {
            if new.has_event(id2) {
                let j = new.event_index(id2);
                assert(j != n);
                assert(old.events@[j].record.id == id2);
            }
            if old.has_event(id2) {
                let j = old.event_index(id2);
                assert(new.events@[j].record.id == id2);
            }
        }
        assert forall|id2: u64| id2 != id && old.has_event(id2) implies new.entry(id2) == old.entry(id2) by {
            let j = old.event_index(id2);
            assert(new.events@[j].record.id == id2);
            new.lemma_index_of(id2, j);
        }
    }
}

} // verus!
