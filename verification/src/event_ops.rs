use vstd::prelude::*;

use crate::admin::MAX_FEE_BPS;
use crate::bounty;
use crate::bounty::bounty_create_error;
use crate::contract::{require_auth, EventEntry, EventsContract};
use crate::crowdfunding;
use crate::crowdfunding::crowdfunding_create_error;
use crate::effects::Effect;
use crate::errors::Error;
use crate::arith::{clamp_i128, sat_add};
use crate::contract::{contributors_unique, submissions_unique};
use crate::escrow::{deposit_no_fee, deposit_with_fee_at, deposit_with_fee_effects, effective_bps, effective_fee_bps, fee_at};
use crate::events::{EventCreated, FundsAdded, Notice, SubmissionWithdrawn, Submitted};
use crate::grant;
use crate::grant::grant_create_error;
use crate::hackathon;
use crate::hackathon::hackathon_create_error;
use crate::types::{
    copy_vec, value_sum, Account, Contribution, CreateEventParams, EventRecord, EventStatus, Invocation, OpId,
    Pillar, ReleaseKind, SeenOp, Submission, Winner,
};

verus! {

/// Longest accepted event title, in bytes.
pub const MAX_TITLE_LEN: usize = 120;

/// Per-call cap on winners in `select_winners`.
pub const MAX_WINNERS_PER_SELECT: u32 = 50;

/// Time selected winners have to claim their prizes (90 days, in seconds).
pub const PRIZE_CLAIM_WINDOW_SECS: u64 = 7_776_000;

/// Page size of the applicant and contributor listings.
pub const MAX_APPLICANTS_PER_EVENT: u32 = 5_000;
pub const MAX_CONTRIBUTORS_PER_EVENT: u32 = 5_000;

/// Cap on refunds paid by one `process_cancel_batch` call.
pub const MAX_REFUNDS_PER_BATCH: u32 = 25;

/// Smallest accepted contribution (10 tokens at 7 decimals).
pub const MIN_CONTRIBUTION_STROOPS: i128 = 100_000_000;

/// Why the pillar's own rules refuse a new event, if they do.
pub open spec fn pillar_create_error(pillar: Pillar, release_kind: ReleaseKind, deadline: Option<u64>, positions: nat) -> Option<Error> {
    match pillar {
        Pillar::Hackathon => hackathon_create_error(release_kind, deadline),
        Pillar::Bounty => bounty_create_error(release_kind),
        Pillar::Grant => grant_create_error(release_kind),
        Pillar::Crowdfunding => crowdfunding_create_error(release_kind, deadline, positions),
    }
}

impl EventEntry {
    /// Every per-event index is empty, as for an event never stored before.
    pub open spec fn indexes_empty(&self) -> bool {
        &&& self.applicants@.len() == 0
        &&& self.submissions@.len() == 0
        &&& self.contributors@.len() == 0
        &&& self.claimed_milestones@.len() == 0
        &&& self.crowdfunding_claimed == 0
        &&& self.cancellation is None
        &&& self.prize_awards@.len() == 0
        &&& self.unclaimed_prizes == 0
        &&& self.prize_base_escrow is None
        &&& self.prize_claim_expiry is None
    }
}

impl EventsContract {
    /// Why `create_event` is refused, if it is, in the order the checks run.
    pub open spec fn create_event_error(&self, inv: &Invocation, params: &CreateEventParams, op: OpId) -> Option<Error> {
        if self.paused {
            Some(Error::Paused)
        } else if self.op_seen(params.owner, op) {
            Some(Error::OpAlreadySeen)
        } else if !inv.authorizes(params.owner) {
            Some(Error::Unauthorized)
        } else if !self.token_supported(params.token) {
            Some(Error::TokenNotSupported)
        } else if params.title@.len() > MAX_TITLE_LEN {
            Some(Error::TitleTooLong)
        } else if params.total_budget <= 0 {
            Some(Error::InvalidBudget)
        } else if params.winner_distribution.entries@.len() == 0 {
            Some(Error::InvalidDistribution)
        } else if value_sum(params.winner_distribution.entries@) != 100 {
            Some(Error::DistributionMismatch)
        } else if params.deadline matches Some(d) && d <= inv.timestamp {
            Some(Error::DeadlineMustBeFuture)
        } else if params.fee_bps_override matches Some(b) && b > MAX_FEE_BPS {
            Some(Error::InvalidFeeBps)
        } else if pillar_create_error(params.pillar, params.release_kind, params.deadline,
            params.winner_distribution.entries@.len()) is Some {
            pillar_create_error(params.pillar, params.release_kind, params.deadline, params.winner_distribution.entries@.len())
        } else if self.next_id_spec() == u64::MAX {
            Some(Error::EventIdOverflow)
        } else {
            None
        }
    }

    /// Stores `record` under its id: it replaces the record of an existing
    /// event with that id (keeping that event's indexes), or starts a new
    /// entry with empty indexes.
    fn store_record(&mut self, record: EventRecord) -> (idx: usize)
        requires
            old(self).wf(),
            record.winner_distribution.wf(),
            record.remaining_escrow >= 0,
        ensures
            final(self).wf(),
            final(self).has_event(record.id),
            idx == final(self).event_index(record.id),
            idx < final(self).events@.len(),
            final(self).entry(record.id).record == record,
            old(self).has_event(record.id) ==> final(self).entry(record.id) == (EventEntry {
                record,
                ..old(self).entry(record.id)
            }),
            !old(self).has_event(record.id) ==> final(self).entry(record.id).indexes_empty()
                && final(self).entry(record.id).manager is None
                && final(self).entry(record.id).winners@.len() == 0
                && final(self).entry(record.id).non_owner_total is None,
            forall|id2: u64| id2 != record.id ==> (final(self).has_event(id2) <==> old(self).has_event(id2)),
            forall|id2: u64| id2 != record.id && old(self).has_event(id2) ==> final(self).entry(id2) == old(self).entry(id2),
            *final(self) == (EventsContract { events: final(self).events, ..*old(self) }),
    {
        let id = record.id;
        let ghost before = *self;
        match self.find_event(id) {
            Some(i) => {
                let ghost e = EventEntry { record, ..self.events@[i as int] };
                self.events[i].record = record;
                proof {
                    assert(self.events@ == before.events@.update(i as int, e));
                    EventsContract::lemma_entry_update(&before, self, id, e);
                }
                i
            },
            None => {
                let e = EventEntry::fresh(record);
                let ghost eg = e;
                self.events.push(e);
                proof {
                    EventsContract::lemma_entry_push(&before, self, id, eg);
                    self.lemma_index_of(id, before.events@.len() as int);
                }
                self.events.len() - 1
            },
        }
    }

    /// Creates an event: validates the parameters, takes the owner's budget
    /// plus fee into escrow (a crowdfunding campaign starts with an empty
    /// escrow and its owner registered as the single winner), stores the
    /// record under the next id and returns that id.
    pub fn create_event(&mut self, inv: &Invocation, params: CreateEventParams, op: OpId) -> (r: Result<
        (u64, Vec<Effect>),
        Error,
    >)
        requires
            old(self).wf(),
            params.winner_distribution.wf(),
        ensures
            final(self).wf(),
            r is Err ==> *final(self) == *old(self),
            r is Err <==> old(self).create_event_error(inv, &params, op) is Some,
            r matches Err(e) ==> Some(e) == old(self).create_event_error(inv, &params, op),
            r matches Ok((id, fx)) ==> {
                let is_cf = params.pillar == Pillar::Crowdfunding;
                let rec = EventRecord {
                    id,
                    pillar: params.pillar,
                    owner: params.owner,
                    token: params.token,
                    total_budget: params.total_budget,
                    remaining_escrow: if is_cf { 0 } else { params.total_budget },
                    release_kind: params.release_kind,
                    status: EventStatus::Active,
                    content_uri: params.content_uri,
                    title: params.title,
                    created_at: inv.timestamp,
                    deadline: params.deadline,
                    winner_distribution: params.winner_distribution,
                    fee_bps_override: params.fee_bps_override,
                    prize_floors: final(self).entry(id).record.prize_floors,
                };
                let e = final(self).entry(id);
                let prior_winners = if old(self).has_event(id) { old(self).entry(id).winners@ } else { seq![] };
                let builder = Winner {
                    recipient: params.owner,
                    position: 1,
                    amount: 0,
                    milestone: None,
                    paid_at: None,
                    reputation_bump: None,
                };
                let bps = effective_bps(params.fee_bps_override, old(self).fee_bps);
                let n = fx@.len() - 1;
                &&& EventsContract::id_issued(old(self), final(self), id)
                &&& final(self).has_event(id)
                &&& e.record == rec
                &&& rec.prize_floors@.len() == 0
                &&& e.non_owner_total == Some(0i128)
                &&& e.manager == match params.manager {
                    Some(m) => Some(m),
                    None => if old(self).has_event(id) { old(self).entry(id).manager } else { None },
                }
                &&& e.winners@ == if is_cf && prior_winners.len() < u32::MAX { prior_winners.push(builder) } else { prior_winners }
                &&& old(self).has_event(id) ==> e == (EventEntry {
                    record: e.record,
                    non_owner_total: e.non_owner_total,
                    manager: e.manager,
                    winners: e.winners,
                    ..old(self).entry(id)
                })
                &&& !old(self).has_event(id) ==> e.indexes_empty()
                &&& forall|id2: u64| id2 != id ==> (final(self).has_event(id2) <==> old(self).has_event(id2))
                &&& forall|id2: u64| id2 != id && old(self).has_event(id2) ==> final(self).entry(id2) == old(self).entry(id2)
                &&& final(self).seen_ops@ == old(self).seen_ops@.push(SeenOp { domain: params.owner, op })
                &&& *final(self) == (EventsContract {
                    events: final(self).events,
                    seen_ops: final(self).seen_ops,
                    next_event_id: final(self).next_event_id,
                    ..*old(self)
                })
                &&& fx@.len() >= 1
                &&& if is_cf {
                    n == 0
                } else {
                    deposit_with_fee_effects(params.token, params.owner, params.total_budget, bps,
                        old(self).fee_account, fx@.subrange(0, n))
                }
                &&& fx@[n] matches Effect::Publish(Notice::EventCreated(c)) && c.id == id
                    && c.pillar == params.pillar && c.owner == params.owner && c.token == params.token
                    && c.total_budget == params.total_budget && c.content_uri@ == params.content_uri@
                    && c.title@ == params.title@
            },
    {
        self.require_not_paused()?;
        self.require_unseen(params.owner, op)?;
        require_auth(inv, params.owner)?;
        self.require_supported(params.token)?;
        if params.title.len() > MAX_TITLE_LEN {
            return Err(Error::TitleTooLong);
        }
        if params.total_budget <= 0 {
            return Err(Error::InvalidBudget);
        }
        if params.winner_distribution.is_empty() {
            return Err(Error::InvalidDistribution);
        }
        if params.winner_distribution.saturating_sum() != 100 {
            return Err(Error::DistributionMismatch);
        }
        if let Some(deadline) = params.deadline {
            if deadline <= inv.timestamp {
                return Err(Error::DeadlineMustBeFuture);
            }
        }
        if let Some(bps) = params.fee_bps_override {
            if bps > MAX_FEE_BPS {
                return Err(Error::InvalidFeeBps);
            }
        }
        let effective = effective_fee_bps(params.fee_bps_override, self.fee_bps);
        let is_crowdfunding = params.pillar == Pillar::Crowdfunding;
        let initial_escrow: i128 = if is_crowdfunding { 0 } else { params.total_budget };
        let owner = params.owner;
        let token = params.token;
        let total_budget = params.total_budget;
        let pillar = params.pillar;
        let manager = params.manager;
        let uri_copy = copy_vec(&params.content_uri);
        let title_copy = copy_vec(&params.title);
        let mut record = EventRecord {
            id: 0,
            pillar,
            owner,
            token,
            total_budget,
            remaining_escrow: initial_escrow,
            release_kind: params.release_kind,
            status: EventStatus::Active,
            content_uri: params.content_uri,
            title: params.title,
            created_at: inv.timestamp,
            deadline: params.deadline,
            winner_distribution: params.winner_distribution,
            fee_bps_override: params.fee_bps_override,
            prize_floors: Vec::new(),
        };
        match pillar {
            Pillar::Hackathon => hackathon::validate_create(&record)?,
            Pillar::Bounty => bounty::validate_create(&record)?,
            Pillar::Grant => grant::validate_create(&record)?,
            Pillar::Crowdfunding => crowdfunding::validate_create(&record)?,
        }
        let upcoming = match self.next_event_id {
            Some(n) => n,
            None => self.id_base().saturating_add(1),
        };
        if upcoming == u64::MAX {
            return Err(Error::EventIdOverflow);
        }
        let mut fx: Vec<Effect> = Vec::new();
        if !is_crowdfunding {
            deposit_with_fee_at(token, owner, total_budget, effective, self.fee_account, &mut fx);
        }
        let ghost deposit_fx = fx@;
        let ghost before = *self;
        let id = self.next_event_id();
        record.id = id;
        let ghost stored_before = *self;
        let idx = self.store_record(record);
        let ghost after_store = *self;
        let ghost e0 = self.events@[idx as int];
        self.events[idx].non_owner_total = Some(0);
        assert(self.events@.len() == after_store.events@.len());
        assert(self.events@ =~= after_store.events@.update(idx as int, self.events@[idx as int]));
        if let Some(m) = manager {
            self.events[idx].manager = Some(m);
        }
        if is_crowdfunding {
            if self.events[idx].winners.len() < 0xFFFF_FFFFusize {
                self.events[idx].winners.push(
                    Winner {
                        recipient: owner,
                        position: 1,
                        amount: 0,
                        milestone: None,
                        paid_at: None,
                        reputation_bump: None,
                    },
                );
            }
        }
        proof {
            let e1 = self.events@[idx as int];
            assert(idx == after_store.event_index(id));
            assert(self.events@ =~= after_store.events@.update(idx as int, e1));
            assert(e1.wf());
            EventsContract::lemma_entry_update(&after_store, self, id, e1);
            assert(stored_before.events == old(self).events);
            assert forall|id2: u64| id2 != id implies (self.has_event(id2) <==> old(self).has_event(id2)) by {
                assert(self.has_event(id2) == after_store.has_event(id2));
                assert(after_store.has_event(id2) == stored_before.has_event(id2));
            }
            assert forall|id2: u64| id2 != id && old(self).has_event(id2) implies self.entry(id2) == old(self).entry(
                id2,
            ) by {
                assert(stored_before.has_event(id2));
                assert(after_store.has_event(id2));
                assert(self.entry(id2) == after_store.entry(id2));
                assert(after_store.entry(id2) == stored_before.entry(id2));
            }
        }
        fx.push(
            Effect::Publish(
                Notice::EventCreated(
                    EventCreated { id, pillar, owner, token, total_budget, content_uri: uri_copy, title: title_copy },
                ),
            ),
        );
        self.mark_seen(owner, op);
        proof {
            assert(fx@.subrange(0, fx@.len() - 1) =~= deposit_fx);
        }
        Ok((id, fx))
    }
}


/// The running contribution of `who` (zero when absent).
pub open spec fn contribution_of(s: Seq<Contribution>, who: Account) -> i128
    decreases s.len(),
{
    if s.len() == 0 {
        0
    } else if s.last().contributor == who {
        s.last().amount
    } else {
        contribution_of(s.drop_last(), who)
    }
}

pub open spec fn is_contributor(s: Seq<Contribution>, who: Account) -> bool {
    exists|i: int| 0 <= i < s.len() && s[i].contributor == who
}

/// Contributors after `who` is credited with `credited`: its entry grows
/// (saturating), or a new entry is appended.
pub open spec fn contributors_after_credit(s: Seq<Contribution>, who: Account, credited: i128) -> Seq<Contribution> {
    if is_contributor(s, who) {
        let k = choose|k: int| 0 <= k < s.len() && s[k].contributor == who;
        s.update(k, Contribution { contributor: who, amount: clamp_i128(s[k].amount + credited) })
    } else {
        s.push(Contribution { contributor: who, amount: credited })
    }
}

/// In a key-unique list, the amount at the index holding `who` is
/// `contribution_of(s, who)`.
pub proof fn lemma_contribution_at(s: Seq<Contribution>, who: Account, k: int)
    requires
        contributors_unique(s),
        0 <= k < s.len(),
        s[k].contributor == who,
    ensures
        contribution_of(s, who) == s[k].amount,
    decreases s.len(),
{
    if k != s.len() - 1 {
        assert(s.last().contributor != who);
        assert(s.drop_last()[k] == s[k]);
        lemma_contribution_at(s.drop_last(), who, k);
    }
}

/// Absent contributors have contributed nothing.
pub proof fn lemma_contribution_absent(s: Seq<Contribution>, who: Account)
    requires
        !is_contributor(s, who),
    ensures
        contribution_of(s, who) == 0,
    decreases s.len(),
{
    if s.len() > 0 {
        assert(s.last().contributor != who);
        assert forall|i: int| 0 <= i < s.drop_last().len() implies s.drop_last()[i].contributor != who by {
            assert(s.drop_last()[i] == s[i]);
        }
        lemma_contribution_absent(s.drop_last(), who);
    }
}

pub open spec fn has_submission(s: Seq<Submission>, who: Account) -> bool {
    exists|i: int| 0 <= i < s.len() && s[i].applicant == who
}

/// Index of the submission of `who` (meaningful when it has one).
pub open spec fn submission_index(s: Seq<Submission>, who: Account) -> int {
    choose|i: int| 0 <= i < s.len() && s[i].applicant == who
}

/// Position of `who`'s entry in a contributor list.
pub fn find_contributor(v: &Vec<Contribution>, who: Account) -> (r: Option<usize>)
    requires
        contributors_unique(v@),
    ensures
        r is None <==> !is_contributor(v@, who),
        r matches Some(k) ==> k < v@.len() && v@[k as int].contributor == who
            && k == choose|k: int| 0 <= k < v@.len() && v@[k].contributor == who,
{
    let mut i: usize = 0;
    while i < v.len()
        invariant
            i <= v@.len(),
            forall|j: int| 0 <= j < i ==> v@[j].contributor != who,
        decreases v@.len() - i,
    {
        if v[i].contributor == who {
            proof {
                let c = choose|k: int| 0 <= k < v@.len() && v@[k].contributor == who;
                if c != i as int {
                    if c < i {
                        assert(v@[c].contributor != v@[i as int].contributor);
                    } else {
                        assert(v@[i as int].contributor != v@[c].contributor);
                    }
                }
            }
            return Some(i);
        }
        i += 1;
    }
    None
}

/// Position of `who`'s submission.
pub fn find_submission(v: &Vec<Submission>, who: Account) -> (r: Option<usize>)
    requires
        submissions_unique(v@),
    ensures
        r is None <==> !has_submission(v@, who),
        r matches Some(k) ==> k < v@.len() && v@[k as int].applicant == who && k == submission_index(v@, who),
{
    let mut i: usize = 0;
    while i < v.len()
        invariant
            i <= v@.len(),
            forall|j: int| 0 <= j < i ==> v@[j].applicant != who,
        decreases v@.len() - i,
    {
        if v[i].applicant == who {
            proof {
                let c = submission_index(v@, who);
                if c != i as int {
                    if c < i {
                        assert(v@[c].applicant != v@[i as int].applicant);
                    } else {
                        assert(v@[i as int].applicant != v@[c].applicant);
                    }
                }
            }
            return Some(i);
        }
        i += 1;
    }
    None
}

impl EventsContract {
    /// Why `add_funds` is refused, if it is.
    pub open spec fn add_funds_error(&self, inv: &Invocation, event_id: u64, from: Account, amount: i128, op: OpId) -> Option<Error> {
        if self.paused {
            Some(Error::Paused)
        } else if self.op_seen(from, op) {
            Some(Error::OpAlreadySeen)
        } else if amount <= 0 {
            Some(Error::InvalidContributionAmount)
        } else if amount < MIN_CONTRIBUTION_STROOPS {
            Some(Error::BelowMinimumContribution)
        } else if !self.has_event(event_id) {
            Some(Error::EventNotFound)
        } else if self.entry(event_id).record.status != EventStatus::Active {
            Some(Error::EventNotActive)
        } else if !inv.authorizes(from) {
            Some(Error::Unauthorized)
        } else if from != self.entry(event_id).record.owner && self.entry(event_id).non_owner_total is None
            && self.entry(event_id).contributors@.len() != 0 {
            Some(Error::CancellationTotalMissing)
        } else if from != self.entry(event_id).record.owner && !is_contributor(self.entry(event_id).contributors@, from)
            && self.entry(event_id).contributors@.len() == u32::MAX {
            Some(Error::TooManyContributors)
        } else {
            None
        }
    }

    /// `new` is `old` after `from` topped up event `event_id` with `amount`:
    /// the escrow grows by it (saturating), a partner (anyone but the owner)
    /// is credited in the contributor list and the partner total, the
    /// operation id is recorded, and nothing else changes.
    pub open spec fn funds_added(old: &EventsContract, new: &EventsContract, event_id: u64, from: Account, amount: i128, op: OpId) -> bool {
        let e0 = old.entry(event_id);
        let rec = e0.record;
        let e = new.entry(event_id);
        let non_owner = from != rec.owner;
        &&& new.has_event(event_id)
        &&& e.record == (EventRecord { remaining_escrow: clamp_i128(rec.remaining_escrow + amount), ..rec })
        &&& e.contributors@ == if non_owner {
            contributors_after_credit(e0.contributors@, from, amount)
        } else {
            e0.contributors@
        }
        &&& e.non_owner_total == if non_owner {
            Some(clamp_i128(match e0.non_owner_total { Some(t) => t, None => 0 } + amount))
        } else {
            e0.non_owner_total
        }
        &&& e == (EventEntry {
            record: e.record,
            contributors: e.contributors,
            non_owner_total: e.non_owner_total,
            ..e0
        })
        &&& EventsContract::only_entry_changed(old, new, event_id, e)
        &&& new.seen_ops@ == old.seen_ops@.push(SeenOp { domain: from, op })
    }

    /// Tops up an active event's escrow. Partners (anyone but the owner) are
    /// recorded as contributors so a cancellation can refund them first. The
    /// payer adds the fee on top, except for crowdfunding, where the fee is
    /// taken at release instead.
    pub fn add_funds(&mut self, inv: &Invocation, event_id: u64, from: Account, amount: i128, op: OpId) -> (r: Result<
        Vec<Effect>,
        Error,
    >)
        requires
            old(self).wf(),
        ensures
            final(self).wf(),
            r is Err ==> *final(self) == *old(self),
            r is Err <==> old(self).add_funds_error(inv, event_id, from, amount, op) is Some,
            r matches Err(e) ==> Some(e) == old(self).add_funds_error(inv, event_id, from, amount, op),
            r matches Ok(fx) ==> {
                let rec = old(self).entry(event_id).record;
                let e = final(self).entry(event_id);
                let is_cf = rec.pillar == Pillar::Crowdfunding;
                let bps = effective_bps(rec.fee_bps_override, old(self).fee_bps);
                let n = fx@.len() - 1;
                &&& EventsContract::funds_added(old(self), final(self), event_id, from, amount, op)
                &&& fx@.len() == if is_cf { 2int } else if fee_at(amount, bps) > 0 { 3int } else { 2int }
                &&& if is_cf {
                    n == 1 && fx@[0] == Effect::Collect { token: rec.token, from, amount }
                } else {
                    deposit_with_fee_effects(rec.token, from, amount, bps, old(self).fee_account, fx@.subrange(0, n))
                }
                &&& fx@[n] == Effect::Publish(Notice::FundsAdded(FundsAdded {
                    event_id,
                    contributor: from,
                    amount,
                    new_remaining: e.record.remaining_escrow,
                }))
            },
    {
        self.require_not_paused()?;
        self.require_unseen(from, op)?;
        if amount <= 0 {
            return Err(Error::InvalidContributionAmount);
        }
        if amount < MIN_CONTRIBUTION_STROOPS {
            return Err(Error::BelowMinimumContribution);
        }
        let idx = match self.find_event(event_id) {
            Some(i) => i,
            None => return Err(Error::EventNotFound),
        };
        if self.events[idx].record.status != EventStatus::Active {
            return Err(Error::EventNotActive);
        }
        require_auth(inv, from)?;
        let owner = self.events[idx].record.owner;
        let token = self.events[idx].record.token;
        let is_non_owner = from != owner;
        let slot = find_contributor(&self.events[idx].contributors, from);
        let total_before: i128 = if is_non_owner {
            match self.events[idx].non_owner_total {
                Some(t) => t,
                None => {
                    if self.events[idx].contributors.len() == 0 {
                        0
                    } else {
                        return Err(Error::CancellationTotalMissing);
                    }
                },
            }
        } else {
            0
        };
        if is_non_owner && slot.is_none() && self.events[idx].contributors.len() >= 0xFFFF_FFFFusize {
            return Err(Error::TooManyContributors);
        }
        let mut fx: Vec<Effect> = Vec::new();
        let credited = if self.events[idx].record.pillar == Pillar::Crowdfunding {
            deposit_no_fee(token, from, amount, &mut fx)
        } else {
            let bps = effective_fee_bps(self.events[idx].record.fee_bps_override, self.fee_bps);
            deposit_with_fee_at(token, from, amount, bps, self.fee_account, &mut fx)
        };
        let ghost deposit_fx = fx@;
        let ghost before = *self;
        let new_remaining = sat_add(self.events[idx].record.remaining_escrow, credited);
        self.events[idx].record.remaining_escrow = new_remaining;
        if is_non_owner {
            match slot {
                Some(k) => {
                    let prior = self.events[idx].contributors[k].amount;
                    self.events[idx].contributors.set(k, Contribution { contributor: from, amount: sat_add(prior, credited) });
                },
                None => {
                    self.events[idx].contributors.push(Contribution { contributor: from, amount: credited });
                },
            }
            self.events[idx].non_owner_total = Some(sat_add(total_before, credited));
        }
        proof {
            let e1 = self.events@[idx as int];
            let c0 = before.events@[idx as int].contributors@;
            assert(self.events@ =~= before.events@.update(idx as int, e1));
            if is_non_owner {
                assert(contributors_unique(e1.contributors@)) by {
                    assert forall|i: int, j: int| 0 <= i < j < e1.contributors@.len() implies e1.contributors@[i].contributor
                        != e1.contributors@[j].contributor by {
                        if slot is None && j == c0.len() {
                            assert(c0[i].contributor != from);
                        } else if slot is Some {
                            let k = slot->0 as int;
                            if i != k && j != k {
                                assert(c0[i].contributor != c0[j].contributor);
                            } else if i == k {
                                assert(c0[k].contributor != c0[j].contributor);
                            } else {
                                assert(c0[i].contributor != c0[k].contributor);
                            }
                        } else {
                            assert(c0[i].contributor != c0[j].contributor);
                        }
                    }
                }
            }
            assert(e1.wf());
            EventsContract::lemma_entry_update(&before, self, event_id, e1);
        }
        fx.push(Effect::Publish(Notice::FundsAdded(FundsAdded {
            event_id,
            contributor: from,
            amount: credited,
            new_remaining,
        })));
        self.mark_seen(from, op);
        proof {
            assert(fx@.subrange(0, fx@.len() - 1) =~= deposit_fx);
        }
        Ok(fx)
    }
}


impl EventsContract {
    /// `DeadlinePassed` applies: the event has a deadline no later than now.
    pub open spec fn deadline_passed(rec: &EventRecord, now: u64) -> bool {
        rec.deadline matches Some(d) && d <= now
    }

    /// Why `submit` is refused, if it is.
    pub open spec fn submit_error(&self, inv: &Invocation, event_id: u64, applicant: Account, op: OpId) -> Option<Error> {
        if self.paused {
            Some(Error::Paused)
        } else if self.op_seen(applicant, op) {
            Some(Error::OpAlreadySeen)
        } else if !self.has_event(event_id) {
            Some(Error::EventNotFound)
        } else if self.entry(event_id).record.status != EventStatus::Active {
            Some(Error::EventNotActive)
        } else if self.entry(event_id).record.pillar == Pillar::Crowdfunding {
            Some(Error::InvalidPillar)
        } else if EventsContract::deadline_passed(&self.entry(event_id).record, inv.timestamp) {
            Some(Error::DeadlinePassed)
        } else if !inv.authorizes(applicant) {
            Some(Error::Unauthorized)
        } else if !has_submission(self.entry(event_id).submissions@, applicant)
            && (self.entry(event_id).record.pillar == Pillar::Bounty || self.entry(event_id).record.pillar == Pillar::Grant)
            && !self.entry(event_id).applicants@.contains(applicant) {
            Some(Error::ApplicantNotApplied)
        } else {
            None
        }
    }

    /// `new` is `old` with `applicant`'s submission to event `event_id` set
    /// to `content_uri`, stamped with the time of the first submission (now,
    /// when there was none); the operation id is recorded and nothing else
    /// changes.
    pub open spec fn submission_recorded(
        old: &EventsContract,
        new: &EventsContract,
        inv: &Invocation,
        event_id: u64,
        applicant: Account,
        content_uri: Vec<u8>,
        op: OpId,
    ) -> bool {
        let e0 = old.entry(event_id);
        let e = new.entry(event_id);
        let existed = has_submission(e0.submissions@, applicant);
        let at = if existed { e0.submissions@[submission_index(e0.submissions@, applicant)].submitted_at } else { inv.timestamp };
        &&& new.has_event(event_id)
        &&& has_submission(e.submissions@, applicant)
        &&& e.submissions@[submission_index(e.submissions@, applicant)] == (Submission { applicant, content_uri, submitted_at: at })
        &&& forall|who: Account| who != applicant ==> (has_submission(e.submissions@, who) <==> has_submission(e0.submissions@, who))
        &&& forall|who: Account| who != applicant && has_submission(e0.submissions@, who)
            ==> e.submissions@[submission_index(e.submissions@, who)] == e0.submissions@[submission_index(e0.submissions@, who)]
        &&& e == (EventEntry { submissions: e.submissions, ..e0 })
        &&& EventsContract::only_entry_changed(old, new, event_id, e)
        &&& new.seen_ops@ == old.seen_ops@.push(SeenOp { domain: applicant, op })
    }

    /// Records (or replaces) `applicant`'s submission to an open event.
    /// Bounties and grants take submissions only from applicants. A
    /// replacement keeps the time of the first submission.
    pub fn submit(&mut self, inv: &Invocation, event_id: u64, applicant: Account, content_uri: Vec<u8>, op: OpId) -> (r:
        Result<Vec<Effect>, Error>)
        requires
            old(self).wf(),
        ensures
            final(self).wf(),
            r is Err ==> *final(self) == *old(self),
            r is Err <==> old(self).submit_error(inv, event_id, applicant, op) is Some,
            r matches Err(e) ==> Some(e) == old(self).submit_error(inv, event_id, applicant, op),
            r matches Ok(fx) ==> {
                &&& EventsContract::submission_recorded(old(self), final(self), inv, event_id, applicant, content_uri, op)
                &&& fx@.len() == 1
                &&& fx@[0] matches Effect::Publish(Notice::Submitted(n)) && n.event_id == event_id
                    && n.applicant == applicant && n.content_uri@ == content_uri@
            },
    {
        self.require_not_paused()?;
        self.require_unseen(applicant, op)?;
        let idx = match self.find_event(event_id) {
            Some(i) => i,
            None => return Err(Error::EventNotFound),
        };
        if self.events[idx].record.status != EventStatus::Active {
            return Err(Error::EventNotActive);
        }
        let pillar = self.events[idx].record.pillar;
        if pillar == Pillar::Crowdfunding {
            return Err(Error::InvalidPillar);
        }
        if let Some(deadline) = self.events[idx].record.deadline {
            if deadline <= inv.timestamp {
                return Err(Error::DeadlinePassed);
            }
        }
        require_auth(inv, applicant)?;
        let existing = find_submission(&self.events[idx].submissions, applicant);
        if existing.is_none() {
            let needs_application = pillar == Pillar::Bounty || pillar == Pillar::Grant;
            if needs_application && crate::contract::position_of(&self.events[idx].applicants, applicant).is_none() {
                return Err(Error::ApplicantNotApplied);
            }
        }
        let uri_copy = copy_vec(&content_uri);
        let ghost before = *self;
        let ghost s0 = self.events@[idx as int].submissions@;
        match existing {
            Some(k) => {
                let at = self.events[idx].submissions[k].submitted_at;
                self.events[idx].submissions.set(k, Submission { applicant, content_uri, submitted_at: at });
            },
            None => {
                self.events[idx].submissions.push(
                    Submission { applicant, content_uri, submitted_at: inv.timestamp },
                );
            },
        }
        proof {
            let e1 = self.events@[idx as int];
            let s1 = e1.submissions@;
            assert(self.events@ =~= before.events@.update(idx as int, e1));
            let pos = match existing { Some(k) => k as int, None => s0.len() as int };
            assert(submissions_unique(s1)) by {
                assert forall|i: int, j: int| 0 <= i < j < s1.len() implies s1[i].applicant != s1[j].applicant by {
                    if i != pos && j != pos {
                        assert(s0[i].applicant != s0[j].applicant);
                    } else if i == pos {
                        if existing is Some { assert(s0[i].applicant != s0[j].applicant); }
                    } else {
                        if existing is Some { assert(s0[i].applicant != s0[j].applicant); } else {
                            assert(s0[i].applicant != applicant);
                        }
                    }
                }
            }
            assert(s1[pos].applicant == applicant);
            lemma_submission_index(s1, applicant, pos);
            assert forall|who: Account| who != applicant implies (has_submission(s1, who) <==> has_submission(s0, who)) by {
                if has_submission(s1, who) {
                    let j = submission_index(s1, who);
                    assert(j != pos);
                    assert(s0[j].applicant == who);
                }
                if has_submission(s0, who) {
                    let j = submission_index(s0, who);
                    assert(j != pos);
                    assert(s1[j].applicant == who);
                }
            }
            assert forall|who: Account| who != applicant && has_submission(s0, who) implies s1[submission_index(s1, who)]
                == s0[submission_index(s0, who)] by {
                let j = submission_index(s0, who);
                assert(j != pos);
                assert(s1[j] == s0[j]);
                lemma_submission_index(s1, who, j);
            }
            assert(e1.wf());
            EventsContract::lemma_entry_update(&before, self, event_id, e1);
        }
        let mut fx: Vec<Effect> = Vec::new();
        fx.push(Effect::Publish(Notice::Submitted(Submitted { event_id, applicant, content_uri: uri_copy })));
        self.mark_seen(applicant, op);
        Ok(fx)
    }

    /// Why `withdraw_submission` is refused, if it is.
    pub open spec fn withdraw_submission_error(&self, inv: &Invocation, event_id: u64, applicant: Account, op: OpId) -> Option<Error> {
        if self.paused {
            Some(Error::Paused)
        } else if self.op_seen(applicant, op) {
            Some(Error::OpAlreadySeen)
        } else if !self.has_event(event_id) {
            Some(Error::EventNotFound)
        } else if self.entry(event_id).record.status != EventStatus::Active {
            Some(Error::EventNotActive)
        } else if EventsContract::deadline_passed(&self.entry(event_id).record, inv.timestamp) {
            Some(Error::DeadlinePassed)
        } else if !inv.authorizes(applicant) {
            Some(Error::Unauthorized)
        } else if !has_submission(self.entry(event_id).submissions@, applicant) {
            Some(Error::SubmissionNotFound)
        } else {
            None
        }
    }

    /// Removes `applicant`'s submission from an open event.
    pub fn withdraw_submission(&mut self, inv: &Invocation, event_id: u64, applicant: Account, op: OpId) -> (r: Result<
        Vec<Effect>,
        Error,
    >)
        requires
            old(self).wf(),
        ensures
            final(self).wf(),
            r is Err ==> *final(self) == *old(self),
            r is Err <==> old(self).withdraw_submission_error(inv, event_id, applicant, op) is Some,
            r matches Err(e) ==> Some(e) == old(self).withdraw_submission_error(inv, event_id, applicant, op),
            r matches Ok(fx) ==> {
                let e0 = old(self).entry(event_id);
                let e = final(self).entry(event_id);
                &&& final(self).has_event(event_id)
                &&& !has_submission(e.submissions@, applicant)
                &&& forall|who: Account| who != applicant ==> (has_submission(e.submissions@, who) <==> has_submission(e0.submissions@, who))
                &&& forall|who: Account| who != applicant && has_submission(e0.submissions@, who)
                    ==> e.submissions@[submission_index(e.submissions@, who)] == e0.submissions@[submission_index(e0.submissions@, who)]
                &&& e == (EventEntry { submissions: e.submissions, ..e0 })
                &&& EventsContract::only_entry_changed(old(self), final(self), event_id, e)
                &&& final(self).seen_ops@ == old(self).seen_ops@.push(SeenOp { domain: applicant, op })
                &&& fx@ == seq![Effect::Publish(Notice::SubmissionWithdrawn(SubmissionWithdrawn { event_id, applicant }))]
            },
    {
        self.require_not_paused()?;
        self.require_unseen(applicant, op)?;
        let idx = match self.find_event(event_id) {
            Some(i) => i,
            None => return Err(Error::EventNotFound),
        };
        if self.events[idx].record.status != EventStatus::Active {
            return Err(Error::EventNotActive);
        }
        if let Some(deadline) = self.events[idx].record.deadline {
            if deadline <= inv.timestamp {
                return Err(Error::DeadlinePassed);
            }
        }
        require_auth(inv, applicant)?;
        let k = match find_submission(&self.events[idx].submissions, applicant) {
            Some(k) => k,
            None => return Err(Error::SubmissionNotFound),
        };
        let ghost before = *self;
        let ghost s0 = self.events@[idx as int].submissions@;
        let _removed = self.events[idx].submissions.swap_remove(k);
        proof {
            let e1 = self.events@[idx as int];
            let s1 = e1.submissions@;
            let n = s0.len() as int;
            assert(self.events@ =~= before.events@.update(idx as int, e1));
            assert(s1 =~= s0.update(k as int, s0.last()).drop_last());
            // where each surviving submission sits now
            assert forall|j: int| 0 <= j < s1.len() implies s1[j] == s0[if j == k { n - 1 } else { j }] by {}
            assert(submissions_unique(s1)) by {
                assert forall|i: int, j: int| 0 <= i < j < s1.len() implies s1[i].applicant != s1[j].applicant by {
                    let ii = if i == k { n - 1 } else { i };
                    let jj = if j == k { n - 1 } else { j };
                    assert(s0[ii].applicant != s0[jj].applicant);
                }
            }
            assert(!has_submission(s1, applicant)) by {
                if has_submission(s1, applicant) {
                    let j = submission_index(s1, applicant);
                    let jj = if j == k { n - 1 } else { j };
                    assert(s0[jj].applicant == applicant);
                    assert(jj != k);
                    assert(s0[k as int].applicant == applicant);
                }
            }
            assert forall|who: Account| who != applicant implies (has_submission(s1, who) <==> has_submission(s0, who)) by {
                if has_submission(s1, who) {
                    let j = submission_index(s1, who);
                    let jj = if j == k { n - 1 } else { j };
                    assert(s0[jj].applicant == who);
                }
                if has_submission(s0, who) {
                    let j = submission_index(s0, who);
                    assert(j != k);
                    let jj = if j == n - 1 { k as int } else { j };
                    assert(s1[jj].applicant == who);
                }
            }
            assert forall|who: Account| who != applicant && has_submission(s0, who) implies s1[submission_index(s1, who)]
                == s0[submission_index(s0, who)] by {
                let j = submission_index(s0, who);
                assert(j != k);
                let jj = if j == n - 1 { k as int } else { j };
                assert(s1[jj] == s0[j]);
                lemma_submission_index(s1, who, jj);
            }
            assert(e1.wf());
            EventsContract::lemma_entry_update(&before, self, event_id, e1);
        }
        let mut fx: Vec<Effect> = Vec::new();
        fx.push(Effect::Publish(Notice::SubmissionWithdrawn(SubmissionWithdrawn { event_id, applicant })));
        self.mark_seen(applicant, op);
        Ok(fx)
    }
}

/// In a list where each applicant has at most one submission, `who`'s
/// submission is the one at `i`.
pub proof fn lemma_submission_index(s: Seq<Submission>, who: Account, i: int)
    requires
        submissions_unique(s),
        0 <= i < s.len(),
        s[i].applicant == who,
    ensures
        has_submission(s, who),
        submission_index(s, who) == i,
{
    let c = submission_index(s, who);
    if c != i {
        if c < i {
            assert(s[c].applicant != s[i].applicant);
        } else {
            assert(s[i].applicant != s[c].applicant);
        }
    }
}

} // verus!
