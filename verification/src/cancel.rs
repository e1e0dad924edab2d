use vstd::prelude::*;

use crate::arith::{clamp_i128, div_pos, div_toward_zero, sat_mul, sat_sub};
use crate::contract::{require_auth, EventEntry, EventsContract};
use crate::effects::Effect;
use crate::errors::Error;
use crate::escrow::release;
use crate::event_ops::MAX_REFUNDS_PER_BATCH;
use crate::events::{ContributorRefunded, EventCancelled, Notice, OwnerResidualRefunded};
use crate::types::{
    Account, CancellationBranch, CancellationState, Contribution, EventRecord, EventStatus, Invocation, OpId,
    ReleaseKind, SeenOp,
};

verus! {

/// How a cancellation splits `remaining` between partners owed
/// `non_owner_total` and the owner.
pub open spec fn branch_for(non_owner_total: i128, remaining: i128) -> CancellationBranch {
    if non_owner_total <= 0 {
        CancellationBranch::OwnerOnly
    } else if remaining >= non_owner_total {
        CancellationBranch::FullPartnerThenResidual
    } else {
        CancellationBranch::ProRataPartners
    }
}

/// What a partner with `amount` contributed gets back under `st`.
pub open spec fn cancel_payout(st: CancellationState, amount: i128) -> i128 {
    match st.branch {
        CancellationBranch::FullPartnerThenResidual => amount,
        CancellationBranch::ProRataPartners => div_toward_zero(
            clamp_i128(amount * st.remaining_at_start) as int,
            st.non_owner_total as int,
        ) as i128,
        CancellationBranch::OwnerOnly => 0,
    }
}

/// Transfers and notices for one refund slot `i`.
pub open spec fn refund_step(cs: Seq<Contribution>, st: CancellationState, token: Account, event_id: u64, i: int) -> Seq<Effect> {
    if 0 <= i < cs.len() && cs[i].amount > 0 && cancel_payout(st, cs[i].amount) > 0 {
        let c = cs[i].contributor;
        let p = cancel_payout(st, cs[i].amount);
        seq![
            Effect::Pay { token, to: c, amount: p },
            Effect::Publish(Notice::ContributorRefunded(ContributorRefunded { event_id, contributor: c, amount: p })),
        ]
    } else {
        seq![]
    }
}

/// Transfers and notices for refund slots `lo..hi`, in order.
pub open spec fn refund_effects(cs: Seq<Contribution>, st: CancellationState, token: Account, event_id: u64, lo: int, hi: int) -> Seq<Effect>
    decreases hi - lo,
{
    if hi <= lo {
        seq![]
    } else {
        refund_effects(cs, st, token, event_id, lo, hi - 1) + refund_step(cs, st, token, event_id, hi - 1)
    }
}

/// Contributions after slots `lo..hi` are refunded: each positive amount in
/// that range drops to zero.
pub open spec fn zeroed(cs: Seq<Contribution>, lo: int, hi: int) -> Seq<Contribution> {
    Seq::new(
        cs.len(),
        |i: int|
            if lo <= i < hi && cs[i].amount > 0 {
                Contribution { contributor: cs[i].contributor, amount: 0 }
            } else {
                cs[i]
            },
    )
}

impl EventsContract {
    /// Why `start_cancel` is refused, if it is.
    pub open spec fn start_cancel_error(&self, inv: &Invocation, event_id: u64, op: OpId) -> Option<Error> {
        let e = self.entry(event_id);
        let m = EventsContract::manager_of(&e);
        if self.paused {
            Some(Error::Paused)
        } else if !self.has_event(event_id) {
            Some(Error::EventNotFound)
        } else if self.op_seen(m, op) {
            Some(Error::OpAlreadySeen)
        } else if e.record.status != EventStatus::Active {
            Some(Error::EventNotActive)
        } else if e.cancellation is Some {
            Some(Error::CancellationAlreadyStarted)
        } else if e.record.release_kind == ReleaseKind::Single && e.unclaimed_prizes > 0
            && inv.timestamp <= match e.prize_claim_expiry { Some(t) => t, None => 0 } {
            Some(Error::WinnersAlreadySelected)
        } else if !inv.authorizes(m) {
            Some(Error::Unauthorized)
        } else if e.non_owner_total is None && e.contributors@.len() != 0 {
            Some(Error::CancellationTotalMissing)
        } else {
            None
        }
    }

    /// Starts cancelling an active event. With no partner money the owner is
    /// refunded at once and the event is cancelled; otherwise the refund
    /// split is fixed now and the event is frozen until the partners are
    /// refunded batch by batch and `finalize_cancel` runs. While unclaimed
    /// prizes are inside their claim window the event cannot be cancelled.
    pub fn start_cancel(&mut self, inv: &Invocation, event_id: u64, op: OpId) -> (r: Result<Vec<Effect>, Error>)
        requires
            old(self).wf(),
        ensures
            final(self).wf(),
            r is Err ==> *final(self) == *old(self),
            r is Err <==> old(self).start_cancel_error(inv, event_id, op) is Some,
            r matches Err(e) ==> Some(e) == old(self).start_cancel_error(inv, event_id, op),
            r matches Ok(fx) ==> {
                let e0 = old(self).entry(event_id);
                let rec = e0.record;
                let e = final(self).entry(event_id);
                let nt = match e0.non_owner_total { Some(t) => t, None => 0 };
                let remaining = rec.remaining_escrow;
                let branch = branch_for(nt, remaining);
                &&& final(self).has_event(event_id)
                &&& EventsContract::only_entry_changed(old(self), final(self), event_id, e)
                &&& final(self).seen_ops@ == old(self).seen_ops@.push(SeenOp { domain: EventsContract::manager_of(&e0), op })
                &&& if branch == CancellationBranch::OwnerOnly {
                    &&& e == (EventEntry {
                        record: EventRecord { remaining_escrow: 0, status: EventStatus::Cancelled, ..rec },
                        non_owner_total: Some(0i128),
                        ..e0
                    })
                    &&& fx@ == if remaining > 0 {
                        seq![
                            Effect::Pay { token: rec.token, to: rec.owner, amount: remaining },
                            Effect::Publish(Notice::OwnerResidualRefunded(OwnerResidualRefunded {
                                event_id,
                                owner: rec.owner,
                                amount: remaining,
                            })),
                            Effect::Publish(Notice::EventCancelled(EventCancelled { id: event_id })),
                        ]
                    } else {
                        seq![Effect::Publish(Notice::EventCancelled(EventCancelled { id: event_id }))]
                    }
                } else {
                    &&& e == (EventEntry {
                        record: EventRecord { status: EventStatus::Cancelling, ..rec },
                        non_owner_total: Some(nt),
                        cancellation: Some(CancellationState {
                            non_owner_total: nt,
                            remaining_at_start: remaining,
                            count_at_start: e0.contributors@.len() as u32,
                            next_idx: 0,
                            branch,
                        }),
                        ..e0
                    })
                    &&& fx@.len() == 0
                }
            },
    {
        self.require_not_paused()?;
        let idx = match self.find_event(event_id) {
            Some(i) => i,
            None => return Err(Error::EventNotFound),
        };
        let manager = match self.events[idx].manager {
            Some(m) => m,
            None => self.events[idx].record.owner,
        };
        self.require_unseen(manager, op)?;
        if self.events[idx].record.status != EventStatus::Active {
            return Err(Error::EventNotActive);
        }
        if self.events[idx].cancellation.is_some() {
            return Err(Error::CancellationAlreadyStarted);
        }
        if self.events[idx].record.release_kind == ReleaseKind::Single && self.events[idx].unclaimed_prizes > 0 {
            let expiry = match self.events[idx].prize_claim_expiry {
                Some(t) => t,
                None => 0,
            };
            if inv.timestamp <= expiry {
                return Err(Error::WinnersAlreadySelected);
            }
        }
        require_auth(inv, manager)?;
        let count = self.events[idx].contributors.len();
        let non_owner_total: i128 = match self.events[idx].non_owner_total {
            Some(t) => t,
            None => {
                if count == 0 {
                    0
                } else {
                    return Err(Error::CancellationTotalMissing);
                }
            },
        };
        let remaining = self.events[idx].record.remaining_escrow;
        let token = self.events[idx].record.token;
        let owner = self.events[idx].record.owner;
        let branch = if non_owner_total <= 0 {
            CancellationBranch::OwnerOnly
        } else if remaining >= non_owner_total {
            CancellationBranch::FullPartnerThenResidual
        } else {
            CancellationBranch::ProRataPartners
        };
        let ghost before = *self;
        let mut fx: Vec<Effect> = Vec::new();
        if branch == CancellationBranch::OwnerOnly {
            if remaining > 0 {
                release(token, owner, remaining, &mut fx);
                fx.push(Effect::Publish(Notice::OwnerResidualRefunded(OwnerResidualRefunded {
                    event_id,
                    owner,
                    amount: remaining,
                })));
            }
            self.events[idx].record.remaining_escrow = 0;
            self.events[idx].record.status = EventStatus::Cancelled;
            self.events[idx].non_owner_total = Some(0);
            fx.push(Effect::Publish(Notice::EventCancelled(EventCancelled { id: event_id })));
        } else {
            self.events[idx].cancellation = Some(CancellationState {
                non_owner_total,
                remaining_at_start: remaining,
                count_at_start: count as u32,
                next_idx: 0,
                branch,
            });
            self.events[idx].record.status = EventStatus::Cancelling;
            self.events[idx].non_owner_total = Some(non_owner_total);
        }
        proof {
            let e1 = self.events@[idx as int];
            assert(self.events@ =~= before.events@.update(idx as int, e1));
            assert(e1.wf());
            EventsContract::lemma_entry_update(&before, self, event_id, e1);
        }
        self.mark_seen(manager, op);
        Ok(fx)
    }

    /// Why `process_cancel_batch` is refused, if it is.
    pub open spec fn process_cancel_error(&self, event_id: u64, op: OpId) -> Option<Error> {
        let e = self.entry(event_id);
        if self.paused {
            Some(Error::Paused)
        } else if !self.has_event(event_id) {
            Some(Error::EventNotFound)
        } else if self.op_seen(EventsContract::manager_of(&e), op) {
            Some(Error::OpAlreadySeen)
        } else if e.record.status != EventStatus::Cancelling || e.cancellation is None {
            Some(Error::CancellationNotStarted)
        } else {
            None
        }
    }

    /// Refunds the next `max_refunds` partners (at most
    /// `MAX_REFUNDS_PER_BATCH`) of a cancelling event and returns how many
    /// are left. Anyone may call it.
    pub fn process_cancel_batch(&mut self, event_id: u64, max_refunds: u32, op: OpId) -> (r: Result<(u32, Vec<Effect>), Error>)
        requires
            old(self).wf(),
        ensures
            final(self).wf(),
            r is Err ==> *final(self) == *old(self),
            r is Err <==> old(self).process_cancel_error(event_id, op) is Some,
            r matches Err(e) ==> Some(e) == old(self).process_cancel_error(event_id, op),
            r matches Ok((left, fx)) ==> {
                let e0 = old(self).entry(event_id);
                let st = e0.cancellation->0;
                let cap = if max_refunds > MAX_REFUNDS_PER_BATCH { MAX_REFUNDS_PER_BATCH } else { max_refunds };
                let lo = st.next_idx as int;
                let hi = if st.next_idx >= st.count_at_start {
                    st.next_idx as int
                } else if st.next_idx + cap < st.count_at_start {
                    st.next_idx + cap
                } else {
                    st.count_at_start as int
                };
                let e = final(self).entry(event_id);
                &&& final(self).has_event(event_id)
                &&& e == (EventEntry {
                    contributors: e.contributors,
                    cancellation: Some(CancellationState { next_idx: hi as u32, ..st }),
                    ..e0
                })
                &&& e.contributors@ == zeroed(e0.contributors@, lo, hi)
                &&& left == if hi < st.count_at_start { st.count_at_start - hi } else { 0 }
                &&& EventsContract::only_entry_changed(old(self), final(self), event_id, e)
                &&& final(self).seen_ops@ == old(self).seen_ops@.push(SeenOp { domain: EventsContract::manager_of(&e0), op })
                &&& fx@ == refund_effects(e0.contributors@, st, e0.record.token, event_id, lo, hi)
            },
    {
        self.require_not_paused()?;
        let idx = match self.find_event(event_id) {
            Some(i) => i,
            None => return Err(Error::EventNotFound),
        };
        let manager = match self.events[idx].manager {
            Some(m) => m,
            None => self.events[idx].record.owner,
        };
        self.require_unseen(manager, op)?;
        if self.events[idx].record.status != EventStatus::Cancelling {
            return Err(Error::CancellationNotStarted);
        }
        let mut st = match self.events[idx].cancellation {
            Some(s) => s,
            None => return Err(Error::CancellationNotStarted),
        };
        let cap = if max_refunds > MAX_REFUNDS_PER_BATCH { MAX_REFUNDS_PER_BATCH } else { max_refunds };
        let token = self.events[idx].record.token;
        let ghost before = *self;
        let ghost st0 = st;
        let ghost cs0 = self.events@[idx as int].contributors@;
        let mut processed: u32 = 0;
        let mut fx: Vec<Effect> = Vec::new();
        while processed < cap && st.next_idx < st.count_at_start
            invariant
                *self == (EventsContract { events: self.events, ..before }),
                self.events@.len() == before.events@.len(),
                idx < self.events@.len(),
                forall|j: int| 0 <= j < self.events@.len() && j != idx ==> self.events@[j] == before.events@[j],
                self.events@[idx as int] == (EventEntry { contributors: self.events@[idx as int].contributors, ..before.events@[idx as int] }),
                st == (CancellationState { next_idx: st.next_idx, ..st0 }),
                st0.next_idx <= st.next_idx,
                st.next_idx == st0.next_idx + processed,
                processed <= cap,
                st0.next_idx < st0.count_at_start ==> st.next_idx <= st0.count_at_start,
                st0.next_idx >= st0.count_at_start ==> processed == 0,
                self.events@[idx as int].contributors@ == zeroed(cs0, st0.next_idx as int, st.next_idx as int),
                fx@ == refund_effects(cs0, st0, token, event_id, st0.next_idx as int, st.next_idx as int),
                st0.non_owner_total > 0,
            decreases cap - processed,
        {
            let i = st.next_idx;
            st.next_idx = st.next_idx + 1;
            processed = processed + 1;
            let ghost cs_mid = self.events@[idx as int].contributors@;
            proof {
                assert(cs_mid.len() == cs0.len());
            }
            if (i as usize) < self.events[idx].contributors.len() {
                let c = self.events[idx].contributors[i as usize];
                proof {
                    assert(c == cs0[i as int]);
                }
                if c.amount > 0 {
                    let payout: i128 = match st.branch {
                        CancellationBranch::FullPartnerThenResidual => c.amount,
                        CancellationBranch::ProRataPartners => div_pos(sat_mul(c.amount, st.remaining_at_start), st.non_owner_total),
                        CancellationBranch::OwnerOnly => 0,
                    };
                    proof {
                        assert(payout == cancel_payout(st0, c.amount));
                    }
                    if payout > 0 {
                        release(token, c.contributor, payout, &mut fx);
                        fx.push(Effect::Publish(Notice::ContributorRefunded(ContributorRefunded {
                            event_id,
                            contributor: c.contributor,
                            amount: payout,
                        })));
                    }
                    self.events[idx].contributors.set(i as usize, Contribution { contributor: c.contributor, amount: 0 });
                }
            }
            proof {
                assert(self.events@[idx as int].contributors@ =~= zeroed(cs0, st0.next_idx as int, st.next_idx as int));
                assert(fx@ =~= refund_effects(cs0, st0, token, event_id, st0.next_idx as int, st.next_idx as int));
            }
        }
        self.events[idx].cancellation = Some(st);
        proof {
            let e1 = self.events@[idx as int];
            assert(self.events@ =~= before.events@.update(idx as int, e1));
            let c1 = e1.contributors@;
            assert(contributors_unique_after_zero(cs0, c1));
            assert(e1.wf());
            EventsContract::lemma_entry_update(&before, self, event_id, e1);
        }
        let left = if st.next_idx < st.count_at_start { st.count_at_start - st.next_idx } else { 0 };
        self.mark_seen(manager, op);
        Ok((left, fx))
    }

    /// Why `finalize_cancel` is refused, if it is.
    pub open spec fn finalize_cancel_error(&self, event_id: u64, op: OpId) -> Option<Error> {
        let e = self.entry(event_id);
        if self.paused {
            Some(Error::Paused)
        } else if !self.has_event(event_id) {
            Some(Error::EventNotFound)
        } else if self.op_seen(EventsContract::manager_of(&e), op) {
            Some(Error::OpAlreadySeen)
        } else if e.record.status != EventStatus::Cancelling || e.cancellation is None {
            Some(Error::CancellationNotStarted)
        } else if e.cancellation->0.next_idx < e.cancellation->0.count_at_start {
            Some(Error::CancellationNotFinished)
        } else {
            None
        }
    }

    /// Closes a cancellation once every partner slot was processed: the
    /// owner gets the residual when partners were refunded in full, the
    /// escrow is emptied and the event is cancelled. Anyone may call it.
    pub fn finalize_cancel(&mut self, event_id: u64, op: OpId) -> (r: Result<Vec<Effect>, Error>)
        requires
            old(self).wf(),
        ensures
            final(self).wf(),
            r is Err ==> *final(self) == *old(self),
            r is Err <==> old(self).finalize_cancel_error(event_id, op) is Some,
            r matches Err(e) ==> Some(e) == old(self).finalize_cancel_error(event_id, op),
            r matches Ok(fx) ==> {
                let e0 = old(self).entry(event_id);
                let rec = e0.record;
                let st = e0.cancellation->0;
                let residual = clamp_i128(st.remaining_at_start - st.non_owner_total);
                let e = final(self).entry(event_id);
                let cancelled = Effect::Publish(Notice::EventCancelled(EventCancelled { id: event_id }));
                &&& final(self).has_event(event_id)
                &&& e == (EventEntry {
                    record: EventRecord { remaining_escrow: 0, status: EventStatus::Cancelled, ..rec },
                    cancellation: None,
                    non_owner_total: Some(0i128),
                    ..e0
                })
                &&& EventsContract::only_entry_changed(old(self), final(self), event_id, e)
                &&& final(self).seen_ops@ == old(self).seen_ops@.push(SeenOp { domain: EventsContract::manager_of(&e0), op })
                &&& fx@ == if st.branch == CancellationBranch::FullPartnerThenResidual && residual > 0 {
                    seq![
                        Effect::Pay { token: rec.token, to: rec.owner, amount: residual },
                        Effect::Publish(Notice::OwnerResidualRefunded(OwnerResidualRefunded {
                            event_id,
                            owner: rec.owner,
                            amount: residual,
                        })),
                        cancelled,
                    ]
                } else {
                    seq![cancelled]
                }
            },
    {
        self.require_not_paused()?;
        let idx = match self.find_event(event_id) {
            Some(i) => i,
            None => return Err(Error::EventNotFound),
        };
        let manager = match self.events[idx].manager {
            Some(m) => m,
            None => self.events[idx].record.owner,
        };
        self.require_unseen(manager, op)?;
        if self.events[idx].record.status != EventStatus::Cancelling {
            return Err(Error::CancellationNotStarted);
        }
        let st = match self.events[idx].cancellation {
            Some(s) => s,
            None => return Err(Error::CancellationNotStarted),
        };
        if st.next_idx < st.count_at_start {
            return Err(Error::CancellationNotFinished);
        }
        let token = self.events[idx].record.token;
        let owner = self.events[idx].record.owner;
        let mut fx: Vec<Effect> = Vec::new();
        if st.branch == CancellationBranch::FullPartnerThenResidual {
            let residual = sat_sub(st.remaining_at_start, st.non_owner_total);
            if residual > 0 {
                release(token, owner, residual, &mut fx);
                fx.push(Effect::Publish(Notice::OwnerResidualRefunded(OwnerResidualRefunded {
                    event_id,
                    owner,
                    amount: residual,
                })));
            }
        }
        let ghost before = *self;
        self.events[idx].record.remaining_escrow = 0;
        self.events[idx].record.status = EventStatus::Cancelled;
        self.events[idx].cancellation = None;
        self.events[idx].non_owner_total = Some(0);
        proof {
            let e1 = self.events@[idx as int];
            assert(self.events@ =~= before.events@.update(idx as int, e1));
            assert(e1.wf());
            EventsContract::lemma_entry_update(&before, self, event_id, e1);
        }
        fx.push(Effect::Publish(Notice::EventCancelled(EventCancelled { id: event_id })));
        self.mark_seen(manager, op);
        Ok(fx)
    }
}

/// Zeroing amounts keeps contributors pairwise distinct.
pub open spec fn contributors_unique_after_zero(before: Seq<Contribution>, after: Seq<Contribution>) -> bool {
    crate::contract::contributors_unique(before) && after.len() == before.len()
        && (forall|i: int| 0 <= i < after.len() ==> after[i].contributor == before[i].contributor)
        ==> crate::contract::contributors_unique(after)
}


/// What slot `i` receives in a cancellation (zero when nothing is paid).
pub open spec fn slot_paid(cs: Seq<Contribution>, st: CancellationState, i: int) -> int {
    if 0 <= i < cs.len() && cs[i].amount > 0 && cancel_payout(st, cs[i].amount) > 0 {
        cancel_payout(st, cs[i].amount) as int
    } else {
        0
    }
}

/// Total paid to slots `lo..hi`.
pub open spec fn refund_total(cs: Seq<Contribution>, st: CancellationState, lo: int, hi: int) -> int
    decreases hi - lo,
{
    if hi <= lo {
        0
    } else {
        refund_total(cs, st, lo, hi - 1) + slot_paid(cs, st, hi - 1)
    }
}

/// Sum of the contributions in slots `lo..hi`.
pub open spec fn amount_total(cs: Seq<Contribution>, lo: int, hi: int) -> int
    decreases hi - lo,
{
    if hi <= lo {
        0
    } else {
        amount_total(cs, lo, hi - 1) + cs[hi - 1].amount
    }
}

/// Sum of the token amounts paid out by a list of effects.
pub open spec fn paid_out(fx: Seq<Effect>) -> int
    decreases fx.len(),
{
    if fx.len() == 0 {
        0
    } else {
        paid_out(fx.drop_last()) + match fx.last() {
            Effect::Pay { amount, .. } => amount as int,
            _ => 0,
        }
    }
}

pub proof fn lemma_paid_out_concat(a: Seq<Effect>, b: Seq<Effect>)
    ensures
        paid_out(a + b) == paid_out(a) + paid_out(b),
    decreases b.len(),
{
    if b.len() == 0 {
        assert(a + b =~= a);
    } else {
        assert((a + b).drop_last() =~= a + b.drop_last());
        lemma_paid_out_concat(a, b.drop_last());
    }
}

/// The refunds of slots `lo..hi` pay out exactly `refund_total`.
pub proof fn lemma_refund_effects_pay(cs: Seq<Contribution>, st: CancellationState, token: Account, event_id: u64, lo: int, hi: int)
    ensures
        paid_out(refund_effects(cs, st, token, event_id, lo, hi)) == refund_total(cs, st, lo, hi),
    decreases hi - lo,
{
    if hi > lo {
        lemma_refund_effects_pay(cs, st, token, event_id, lo, hi - 1);
        let step = refund_step(cs, st, token, event_id, hi - 1);
        lemma_paid_out_concat(refund_effects(cs, st, token, event_id, lo, hi - 1), step);
        if step.len() == 2 {
            assert(step.drop_last().drop_last() =~= Seq::<Effect>::empty());
            assert(paid_out(step.drop_last()) == paid_out(step.drop_last().drop_last()) + slot_paid(cs, st, hi - 1));
        } else {
            assert(step.len() == 0);
        }
    }
}

/// Running refunds batch by batch gives the same transfers as one sweep:
/// the slots a later batch reads were not touched by the earlier one.
pub proof fn lemma_batches_compose(cs: Seq<Contribution>, st: CancellationState, token: Account, event_id: u64, lo: int, mid: int, hi: int)
    requires
        lo <= mid <= hi,
    ensures
        refund_effects(cs, st, token, event_id, lo, mid) + refund_effects(zeroed(cs, lo, mid), st, token, event_id, mid, hi)
            == refund_effects(cs, st, token, event_id, lo, hi),
    decreases hi - mid,
{
    if hi == mid {
        assert(refund_effects(cs, st, token, event_id, lo, mid) + Seq::<Effect>::empty() =~= refund_effects(cs, st, token, event_id, lo, mid));
    } else {
        lemma_batches_compose(cs, st, token, event_id, lo, mid, hi - 1);
        assert(refund_step(zeroed(cs, lo, mid), st, token, event_id, hi - 1) == refund_step(cs, st, token, event_id, hi - 1));
        assert((refund_effects(cs, st, token, event_id, lo, mid) + refund_effects(zeroed(cs, lo, mid), st, token, event_id, mid, hi - 1))
            + refund_step(cs, st, token, event_id, hi - 1) =~= refund_effects(cs, st, token, event_id, lo, mid)
            + (refund_effects(zeroed(cs, lo, mid), st, token, event_id, mid, hi - 1) + refund_step(cs, st, token, event_id, hi - 1)));
    }
}

/// Partners are paid in full in the full-refund branch.
proof fn lemma_full_branch_total(cs: Seq<Contribution>, st: CancellationState, k: int)
    requires
        st.branch == CancellationBranch::FullPartnerThenResidual,
        0 <= k <= cs.len(),
        forall|i: int| 0 <= i < cs.len() ==> cs[i].amount >= 0,
    ensures
        refund_total(cs, st, 0, k) == amount_total(cs, 0, k),
    decreases k,
{
    if k > 0 {
        lemma_full_branch_total(cs, st, k - 1);
    }
}

/// In the pro-rata branch, slots `0..k` together receive at most their share
/// of the escrow: `refund_total * S <= amount_total * R`.
proof fn lemma_pro_rata_scaled(cs: Seq<Contribution>, st: CancellationState, k: int)
    requires
        st.branch == CancellationBranch::ProRataPartners,
        st.non_owner_total > 0,
        st.remaining_at_start >= 0,
        0 <= k <= cs.len(),
        forall|i: int| 0 <= i < cs.len() ==> cs[i].amount >= 0,
        forall|i: int| 0 <= i < cs.len() ==> cs[i].amount * st.remaining_at_start <= i128::MAX,
    ensures
        refund_total(cs, st, 0, k) * st.non_owner_total <= amount_total(cs, 0, k) * st.remaining_at_start,
        refund_total(cs, st, 0, k) >= 0,
    decreases k,
{
    if k > 0 {
        lemma_pro_rata_scaled(cs, st, k - 1);
        let a = cs[k - 1].amount;
        let r = st.remaining_at_start;
        let n = st.non_owner_total;
        assert(a * r >= 0) by (nonlinear_arith)
            requires
                a >= 0,
                r >= 0,
        ;
        let p = slot_paid(cs, st, k - 1);
        assert(p * n <= a * r) by {
            if a > 0 && cancel_payout(st, a) > 0 {
                assert(cancel_payout(st, a) == (a * r) / (n as int));
                assert(((a * r) / (n as int)) * n <= a * r) by (nonlinear_arith)
                    requires
                        n > 0,
                        a * r >= 0,
                ;
            }
        }
        assert((refund_total(cs, st, 0, k - 1) + p) * n == refund_total(cs, st, 0, k - 1) * n + p * n) by (nonlinear_arith);
        assert((amount_total(cs, 0, k - 1) + a) * r == amount_total(cs, 0, k - 1) * r + a * r) by (nonlinear_arith);
    }
}

/// A cancellation never pays out more than the escrow held when it
/// started: what the partners receive over all slots, plus the owner's
/// residual, is at most `remaining_at_start`, and exactly that amount when
/// the partners are refunded in full. Stated for a snapshot whose
/// contributions are non-negative and add up to `non_owner_total`.
pub proof fn lemma_cancel_pays_at_most_escrow(cs: Seq<Contribution>, st: CancellationState)
    requires
        st.branch == branch_for(st.non_owner_total, st.remaining_at_start),
        st.non_owner_total > 0,
        st.remaining_at_start >= 0,
        forall|i: int| 0 <= i < cs.len() ==> cs[i].amount >= 0,
        forall|i: int| 0 <= i < cs.len() ==> cs[i].amount * st.remaining_at_start <= i128::MAX,
        amount_total(cs, 0, cs.len() as int) == st.non_owner_total,
    ensures
        ({
            let residual = if st.branch == CancellationBranch::FullPartnerThenResidual {
                st.remaining_at_start - st.non_owner_total
            } else {
                0
            };
            &&& residual >= 0
            &&& refund_total(cs, st, 0, cs.len() as int) + residual <= st.remaining_at_start
            &&& st.branch == CancellationBranch::FullPartnerThenResidual
                ==> refund_total(cs, st, 0, cs.len() as int) + residual == st.remaining_at_start
        }),
{
    let n = cs.len() as int;
    if st.branch == CancellationBranch::FullPartnerThenResidual {
        lemma_full_branch_total(cs, st, n);
    } else {
        lemma_pro_rata_scaled(cs, st, n);
        let t = refund_total(cs, st, 0, n);
        let s = st.non_owner_total as int;
        let r = st.remaining_at_start as int;
        assert(t * s <= s * r) by (nonlinear_arith)
            requires
                t * s <= s * r,
        ;
        assert(t <= r) by (nonlinear_arith)
            requires
                t * s <= s * r,
                s > 0,
        ;
    }
}

/// No partner is refunded more than it contributed, and when the escrow at
/// the start of a cancellation covers the partner total every partner gets
/// back exactly what it contributed (the full-refund split is taken exactly
/// when the escrow covers the partners).
pub proof fn law_cancel_refund_never_exceeds_contribution(st: CancellationState, amount: i128)
    requires
        st.branch == branch_for(st.non_owner_total, st.remaining_at_start),
        st.non_owner_total > 0,
        st.remaining_at_start >= 0,
        amount >= 0,
        amount * st.remaining_at_start <= i128::MAX,
    ensures
        cancel_payout(st, amount) <= amount,
        cancel_payout(st, amount) >= 0,
        (st.branch == CancellationBranch::FullPartnerThenResidual) <==> st.remaining_at_start >= st.non_owner_total,
        st.remaining_at_start >= st.non_owner_total ==> cancel_payout(st, amount) == amount,
{
    if st.remaining_at_start < st.non_owner_total {
        let a = amount as int;
        let r = st.remaining_at_start as int;
        let t = st.non_owner_total as int;
        let q = (a * r) / t;
        assert(0 <= a * r) by (nonlinear_arith)
            requires
                a >= 0,
                r >= 0,
        ;
        assert(a * r <= a * t) by (nonlinear_arith)
            requires
                a >= 0,
                r < t,
        ;
        assert(q * t <= a * r) by (nonlinear_arith)
            requires
                q == (a * r) / t,
                t > 0,
                a * r >= 0,
        ;
        assert(q <= a) by (nonlinear_arith)
            requires
                q * t <= a * t,
                t > 0,
        ;
        assert(q >= 0) by (nonlinear_arith)
            requires
                q == (a * r) / t,
                t > 0,
                a * r >= 0,
        ;
    }
}

/// When the escrow at the start of a cancellation covers the partner total,
/// the partners are refunded exactly that total and the owner's residual is
/// exactly `remaining_at_start - non_owner_total`; otherwise the partners
/// together get no more than the escrow and the owner nothing. Stated for a
/// snapshot whose contributions are non-negative and add up to the total.
pub proof fn law_covered_cancel_refunds_partners_in_full(cs: Seq<Contribution>, st: CancellationState)
    requires
        st.branch == branch_for(st.non_owner_total, st.remaining_at_start),
        st.non_owner_total > 0,
        st.remaining_at_start >= 0,
        forall|i: int| 0 <= i < cs.len() ==> cs[i].amount >= 0,
        forall|i: int| 0 <= i < cs.len() ==> cs[i].amount * st.remaining_at_start <= i128::MAX,
        amount_total(cs, 0, cs.len() as int) == st.non_owner_total,
    ensures
        st.remaining_at_start >= st.non_owner_total ==> refund_total(cs, st, 0, cs.len() as int) == st.non_owner_total
            && st.remaining_at_start - refund_total(cs, st, 0, cs.len() as int) == st.remaining_at_start - st.non_owner_total,
        st.remaining_at_start < st.non_owner_total ==> refund_total(cs, st, 0, cs.len() as int) <= st.remaining_at_start,
{
    lemma_cancel_pays_at_most_escrow(cs, st);
}

} // verus!
