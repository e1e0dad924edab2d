use vstd::prelude::*;

use crate::admin::sat_add_u32;
use crate::arith::{clamp_i128, div_pos, div_toward_zero, sat_add, sat_mul, sat_sub};
use crate::contract::{require_auth, EventEntry, EventsContract};
use crate::effects::{ChildOp, Effect, Reason, TAG_BOOTSTRAP, TAG_BUMP_REP, TAG_REGISTER_EARNINGS};
use crate::errors::Error;
use crate::escrow::{effective_bps, effective_fee_bps, release, release_with_fee_at, release_with_fee_effects};
use crate::events::{MilestoneClaimed, Notice};
use crate::types::{
    lookup, Account, EventRecord, EventStatus, Invocation, MilestoneClaim, OpId, Pillar, ReleaseKind, SeenOp, Winner,
};

verus! {

/// Why a grant record is refused at creation, if it is: grants release in
/// one or more milestones.
pub open spec fn grant_create_error(release_kind: ReleaseKind) -> Option<Error> {
    match release_kind {
        ReleaseKind::Multi(n) => if n > 0 { None } else { Some(Error::InvalidReleaseKind) },
        ReleaseKind::Single => Some(Error::InvalidReleaseKind),
    }
}

/// Checks the pillar-specific rules of a new grant.
pub fn validate_create(record: &EventRecord) -> (r: Result<(), Error>)
    ensures
        r is Err <==> grant_create_error(record.release_kind) is Some,
        r matches Err(e) ==> Some(e) == grant_create_error(record.release_kind),
{
    match record.release_kind {
        ReleaseKind::Multi(n) => if n > 0 {
            Ok(())
        } else {
            Err(Error::InvalidReleaseKind)
        },
        _ => Err(Error::InvalidReleaseKind),
    }
}


/// (position, reputation bump) of the last anchor row of `who`: the row
/// recorded when `who` was selected, which milestones pay against.
pub open spec fn anchor_of(ws: Seq<Winner>, who: Account) -> Option<(u32, u32)>
    decreases ws.len(),
{
    if ws.len() == 0 {
        None
    } else if ws.last().recipient == who && ws.last().milestone is None {
        Some((ws.last().position, match ws.last().reputation_bump { Some(b) => b, None => 0 }))
    } else {
        anchor_of(ws.drop_last(), who)
    }
}

/// Number of milestone rows already paid to `who`.
pub open spec fn claims_of(ws: Seq<Winner>, who: Account) -> int
    decreases ws.len(),
{
    if ws.len() == 0 {
        0
    } else {
        claims_of(ws.drop_last(), who) + if ws.last().recipient == who && ws.last().milestone is Some { 1int } else { 0 }
    }
}

/// Saturating total of the milestone rows already paid to `who`.
pub open spec fn paid_to(ws: Seq<Winner>, who: Account) -> i128
    decreases ws.len(),
{
    if ws.len() == 0 {
        0
    } else if ws.last().recipient == who && ws.last().milestone is Some {
        clamp_i128(paid_to(ws.drop_last(), who) + ws.last().amount)
    } else {
        paid_to(ws.drop_last(), who)
    }
}

pub proof fn lemma_claims_bounded(ws: Seq<Winner>, who: Account)
    ensures
        0 <= claims_of(ws, who) <= ws.len(),
    decreases ws.len(),
{
    if ws.len() > 0 {
        lemma_claims_bounded(ws.drop_last(), who);
    }
}

/// A recipient's share of a grant: its percentage of the total budget.
pub open spec fn grant_share(total_budget: i128, percent: u32) -> i128 {
    div_toward_zero(clamp_i128(total_budget * percent) as int, 100) as i128
}

/// What a grant milestone pays: an equal part of the share, except the
/// recipient's last milestone, which pays whatever of the share is left.
pub open spec fn grant_milestone_amount(share: i128, total_milestones: u32, claimed: int, paid: i128) -> i128 {
    if claimed + 1 == total_milestones {
        clamp_i128(share - paid)
    } else {
        div_toward_zero(share as int, total_milestones as int) as i128
    }
}

/// What a crowdfunding milestone pays: an equal part of what is left in
/// escrow for the milestones left, the last one taking everything.
pub open spec fn crowdfunding_milestone_amount(remaining: i128, milestones_left: int) -> i128 {
    if milestones_left == 1 {
        remaining
    } else {
        div_toward_zero(remaining as int, milestones_left) as i128
    }
}

pub open spec fn milestone_claimed(cs: Seq<MilestoneClaim>, who: Account, m: u32) -> bool {
    cs.contains(MilestoneClaim { recipient: who, milestone: m })
}

/// The milestone count of a multi-release event.
pub open spec fn total_milestones(k: ReleaseKind) -> u32 {
    match k {
        ReleaseKind::Multi(n) => n,
        ReleaseKind::Single => 0,
    }
}

impl EventsContract {
    /// The amount `claim_milestone` pays, for an accepted claim.
    pub open spec fn milestone_amount(e: &EventEntry, recipient: Account) -> i128 {
        let rec = e.record;
        let n = total_milestones(rec.release_kind);
        if rec.pillar == Pillar::Crowdfunding {
            crowdfunding_milestone_amount(rec.remaining_escrow, n - e.crowdfunding_claimed)
        } else {
            let pos = (anchor_of(e.winners@, recipient)->0).0;
            let share = grant_share(rec.total_budget, lookup(rec.winner_distribution.entries@, pos)->0);
            grant_milestone_amount(share, n, claims_of(e.winners@, recipient), paid_to(e.winners@, recipient))
        }
    }

    /// Why `claim_milestone` is refused, if it is.
    pub open spec fn claim_milestone_error(&self, inv: &Invocation, event_id: u64, recipient: Account, milestone: u32, op: OpId) -> Option<Error> {
        let e = self.entry(event_id);
        let rec = e.record;
        let n = total_milestones(rec.release_kind);
        let cf = rec.pillar == Pillar::Crowdfunding;
        if self.paused {
            Some(Error::Paused)
        } else if !self.has_event(event_id) {
            Some(Error::EventNotFound)
        } else if self.op_seen(rec.owner, op) {
            Some(Error::OpAlreadySeen)
        } else if rec.status != EventStatus::Active {
            Some(Error::EventNotActive)
        } else if n == 0 {
            Some(Error::InvalidReleaseKind)
        } else if milestone >= n {
            Some(Error::InvalidMilestone)
        } else if !inv.authorizes(rec.owner) {
            Some(Error::Unauthorized)
        } else if cf && self.admin is None {
            Some(Error::NotInitialized)
        } else if cf && !inv.authorizes(self.admin->0) {
            Some(Error::Unauthorized)
        } else if milestone_claimed(e.claimed_milestones@, recipient, milestone) {
            Some(Error::MilestoneAlreadyClaimed)
        } else if anchor_of(e.winners@, recipient) is None {
            Some(Error::NoSubmissions)
        } else if cf && n <= e.crowdfunding_claimed {
            Some(Error::InvalidMilestone)
        } else if cf && rec.remaining_escrow <= 0 {
            Some(Error::InsufficientEscrow)
        } else if !cf && lookup(rec.winner_distribution.entries@, (anchor_of(e.winners@, recipient)->0).0) is None {
            Some(Error::InvalidWinnerPosition)
        } else if EventsContract::milestone_amount(&e, recipient) <= 0 {
            Some(Error::InvalidDistribution)
        } else if EventsContract::milestone_amount(&e, recipient) > rec.remaining_escrow {
            Some(Error::InsufficientEscrow)
        } else {
            None
        }
    }

    /// `new` is `old` after milestone `milestone` was paid to `recipient`:
    /// the escrow shrinks by the payment, the event completes when it
    /// empties, a paid winner row and the claim are appended, a crowdfunding
    /// campaign counts one more paid milestone, and the owner's operation id
    /// is recorded. Nothing else changes.
    pub open spec fn milestone_claim_recorded(
        old: &EventsContract,
        new: &EventsContract,
        inv: &Invocation,
        event_id: u64,
        recipient: Account,
        milestone: u32,
        op: OpId,
    ) -> bool {
        let e0 = old.entry(event_id);
        let rec = e0.record;
        let cf = rec.pillar == Pillar::Crowdfunding;
        let amount = EventsContract::milestone_amount(&e0, recipient);
        let (position, bump) = anchor_of(e0.winners@, recipient)->0;
        let left = rec.remaining_escrow - amount;
        let e = new.entry(event_id);
        &&& new.has_event(event_id)
        &&& e == (EventEntry {
            record: EventRecord {
                remaining_escrow: left as i128,
                status: if left == 0 { EventStatus::Completed } else { rec.status },
                ..rec
            },
            winners: e.winners,
            claimed_milestones: e.claimed_milestones,
            crowdfunding_claimed: if cf { sat_add_u32(e0.crowdfunding_claimed, 1) } else { e0.crowdfunding_claimed },
            ..e0
        })
        &&& e.winners@ == e0.winners@.push(Winner {
            recipient,
            position,
            amount,
            milestone: Some(milestone),
            paid_at: Some(inv.timestamp),
            reputation_bump: Some(bump),
        })
        &&& e.claimed_milestones@ == e0.claimed_milestones@.push(MilestoneClaim { recipient, milestone })
        &&& EventsContract::only_entry_changed(old, new, event_id, e)
        &&& new.seen_ops@ == old.seen_ops@.push(SeenOp { domain: rec.owner, op })
    }

    /// Pays milestone `milestone` of a multi-release event to `recipient`,
    /// a selected winner, on the owner's signature (and the admin's, for
    /// crowdfunding). Grants pay an equal part of the recipient's share per
    /// milestone, the last one the rest of the share; crowdfunding pays an
    /// equal part of what is left in escrow, net of the fee, the last one
    /// everything. Each milestone is paid once per recipient.
    pub fn claim_milestone(&mut self, inv: &Invocation, event_id: u64, recipient: Account, milestone: u32, op: OpId) -> (r:
        Result<Vec<Effect>, Error>)
        requires
            old(self).wf(),
            old(self).has_event(event_id) ==> old(self).entry(event_id).winners@.len() < u32::MAX,
        ensures
            final(self).wf(),
            r is Err ==> *final(self) == *old(self),
            r is Err <==> old(self).claim_milestone_error(inv, event_id, recipient, milestone, op) is Some,
            r matches Err(e) ==> Some(e) == old(self).claim_milestone_error(inv, event_id, recipient, milestone, op),
            r matches Ok(fx) ==> {
                let e0 = old(self).entry(event_id);
                let rec = e0.record;
                let cf = rec.pillar == Pillar::Crowdfunding;
                let amount = EventsContract::milestone_amount(&e0, recipient);
                let bump = (anchor_of(e0.winners@, recipient)->0).1;
                let n = fx@.len() as int;
                let paid = fx@.subrange(0, n - 4);
                &&& EventsContract::milestone_claim_recorded(old(self), final(self), inv, event_id, recipient, milestone, op)
                &&& n >= 5
                &&& if cf {
                    release_with_fee_effects(rec.token, recipient, amount, effective_bps(rec.fee_bps_override, old(self).fee_bps),
                        old(self).fee_account, paid)
                } else {
                    paid == seq![Effect::Pay { token: rec.token, to: recipient, amount }]
                }
                &&& fx@.subrange(n - 4, n) == seq![
                    Effect::Bootstrap { user: recipient, op: ChildOp { parent: op, tag: TAG_BOOTSTRAP }, best_effort: false },
                    Effect::BumpReputation {
                        user: recipient,
                        delta: bump,
                        reason: Reason::Milestone,
                        op: ChildOp { parent: op, tag: TAG_BUMP_REP },
                        best_effort: false,
                    },
                    Effect::RegisterEarnings {
                        user: recipient,
                        token: rec.token,
                        amount,
                        op: ChildOp { parent: op, tag: TAG_REGISTER_EARNINGS },
                        best_effort: false,
                    },
                    Effect::Publish(Notice::MilestoneClaimed(MilestoneClaimed { event_id, recipient, milestone, amount })),
                ]
            },
    {
        self.require_not_paused()?;
        let idx = match self.find_event(event_id) {
            Some(i) => i,
            None => return Err(Error::EventNotFound),
        };
        let owner = self.events[idx].record.owner;
        self.require_unseen(owner, op)?;
        if self.events[idx].record.status != EventStatus::Active {
            return Err(Error::EventNotActive);
        }
        let n = match self.events[idx].record.release_kind {
            ReleaseKind::Multi(n) => {
                if n > 0 {
                    n
                } else {
                    return Err(Error::InvalidReleaseKind);
                }
            },
            _ => return Err(Error::InvalidReleaseKind),
        };
        if milestone >= n {
            return Err(Error::InvalidMilestone);
        }
        require_auth(inv, owner)?;
        let cf = self.events[idx].record.pillar == Pillar::Crowdfunding;
        if cf {
            match self.admin {
                None => return Err(Error::NotInitialized),
                Some(a) => require_auth(inv, a)?,
            }
        }
        if claim_recorded(&self.events[idx].claimed_milestones, recipient, milestone) {
            return Err(Error::MilestoneAlreadyClaimed);
        }
        let (anchor, claimed_for_recipient, paid_to_recipient) = scan_winners(&self.events[idx].winners, recipient);
        let (position, bump) = match anchor {
            Some(a) => a,
            None => return Err(Error::NoSubmissions),
        };
        let remaining = self.events[idx].record.remaining_escrow;
        let amount: i128 = if cf {
            let claimed_cf = self.events[idx].crowdfunding_claimed;
            if n <= claimed_cf {
                return Err(Error::InvalidMilestone);
            }
            let left_ms = n - claimed_cf;
            if remaining <= 0 {
                return Err(Error::InsufficientEscrow);
            }
            if left_ms == 1 {
                remaining
            } else {
                div_pos(remaining, left_ms as i128)
            }
        } else {
            let percent = match self.events[idx].record.winner_distribution.get(position) {
                Some(p) => p,
                None => return Err(Error::InvalidWinnerPosition),
            };
            let share = div_pos(sat_mul(self.events[idx].record.total_budget, percent as i128), 100);
            proof {
                lemma_claims_bounded(self.events@[idx as int].winners@, recipient);
            }
            if claimed_for_recipient as u64 + 1 == n as u64 {
                sat_sub(share, paid_to_recipient)
            } else {
                div_pos(share, n as i128)
            }
        };
        if amount <= 0 {
            return Err(Error::InvalidDistribution);
        }
        if amount > remaining {
            return Err(Error::InsufficientEscrow);
        }
        let token = self.events[idx].record.token;
        let bps = effective_fee_bps(self.events[idx].record.fee_bps_override, self.fee_bps);
        let mut fx: Vec<Effect> = Vec::new();
        if cf {
            release_with_fee_at(token, recipient, amount, bps, self.fee_account, &mut fx);
        } else {
            release(token, recipient, amount, &mut fx);
        }
        let ghost paid_fx = fx@;
        let ghost before = *self;
        let left = remaining - amount;
        self.events[idx].record.remaining_escrow = left;
        self.events[idx].claimed_milestones.push(MilestoneClaim { recipient, milestone });
        if cf {
            self.events[idx].crowdfunding_claimed = self.events[idx].crowdfunding_claimed.saturating_add(1);
        }
        self.events[idx].winners.push(Winner {
            recipient,
            position,
            amount,
            milestone: Some(milestone),
            paid_at: Some(inv.timestamp),
            reputation_bump: Some(bump),
        });
        if left == 0 {
            self.events[idx].record.status = EventStatus::Completed;
        }
        proof {
            let e1 = self.events@[idx as int];
            assert(self.events@ =~= before.events@.update(idx as int, e1));
            assert(e1.wf());
            EventsContract::lemma_entry_update(&before, self, event_id, e1);
        }
        fx.push(Effect::Bootstrap { user: recipient, op: ChildOp { parent: op, tag: TAG_BOOTSTRAP }, best_effort: false });
        fx.push(Effect::BumpReputation {
            user: recipient,
            delta: bump,
            reason: Reason::Milestone,
            op: ChildOp { parent: op, tag: TAG_BUMP_REP },
            best_effort: false,
        });
        fx.push(Effect::RegisterEarnings {
            user: recipient,
            token,
            amount,
            op: ChildOp { parent: op, tag: TAG_REGISTER_EARNINGS },
            best_effort: false,
        });
        fx.push(Effect::Publish(Notice::MilestoneClaimed(MilestoneClaimed { event_id, recipient, milestone, amount })));
        self.mark_seen(owner, op);
        proof {
            assert(fx@.subrange(0, fx@.len() - 4) =~= paid_fx);
        }
        Ok(fx)
    }
}

/// Whether `who` was already paid milestone `m`.
fn claim_recorded(cs: &Vec<MilestoneClaim>, who: Account, m: u32) -> (r: bool)
    ensures
        r == milestone_claimed(cs@, who, m),
{
    let target = MilestoneClaim { recipient: who, milestone: m };
    let mut i: usize = 0;
    while i < cs.len()
        invariant
            i <= cs@.len(),
            forall|j: int| 0 <= j < i ==> cs@[j] != target,
        decreases cs@.len() - i,
    {
        if cs[i] == target {
            assert(cs@.contains(target));
            return true;
        }
        i += 1;
    }
    false
}

/// One pass over the winner rows: `who`'s anchor, and how many milestones
/// it was paid and how much.
fn scan_winners(ws: &Vec<Winner>, who: Account) -> (r: (Option<(u32, u32)>, u32, i128))
    requires
        ws@.len() <= u32::MAX,
    ensures
        r.0 == anchor_of(ws@, who),
        r.1 == claims_of(ws@, who),
        r.2 == paid_to(ws@, who),
{
    let mut anchor: Option<(u32, u32)> = None;
    let mut count: u32 = 0;
    let mut paid: i128 = 0;
    let mut i: usize = 0;
    while i < ws.len()
        invariant
            i <= ws@.len() <= u32::MAX,
            anchor == anchor_of(ws@.subrange(0, i as int), who),
            count == claims_of(ws@.subrange(0, i as int), who),
            paid == paid_to(ws@.subrange(0, i as int), who),
        decreases ws@.len() - i,
    {
        let w = ws[i];
        proof {
            let pre = ws@.subrange(0, i + 1);
            assert(pre.drop_last() =~= ws@.subrange(0, i as int));
            assert(pre.last() == w);
            lemma_claims_bounded(ws@.subrange(0, i as int), who);
        }
        if w.recipient == who {
            match w.milestone {
                None => {
                    let b = match w.reputation_bump {
                        Some(b) => b,
                        None => 0,
                    };
                    anchor = Some((w.position, b));
                },
                Some(_) => {
                    count = count + 1;
                    paid = sat_add(paid, w.amount);
                },
            }
        }
        i += 1;
    }
    assert(ws@.subrange(0, ws@.len() as int) =~= ws@);
    (anchor, count, paid)
}

/// Grant milestones add up to the share: when a recipient claims all `n`
/// milestones, the first `n - 1` pay `share / n` each and the last pays the
/// rest, so the payouts total exactly `share`.
pub proof fn lemma_grant_milestones_total_share(share: i128, n: u32)
    requires
        share >= 0,
        n > 0,
    ensures
        ({
            let per = div_toward_zero(share as int, n as int);
            let paid_before_last = (n - 1) * per;
            &&& 0 <= paid_before_last <= share
            &&& forall|k: int| 0 <= k < n - 1 ==> #[trigger] grant_milestone_amount(share, n, k, (k * per) as i128) == per
            &&& paid_before_last + grant_milestone_amount(share, n, n - 1, paid_before_last as i128) == share
        }),
{
    let per = div_toward_zero(share as int, n as int);
    assert(per == (share as int) / (n as int));
    assert(0 <= per);
    assert((n - 1) * per <= n * per) by (nonlinear_arith)
        requires
            per >= 0,
            n >= 1,
    ;
    assert(n * ((share as int) / (n as int)) <= share) by (nonlinear_arith)
        requires
            n > 0,
            share >= 0,
    ;
    assert(0 <= (n - 1) * per) by (nonlinear_arith)
        requires
            per >= 0,
            n >= 1,
    ;
}

/// Crowdfunding milestones drain the escrow: paying `k` milestones out of
/// `left` remaining, each an equal part of what is left and the last one
/// everything, leaves an empty escrow once every milestone is paid.
pub open spec fn escrow_after_claims(remaining: i128, left: int, k: nat) -> int
    decreases k,
{
    if k == 0 {
        remaining as int
    } else {
        let before = escrow_after_claims(remaining, left, (k - 1) as nat);
        before - crowdfunding_milestone_amount(before as i128, left - (k - 1))
    }
}

/// Claiming the remaining crowdfunding milestones one after another never
/// overdraws the escrow, and the last claim empties it exactly.
pub proof fn lemma_crowdfunding_drains(remaining: i128, left: int, k: nat)
    requires
        remaining >= 0,
        left >= 1,
        k <= left,
    ensures
        0 <= escrow_after_claims(remaining, left, k) <= remaining,
        k == left ==> escrow_after_claims(remaining, left, k) == 0,
    decreases k,
{
    if k > 0 {
        lemma_crowdfunding_drains(remaining, left, (k - 1) as nat);
        let before = escrow_after_claims(remaining, left, (k - 1) as nat);
        let m = left - (k - 1);
        if m != 1 {
            assert(before / m <= before) by (nonlinear_arith)
                requires
                    before >= 0,
                    m >= 2,
            ;
            assert(before / m >= 0) by (nonlinear_arith)
                requires
                    before >= 0,
                    m >= 2,
            ;
        }
    }
}

} // verus!
