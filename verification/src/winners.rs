use vstd::prelude::*;

use crate::admin::sat_add_u32;
use crate::arith::{clamp_i128, div_pos, div_toward_zero, sat_add, sat_mul};
use crate::contract::{awards_unique, require_auth, EventEntry, EventsContract};
use crate::effects::{ChildOp, Effect, Reason, TAG_BOOTSTRAP, TAG_BUMP_REP, TAG_REGISTER_EARNINGS};
use crate::escrow::release;
use crate::errors::Error;
use crate::event_ops::{MAX_WINNERS_PER_SELECT, PRIZE_CLAIM_WINDOW_SECS};
use crate::events::{Notice, WinnerPaid, WinnersSelected};
use crate::idempotency::sat_add_u64;
use crate::types::{
    lookup, PercentMap, EventRecord, EventStatus, Invocation, OpId, Pillar, PrizeAward, ReleaseKind, SeenOp, Winner, WinnerSpec,
};

verus! {

/// The first problem among the first `k` winner specs: a position repeated
/// within the call, or one the distribution does not know.
pub open spec fn spec_scan_error(dist: Seq<(u32, u32)>, specs: Seq<WinnerSpec>, k: int) -> Option<Error>
    decreases k,
{
    if k <= 0 {
        None
    } else {
        match spec_scan_error(dist, specs, k - 1) {
            Some(e) => Some(e),
            None => if exists|j: int| 0 <= j < k - 1 && #[trigger] specs[j].position == specs[k - 1].position {
                Some(Error::DuplicateWinnerPosition)
            } else if lookup(dist, specs[k - 1].position) is None {
                Some(Error::InvalidWinnerPosition)
            } else {
                None
            },
        }
    }
}

/// The prize of a position holding `percent` of `base`.
pub open spec fn prize_amount(base: i128, percent: u32) -> i128 {
    div_toward_zero(clamp_i128(base * percent) as int, 100) as i128
}

pub open spec fn has_award(awards: Seq<PrizeAward>, position: u32) -> bool {
    exists|i: int| 0 <= i < awards.len() && awards[i].position == position
}

/// The first problem in pricing the first `k` specs against `base`: a
/// position already awarded, or a prize that comes out non-positive.
pub open spec fn award_scan_error(awards: Seq<PrizeAward>, dist: Seq<(u32, u32)>, base: i128, specs: Seq<WinnerSpec>, k: int) -> Option<Error>
    decreases k,
{
    if k <= 0 {
        None
    } else {
        match award_scan_error(awards, dist, base, specs, k - 1) {
            Some(e) => Some(e),
            None => if has_award(awards, specs[k - 1].position) {
                Some(Error::DuplicateWinnerPosition)
            } else if prize_amount(base, lookup(dist, specs[k - 1].position)->0) <= 0 {
                Some(Error::InvalidDistribution)
            } else {
                None
            },
        }
    }
}

/// Saturating total of the prizes of the first `k` specs.
pub open spec fn owed_total(dist: Seq<(u32, u32)>, base: i128, specs: Seq<WinnerSpec>, k: int) -> i128
    decreases k,
{
    if k <= 0 {
        0
    } else {
        clamp_i128(owed_total(dist, base, specs, k - 1) + prize_amount(base, lookup(dist, specs[k - 1].position)->0))
    }
}

/// Rows recorded for single-release winners.
pub open spec fn prize_rows(dist: Seq<(u32, u32)>, base: i128, specs: Seq<WinnerSpec>) -> Seq<Winner> {
    Seq::new(
        specs.len(),
        |i: int|
            Winner {
                recipient: specs[i].recipient,
                position: specs[i].position,
                amount: prize_amount(base, lookup(dist, specs[i].position)->0),
                milestone: None,
                paid_at: None,
                reputation_bump: None,
            },
    )
}

/// Awards recorded for single-release winners, anchored at their rows.
pub open spec fn award_rows(specs: Seq<WinnerSpec>, first_idx: int) -> Seq<PrizeAward> {
    Seq::new(
        specs.len(),
        |i: int|
            PrizeAward {
                position: specs[i].position,
                recipient: specs[i].recipient,
                anchor_idx: (first_idx + i) as u32,
                reputation_bump: specs[i].reputation_bump,
            },
    )
}

/// Anchor rows recorded for multi-release winners; milestones pay later.
pub open spec fn anchor_rows(specs: Seq<WinnerSpec>) -> Seq<Winner> {
    Seq::new(
        specs.len(),
        |i: int|
            Winner {
                recipient: specs[i].recipient,
                position: specs[i].position,
                amount: 0,
                milestone: None,
                paid_at: None,
                reputation_bump: Some(specs[i].reputation_bump),
            },
    )
}

impl EventsContract {
    /// The escrow every prize of the event is a share of.
    pub open spec fn prize_base(e: &EventEntry) -> i128 {
        match e.prize_base_escrow {
            Some(b) => b,
            None => e.record.remaining_escrow,
        }
    }

    /// Why `select_winners` is refused, if it is.
    pub open spec fn select_winners_error(&self, inv: &Invocation, event_id: u64, specs: Seq<WinnerSpec>, op: OpId) -> Option<Error> {
        let e = self.entry(event_id);
        let m = EventsContract::manager_of(&e);
        if self.paused {
            Some(Error::Paused)
        } else if !self.has_event(event_id) {
            Some(Error::EventNotFound)
        } else if self.op_seen(m, op) {
            Some(Error::OpAlreadySeen)
        } else if e.record.status != EventStatus::Active {
            Some(Error::EventNotActive)
        } else if e.record.pillar == Pillar::Crowdfunding {
            Some(Error::InvalidPillar)
        } else if !inv.authorizes(m) {
            Some(Error::Unauthorized)
        } else {
            selection_error(e, specs)
        }
    }

    /// Records the winners of an event. A single-release event fixes each
    /// winner's prize (its percentage of the escrow at the first selection)
    /// for the winner to claim, once per position, within the claim window;
    /// a multi-release event records anchor rows its milestones pay against.
    pub fn select_winners(&mut self, inv: &Invocation, event_id: u64, winners: Vec<WinnerSpec>, op: OpId) -> (r: Result<
        Vec<Effect>,
        Error,
    >)
        requires
            old(self).wf(),
            old(self).has_event(event_id) ==> old(self).entry(event_id).winners@.len() + winners@.len() <= u32::MAX,
        ensures
            final(self).wf(),
            r is Err ==> *final(self) == *old(self),
            r is Err <==> old(self).select_winners_error(inv, event_id, winners@, op) is Some,
            r matches Err(e) ==> Some(e) == old(self).select_winners_error(inv, event_id, winners@, op),
            r matches Ok(fx) ==> {
                let e0 = old(self).entry(event_id);
                let e = final(self).entry(event_id);
                &&& final(self).has_event(event_id)
                &&& EventsContract::only_entry_changed(old(self), final(self), event_id, e)
                &&& final(self).seen_ops@ == old(self).seen_ops@.push(SeenOp { domain: EventsContract::manager_of(&e0), op })
                &&& fx@ == seq![Effect::Publish(Notice::WinnersSelected(WinnersSelected { event_id, count: winners@.len() as u32 }))]
                &&& selection_recorded(e0, e, winners@, inv.timestamp)
            },
    {
        self.require_not_paused()?;
        let idx = match self.find_event(event_id) {
            Some(i) => i,
            None => return Err(Error::EventNotFound),
        };
        let manager = match self.events[idx].manager {
            Some(m) => m,
            None => self.events[idx].record.owner,
        };
        self.require_unseen(manager, op)?;
        if self.events[idx].record.status != EventStatus::Active {
            return Err(Error::EventNotActive);
        }
        if self.events[idx].record.pillar == Pillar::Crowdfunding {
            return Err(Error::InvalidPillar);
        }
        require_auth(inv, manager)?;
        assert(self.events@[idx as int].wf());
        check_selection(&self.events[idx], &winners)?;
        let ghost before = *self;
        record_selection(&mut self.events[idx], &winners, inv.timestamp);
        proof {
            let e1 = self.events@[idx as int];
            assert(self.events@ =~= before.events@.update(idx as int, e1));
            EventsContract::lemma_entry_update(&before, self, event_id, e1);
        }
        let mut fx: Vec<Effect> = Vec::new();
        fx.push(Effect::Publish(Notice::WinnersSelected(WinnersSelected { event_id, count: winners.len() as u32 })));
        self.mark_seen(manager, op);
        Ok(fx)
    }
}

/// Why the selection itself is refused for event entry `e`, if it is (the
/// part of `select_winners_error` after authorization).
pub open spec fn selection_error(e: EventEntry, specs: Seq<WinnerSpec>) -> Option<Error> {
    let dist = e.record.winner_distribution.entries@;
    let base = EventsContract::prize_base(&e);
    if e.record.release_kind == ReleaseKind::Single && e.winners@.len() > 0 && e.prize_base_escrow is None {
        Some(Error::WinnersAlreadySelected)
    } else if e.record.release_kind != ReleaseKind::Single && exists|i: int|
        0 <= i < e.winners@.len() && (#[trigger] e.winners@[i]).milestone is None {
        Some(Error::WinnersAlreadySelected)
    } else if specs.len() == 0 {
        Some(Error::NoSubmissions)
    } else if specs.len() > MAX_WINNERS_PER_SELECT {
        Some(Error::InvalidWinnerPosition)
    } else if spec_scan_error(dist, specs, specs.len() as int) is Some {
        spec_scan_error(dist, specs, specs.len() as int)
    } else if e.record.release_kind == ReleaseKind::Single {
        if award_scan_error(e.prize_awards@, dist, base, specs, specs.len() as int) is Some {
            award_scan_error(e.prize_awards@, dist, base, specs, specs.len() as int)
        } else if owed_total(dist, base, specs, specs.len() as int) > e.record.remaining_escrow {
            Some(Error::InsufficientEscrow)
        } else {
            None
        }
    } else {
        None
    }
}

/// `e` is `e0` after recording the winners `specs` at time `now`.
pub open spec fn selection_recorded(e0: EventEntry, e: EventEntry, specs: Seq<WinnerSpec>, now: u64) -> bool {
    let dist = e0.record.winner_distribution.entries@;
    let base = EventsContract::prize_base(&e0);
    let expiry = sat_add_u64(now, PRIZE_CLAIM_WINDOW_SECS);
    let cur = match e0.prize_claim_expiry { Some(t) => t, None => 0 };
    if e0.record.release_kind == ReleaseKind::Single {
        &&& e.winners@ == e0.winners@ + prize_rows(dist, base, specs)
        &&& e.prize_awards@ == e0.prize_awards@ + award_rows(specs, e0.winners@.len() as int)
        &&& e == (EventEntry {
            winners: e.winners,
            prize_awards: e.prize_awards,
            prize_base_escrow: Some(base),
            unclaimed_prizes: sat_add_u32(e0.unclaimed_prizes, specs.len() as u32),
            prize_claim_expiry: if expiry > cur { Some(expiry) } else { e0.prize_claim_expiry },
            ..e0
        })
    } else {
        &&& e.winners@ == e0.winners@ + anchor_rows(specs)
        &&& e == (EventEntry { winners: e.winners, ..e0 })
    }
}

/// Positions are distinct within the call and known to the distribution.
fn scan_positions(dist: &PercentMap, winners: &Vec<WinnerSpec>) -> (r: Result<(), Error>)
    ensures
        r is Err <==> spec_scan_error(dist.entries@, winners@, winners@.len() as int) is Some,
        r matches Err(e) ==> Some(e) == spec_scan_error(dist.entries@, winners@, winners@.len() as int),
        r is Ok ==> forall|a: int| 0 <= a < winners@.len() ==> lookup(dist.entries@, #[trigger] winners@[a].position) is Some,
        r is Ok ==> forall|a: int, b: int| 0 <= a < b < winners@.len() ==> winners@[a].position != winners@[b].position,
{
    let ghost specs = winners@;
    let ghost d = dist.entries@;
    let mut k: usize = 0;
    while k < winners.len()
        invariant
            k <= specs.len(),
            spec_scan_error(d, specs, k as int) is None,
            forall|a: int, b: int| 0 <= a < b < k ==> specs[a].position != specs[b].position,
            forall|a: int| 0 <= a < k ==> lookup(d, #[trigger] specs[a].position) is Some,
        decreases specs.len() - k,
    {
        let pos = winners[k].position;
        let mut j: usize = 0;
        while j < k
            invariant
                j <= k < specs.len(),
                pos == specs[k as int].position,
                forall|a: int| 0 <= a < j ==> specs[a].position != pos,
            decreases k - j,
        {
            if winners[j].position == pos {
                proof {
                    assert(specs[j as int].position == specs[k as int].position);
                    assert(spec_scan_error(d, specs, k + 1) == Some(Error::DuplicateWinnerPosition));
                    lemma_scan_error_sticks(d, specs, k + 1, specs.len() as int);
                }
                return Err(Error::DuplicateWinnerPosition);
            }
            j += 1;
        }
        proof {
            assert(!exists|a: int| 0 <= a < k && #[trigger] specs[a].position == specs[k as int].position);
        }
        if dist.get(pos).is_none() {
            proof {
                assert(spec_scan_error(d, specs, k + 1) == Some(Error::InvalidWinnerPosition));
                lemma_scan_error_sticks(d, specs, k + 1, specs.len() as int);
            }
            return Err(Error::InvalidWinnerPosition);
        }
        k += 1;
    }
    Ok(())
}

/// Once the scan finds a problem, longer prefixes report the same one.
proof fn lemma_scan_error_sticks(dist: Seq<(u32, u32)>, specs: Seq<WinnerSpec>, k: int, n: int)
    requires
        0 < k <= n,
        spec_scan_error(dist, specs, k) is Some,
    ensures
        spec_scan_error(dist, specs, n) == spec_scan_error(dist, specs, k),
    decreases n - k,
{
    if n > k {
        lemma_scan_error_sticks(dist, specs, k, n - 1);
    }
}

proof fn lemma_award_error_sticks(awards: Seq<PrizeAward>, dist: Seq<(u32, u32)>, base: i128, specs: Seq<WinnerSpec>, k: int, n: int)
    requires
        0 < k <= n,
        award_scan_error(awards, dist, base, specs, k) is Some,
    ensures
        award_scan_error(awards, dist, base, specs, n) == award_scan_error(awards, dist, base, specs, k),
    decreases n - k,
{
    if n > k {
        lemma_award_error_sticks(awards, dist, base, specs, k, n - 1);
    }
}

/// Prices the winners against `base` and returns the total owed.
fn price_prizes(e: &EventEntry, base: i128, winners: &Vec<WinnerSpec>) -> (r: Result<i128, Error>)
    requires
        forall|a: int| 0 <= a < winners@.len() ==> lookup(e.record.winner_distribution.entries@, #[trigger] winners@[a].position) is Some,
    ensures
        r is Err <==> award_scan_error(e.prize_awards@, e.record.winner_distribution.entries@, base, winners@, winners@.len() as int) is Some,
        r matches Err(err) ==> Some(err) == award_scan_error(e.prize_awards@, e.record.winner_distribution.entries@, base, winners@, winners@.len() as int),
        r matches Ok(t) ==> t == owed_total(e.record.winner_distribution.entries@, base, winners@, winners@.len() as int),
        r is Ok ==> forall|a: int| 0 <= a < winners@.len() ==> !has_award(e.prize_awards@, #[trigger] winners@[a].position),
{
    let ghost specs = winners@;
    let ghost dist = e.record.winner_distribution.entries@;
    let mut total_owed: i128 = 0;
    let mut k: usize = 0;
    while k < winners.len()
        invariant
            k <= specs.len(),
            award_scan_error(e.prize_awards@, dist, base, specs, k as int) is None,
            total_owed == owed_total(dist, base, specs, k as int),
            forall|a: int| 0 <= a < k ==> !has_award(e.prize_awards@, #[trigger] specs[a].position),
        decreases specs.len() - k,
    {
        let pos = winners[k].position;
        let mut a: usize = 0;
        while a < e.prize_awards.len()
            invariant
                a <= e.prize_awards@.len(),
                forall|b: int| 0 <= b < a ==> e.prize_awards@[b].position != pos,
            decreases e.prize_awards@.len() - a,
        {
            if e.prize_awards[a].position == pos {
                proof {
                    assert(has_award(e.prize_awards@, specs[k as int].position));
                    lemma_award_error_sticks(e.prize_awards@, dist, base, specs, k + 1, specs.len() as int);
                }
                return Err(Error::DuplicateWinnerPosition);
            }
            a += 1;
        }
        let pct = e.record.winner_distribution.get(pos).unwrap();
        let amount = div_pos(sat_mul(base, pct as i128), 100);
        if amount <= 0 {
            proof {
                lemma_award_error_sticks(e.prize_awards@, dist, base, specs, k + 1, specs.len() as int);
            }
            return Err(Error::InvalidDistribution);
        }
        total_owed = sat_add(total_owed, amount);
        k += 1;
    }
    Ok(total_owed)
}

/// Checks whether the selection may be recorded on entry `e`.
fn check_selection(e: &EventEntry, winners: &Vec<WinnerSpec>) -> (r: Result<(), Error>)
    requires
        e.wf(),
    ensures
        r is Err <==> selection_error(*e, winners@) is Some,
        r matches Err(err) ==> Some(err) == selection_error(*e, winners@),
{
    let single = e.record.release_kind == ReleaseKind::Single;
    if single {
        if e.winners.len() > 0 && e.prize_base_escrow.is_none() {
            return Err(Error::WinnersAlreadySelected);
        }
    } else {
        let mut k: usize = 0;
        while k < e.winners.len()
            invariant
                k <= e.winners@.len(),
                forall|j: int| 0 <= j < k ==> (#[trigger] e.winners@[j]).milestone is Some,
            decreases e.winners@.len() - k,
        {
            if e.winners[k].milestone.is_none() {
                return Err(Error::WinnersAlreadySelected);
            }
            k += 1;
        }
    }
    if winners.len() == 0 {
        return Err(Error::NoSubmissions);
    }
    if winners.len() > MAX_WINNERS_PER_SELECT as usize {
        return Err(Error::InvalidWinnerPosition);
    }
    scan_positions(&e.record.winner_distribution, winners)?;
    if single {
        let base = match e.prize_base_escrow {
            Some(b) => b,
            None => e.record.remaining_escrow,
        };
        let total_owed = price_prizes(e, base, winners)?;
        if total_owed > e.record.remaining_escrow {
            return Err(Error::InsufficientEscrow);
        }
    }
    Ok(())
}

/// Records an accepted selection on entry `e`.
fn record_selection(e: &mut EventEntry, winners: &Vec<WinnerSpec>, now: u64)
    requires
        old(e).wf(),
        selection_error(*old(e), winners@) is None,
        old(e).winners@.len() + winners@.len() <= u32::MAX,
    ensures
        final(e).wf(),
        final(e).record.id == old(e).record.id,
        selection_recorded(*old(e), *final(e), winners@, now),
{
    let ghost e0 = *e;
    let ghost specs = winners@;
    let ghost dist = e0.record.winner_distribution.entries@;
    let existing_count = e.winners.len();
    let count = winners.len() as u32;
    if e.record.release_kind == ReleaseKind::Single {
        let base = match e.prize_base_escrow {
            Some(b) => b,
            None => e.record.remaining_escrow,
        };
        proof {
            // the scans passed, so every position is known and fresh
            assert(spec_scan_error(dist, specs, specs.len() as int) is None);
        }
        let mut k: usize = 0;
        while k < winners.len()
            invariant
                k <= specs.len(),
                existing_count == e0.winners@.len(),
                e0.winners@.len() + specs.len() <= u32::MAX,
                *e == (EventEntry { winners: e.winners, prize_awards: e.prize_awards, ..e0 }),
                e.winners@ == e0.winners@ + prize_rows(dist, base, specs).subrange(0, k as int),
                e.prize_awards@ == e0.prize_awards@ + award_rows(specs, e0.winners@.len() as int).subrange(0, k as int),
                base == EventsContract::prize_base(&e0),
            decreases specs.len() - k,
        {
            let s = winners[k];
            let pct = match e.record.winner_distribution.get(s.position) {
                Some(p) => p,
                None => 0,
            };
            proof {
                lemma_scan_known(dist, specs, k as int, specs.len() as int);
            }
            let amount = div_pos(sat_mul(base, pct as i128), 100);
            let anchor_idx = (existing_count + k) as u32;
            e.winners.push(Winner {
                recipient: s.recipient,
                position: s.position,
                amount,
                milestone: None,
                paid_at: None,
                reputation_bump: None,
            });
            e.prize_awards.push(PrizeAward {
                position: s.position,
                recipient: s.recipient,
                anchor_idx,
                reputation_bump: s.reputation_bump,
            });
            k += 1;
            proof {
                assert(e.winners@ =~= e0.winners@ + prize_rows(dist, base, specs).subrange(0, k as int));
                assert(e.prize_awards@ =~= e0.prize_awards@ + award_rows(specs, e0.winners@.len() as int).subrange(0, k as int));
            }
        }
        e.prize_base_escrow = Some(base);
        e.unclaimed_prizes = e.unclaimed_prizes.saturating_add(count);
        let expiry = now.saturating_add(PRIZE_CLAIM_WINDOW_SECS);
        let cur = match e.prize_claim_expiry {
            Some(t) => t,
            None => 0,
        };
        if expiry > cur {
            e.prize_claim_expiry = Some(expiry);
        }
        proof {
            assert(prize_rows(dist, base, specs).subrange(0, specs.len() as int) =~= prize_rows(dist, base, specs));
            assert(award_rows(specs, e0.winners@.len() as int).subrange(0, specs.len() as int) =~= award_rows(specs, e0.winners@.len() as int));
            lemma_fresh_positions(e0, specs);
            assert(awards_unique(e.prize_awards@)) by {
                let olds = e0.prize_awards@;
                assert forall|i: int, j: int| 0 <= i < j < e.prize_awards@.len() implies e.prize_awards@[i].position
                    != e.prize_awards@[j].position by {
                    let n = olds.len() as int;
                    if j < n {
                        assert(olds[i].position != olds[j].position);
                    } else if i < n {
                        assert(e.prize_awards@[j].position == specs[j - n].position);
                        assert(!has_award(olds, specs[j - n].position));
                    } else {
                        assert(specs[i - n].position != specs[j - n].position);
                    }
                }
            }
        }
    } else {
        let mut k: usize = 0;
        while k < winners.len()
            invariant
                k <= specs.len(),
                e0.winners@.len() + specs.len() <= u32::MAX,
                *e == (EventEntry { winners: e.winners, ..e0 }),
                e.winners@ == e0.winners@ + anchor_rows(specs).subrange(0, k as int),
            decreases specs.len() - k,
        {
            let s = winners[k];
            e.winners.push(Winner {
                recipient: s.recipient,
                position: s.position,
                amount: 0,
                milestone: None,
                paid_at: None,
                reputation_bump: Some(s.reputation_bump),
            });
            k += 1;
            proof {
                assert(e.winners@ =~= e0.winners@ + anchor_rows(specs).subrange(0, k as int));
            }
        }
        proof {
            assert(anchor_rows(specs).subrange(0, specs.len() as int) =~= anchor_rows(specs));
        }
    }
}

/// A passed position scan means every position is known to the distribution.
proof fn lemma_scan_known(dist: Seq<(u32, u32)>, specs: Seq<WinnerSpec>, k: int, n: int)
    requires
        0 <= k < n <= specs.len(),
        spec_scan_error(dist, specs, n) is None,
    ensures
        lookup(dist, specs[k].position) is Some,
    decreases n,
{
    if n > k + 1 {
        lemma_scan_known(dist, specs, k, n - 1);
    }
}

/// A passed selection check on a single-release entry means the positions
/// are distinct and none is already awarded.
proof fn lemma_fresh_positions(e: EventEntry, specs: Seq<WinnerSpec>)
    requires
        e.record.release_kind == ReleaseKind::Single,
        selection_error(e, specs) is None,
    ensures
        forall|a: int, b: int| 0 <= a < b < specs.len() ==> specs[a].position != specs[b].position,
        forall|a: int| 0 <= a < specs.len() ==> !has_award(e.prize_awards@, #[trigger] specs[a].position),
{
    let dist = e.record.winner_distribution.entries@;
    let base = EventsContract::prize_base(&e);
    let n = specs.len() as int;
    assert forall|a: int, b: int| 0 <= a < b < n implies specs[a].position != specs[b].position by {
        lemma_scan_distinct(dist, specs, b + 1, n);
        assert(spec_scan_error(dist, specs, b + 1) is None);
        if specs[a].position == specs[b].position {
            assert(exists|j: int| 0 <= j < b && #[trigger] specs[j].position == specs[b].position);
        }
    }
    assert forall|a: int| 0 <= a < n implies !has_award(e.prize_awards@, #[trigger] specs[a].position) by {
        lemma_award_prefix_clear(e.prize_awards@, dist, base, specs, a + 1, n);
    }
}

proof fn lemma_scan_distinct(dist: Seq<(u32, u32)>, specs: Seq<WinnerSpec>, k: int, n: int)
    requires
        0 <= k <= n,
        spec_scan_error(dist, specs, n) is None,
    ensures
        spec_scan_error(dist, specs, k) is None,
    decreases n - k,
{
    if n > k {
        lemma_scan_distinct(dist, specs, k, n - 1);
    }
}

proof fn lemma_award_prefix_clear(awards: Seq<PrizeAward>, dist: Seq<(u32, u32)>, base: i128, specs: Seq<WinnerSpec>, k: int, n: int)
    requires
        0 < k <= n,
        award_scan_error(awards, dist, base, specs, n) is None,
    ensures
        !has_award(awards, specs[k - 1].position),
    decreases n - k,
{
    if n > k {
        lemma_award_prefix_clear(awards, dist, base, specs, k, n - 1);
    }
}


/// Index of the award of `position` (meaningful when there is one).
pub open spec fn award_index(awards: Seq<PrizeAward>, position: u32) -> int {
    choose|i: int| 0 <= i < awards.len() && awards[i].position == position
}

/// Position of the award of `position`.
pub fn find_award(v: &Vec<PrizeAward>, position: u32) -> (r: Option<usize>)
    requires
        awards_unique(v@),
    ensures
        r is None <==> !has_award(v@, position),
        r matches Some(k) ==> k < v@.len() && v@[k as int].position == position && k == award_index(v@, position),
{
    let mut i: usize = 0;
    while i < v.len()
        invariant
            i <= v@.len(),
            forall|j: int| 0 <= j < i ==> v@[j].position != position,
        decreases v@.len() - i,
    {
        if v[i].position == position {
            proof {
                let c = award_index(v@, position);
                if c != i as int {
                    if c < i {
                        assert(v@[c].position != v@[i as int].position);
                    } else {
                        assert(v@[i as int].position != v@[c].position);
                    }
                }
            }
            return Some(i);
        }
        i += 1;
    }
    None
}

impl EventsContract {
    /// Why `claim_prize` is refused, if it is.
    pub open spec fn claim_prize_error(&self, inv: &Invocation, event_id: u64, position: u32, op: OpId) -> Option<Error> {
        let e = self.entry(event_id);
        let award = e.prize_awards@[award_index(e.prize_awards@, position)];
        let anchor = e.winners@[award.anchor_idx as int];
        if self.paused {
            Some(Error::Paused)
        } else if !self.has_event(event_id) {
            Some(Error::EventNotFound)
        } else if e.record.status != EventStatus::Active {
            Some(Error::EventNotActive)
        } else if e.record.release_kind != ReleaseKind::Single {
            Some(Error::InvalidReleaseKind)
        } else if !has_award(e.prize_awards@, position) {
            Some(Error::InvalidWinnerPosition)
        } else if !inv.authorizes(award.recipient) {
            Some(Error::Unauthorized)
        } else if self.op_seen(award.recipient, op) {
            Some(Error::OpAlreadySeen)
        } else if award.anchor_idx >= e.winners@.len() {
            Some(Error::InvalidWinnerPosition)
        } else if anchor.recipient != award.recipient || anchor.position != position {
            Some(Error::InvalidWinnerPosition)
        } else if anchor.paid_at is Some {
            Some(Error::PrizeAlreadyClaimed)
        } else if anchor.amount <= 0 {
            Some(Error::InvalidDistribution)
        } else if anchor.amount > e.record.remaining_escrow {
            Some(Error::InsufficientEscrow)
        } else {
            None
        }
    }

    /// `new` is `old` after the prize of `position` was paid: the escrow
    /// shrinks by the prize, the event completes when it empties, the
    /// winner's row is stamped paid, one prize fewer is unclaimed, and the
    /// winner's operation id is recorded. Nothing else changes.
    pub open spec fn prize_claim_recorded(old: &EventsContract, new: &EventsContract, inv: &Invocation, event_id: u64, position: u32, op: OpId) -> bool {
        let e0 = old.entry(event_id);
        let rec = e0.record;
        let award = e0.prize_awards@[award_index(e0.prize_awards@, position)];
        let anchor = e0.winners@[award.anchor_idx as int];
        let amount = anchor.amount;
        let left = rec.remaining_escrow - amount;
        let e = new.entry(event_id);
        &&& new.has_event(event_id)
        &&& e == (EventEntry {
            record: EventRecord {
                remaining_escrow: left as i128,
                status: if left == 0 { EventStatus::Completed } else { rec.status },
                ..rec
            },
            winners: e.winners,
            unclaimed_prizes: if e0.unclaimed_prizes > 0 { (e0.unclaimed_prizes - 1) as u32 } else { 0 },
            ..e0
        })
        &&& e.winners@ == e0.winners@.update(award.anchor_idx as int, Winner {
            recipient: anchor.recipient,
            position,
            amount,
            milestone: None,
            paid_at: Some(inv.timestamp),
            reputation_bump: anchor.reputation_bump,
        })
        &&& EventsContract::only_entry_changed(old, new, event_id, e)
        &&& new.seen_ops@ == old.seen_ops@.push(SeenOp { domain: award.recipient, op })
    }

    /// Pays the prize recorded for `position` to its winner, who must sign.
    /// The prize is paid once; the event completes when its escrow empties.
    /// Profile updates follow the payment and may fail without undoing it.
    pub fn claim_prize(&mut self, inv: &Invocation, event_id: u64, position: u32, op: OpId) -> (r: Result<Vec<Effect>, Error>)
        requires
            old(self).wf(),
        ensures
            final(self).wf(),
            r is Err ==> *final(self) == *old(self),
            r is Err <==> old(self).claim_prize_error(inv, event_id, position, op) is Some,
            r matches Err(e) ==> Some(e) == old(self).claim_prize_error(inv, event_id, position, op),
            r matches Ok(fx) ==> {
                let e0 = old(self).entry(event_id);
                let rec = e0.record;
                let award = e0.prize_awards@[award_index(e0.prize_awards@, position)];
                let amount = e0.winners@[award.anchor_idx as int].amount;
                &&& EventsContract::prize_claim_recorded(old(self), final(self), inv, event_id, position, op)
                &&& fx@ == seq![
                    Effect::Pay { token: rec.token, to: award.recipient, amount },
                    Effect::Publish(Notice::WinnerPaid(WinnerPaid {
                        event_id,
                        recipient: award.recipient,
                        position,
                        amount,
                        milestone: None,
                    })),
                    Effect::Bootstrap { user: award.recipient, op: ChildOp { parent: op, tag: TAG_BOOTSTRAP }, best_effort: true },
                    Effect::BumpReputation {
                        user: award.recipient,
                        delta: award.reputation_bump,
                        reason: Reason::Win,
                        op: ChildOp { parent: op, tag: TAG_BUMP_REP },
                        best_effort: true,
                    },
                    Effect::RegisterEarnings {
                        user: award.recipient,
                        token: rec.token,
                        amount,
                        op: ChildOp { parent: op, tag: TAG_REGISTER_EARNINGS },
                        best_effort: true,
                    },
                ]
            },
    {
        self.require_not_paused()?;
        let idx = match self.find_event(event_id) {
            Some(i) => i,
            None => return Err(Error::EventNotFound),
        };
        if self.events[idx].record.status != EventStatus::Active {
            return Err(Error::EventNotActive);
        }
        if self.events[idx].record.release_kind != ReleaseKind::Single {
            return Err(Error::InvalidReleaseKind);
        }
        assert(self.events@[idx as int].wf());
        let k = match find_award(&self.events[idx].prize_awards, position) {
            Some(k) => k,
            None => return Err(Error::InvalidWinnerPosition),
        };
        let award = self.events[idx].prize_awards[k];
        require_auth(inv, award.recipient)?;
        self.require_unseen(award.recipient, op)?;
        let a = award.anchor_idx as usize;
        if a >= self.events[idx].winners.len() {
            return Err(Error::InvalidWinnerPosition);
        }
        let anchor = self.events[idx].winners[a];
        if anchor.recipient != award.recipient || anchor.position != position {
            return Err(Error::InvalidWinnerPosition);
        }
        if anchor.paid_at.is_some() {
            return Err(Error::PrizeAlreadyClaimed);
        }
        let amount = anchor.amount;
        if amount <= 0 {
            return Err(Error::InvalidDistribution);
        }
        if amount > self.events[idx].record.remaining_escrow {
            return Err(Error::InsufficientEscrow);
        }
        let token = self.events[idx].record.token;
        let ghost before = *self;
        self.events[idx].winners.set(a, Winner {
            recipient: anchor.recipient,
            position,
            amount,
            milestone: None,
            paid_at: Some(inv.timestamp),
            reputation_bump: anchor.reputation_bump,
        });
        self.events[idx].unclaimed_prizes = self.events[idx].unclaimed_prizes.saturating_sub(1);
        let left = self.events[idx].record.remaining_escrow - amount;
        self.events[idx].record.remaining_escrow = left;
        if left == 0 {
            self.events[idx].record.status = EventStatus::Completed;
        }
        proof {
            let e1 = self.events@[idx as int];
            assert(self.events@ =~= before.events@.update(idx as int, e1));
            assert(e1.wf());
            EventsContract::lemma_entry_update(&before, self, event_id, e1);
        }
        self.mark_seen(award.recipient, op);
        let mut fx: Vec<Effect> = Vec::new();
        release(token, award.recipient, amount, &mut fx);
        fx.push(Effect::Publish(Notice::WinnerPaid(WinnerPaid {
            event_id,
            recipient: award.recipient,
            position,
            amount,
            milestone: None,
        })));
        fx.push(Effect::Bootstrap { user: award.recipient, op: ChildOp { parent: op, tag: TAG_BOOTSTRAP }, best_effort: true });
        fx.push(Effect::BumpReputation {
            user: award.recipient,
            delta: award.reputation_bump,
            reason: Reason::Win,
            op: ChildOp { parent: op, tag: TAG_BUMP_REP },
            best_effort: true,
        });
        fx.push(Effect::RegisterEarnings {
            user: award.recipient,
            token,
            amount,
            op: ChildOp { parent: op, tag: TAG_REGISTER_EARNINGS },
            best_effort: true,
        });
        Ok(fx)
    }
}

/// Prizes are priced against the escrow fixed at the first selection: on a
/// single-release event that already has a stored prize base `b`, each
/// winner a later selection records is priced at `b * percent / 100` for
/// its position, whatever escrow is left, and the base stays `b`. The first
/// selection fixes the base at the escrow held then.
pub proof fn law_prizes_priced_against_first_base(e0: EventEntry, e: EventEntry, specs: Seq<WinnerSpec>, now: u64, i: int)
    requires
        e0.record.release_kind == ReleaseKind::Single,
        selection_recorded(e0, e, specs, now),
        0 <= i < specs.len(),
        lookup(e0.record.winner_distribution.entries@, specs[i].position) is Some,
    ensures
        ({
            let pct = lookup(e0.record.winner_distribution.entries@, specs[i].position)->0;
            let b = match e0.prize_base_escrow { Some(b) => b, None => e0.record.remaining_escrow };
            &&& e.prize_base_escrow == Some(b)
            &&& e0.prize_base_escrow is None ==> b == e0.record.remaining_escrow
            &&& e.winners@[e0.winners@.len() + i].recipient == specs[i].recipient
            &&& e.winners@[e0.winners@.len() + i].position == specs[i].position
            &&& b >= 0 && b * pct <= i128::MAX ==> e.winners@[e0.winners@.len() + i].amount as int == (b as int * pct as int) / 100
        }),
{
    let dist = e0.record.winner_distribution.entries@;
    let pct = lookup(dist, specs[i].position)->0;
    let b = match e0.prize_base_escrow { Some(b) => b, None => e0.record.remaining_escrow };
    assert(e.winners@[e0.winners@.len() + i] == prize_rows(dist, b, specs)[i]);
    if b >= 0 && b * pct <= i128::MAX {
        assert(b * pct >= 0) by (nonlinear_arith)
            requires
                b >= 0,
                pct >= 0,
        ;
    }
}

} // verus!
