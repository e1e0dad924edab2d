use vstd::prelude::*;

use crate::contract::{position_of, EventEntry, EventsContract};
use crate::errors::Error;
use crate::event_ops::{find_contributor, find_submission, has_submission};
use crate::grant::milestone_claimed;
use crate::reads::{page, page_of_accounts};
use crate::types::{Account, CancellationState, MilestoneClaim, PrizeAward, Winner};
use crate::whitelist::{lemma_swap_remove, swap_remove_spec};
use crate::winners::{award_index, find_award, has_award};

verus! {

/// A page of winner rows.
pub fn page_of_winners(v: &Vec<Winner>, start: u32, limit: u32) -> (r: Vec<Winner>)
    ensures
        r@ == page(v@, start, limit),
{
    let total = v.len();
    let s = start.saturating_add(limit) as usize;
    let end = if s < total { s } else { total };
    let mut out: Vec<Winner> = Vec::new();
    let mut i = start as usize;
    if i < end {
        while i < end
            invariant
                start <= i <= end <= v@.len(),
                out@ == v@.subrange(start as int, i as int),
            decreases end - i,
        {
            out.push(v[i]);
            i += 1;
            assert(out@ =~= v@.subrange(start as int, i as int));
        }
    } else {
        assert(out@ =~= page(v@, start, limit));
    }
    out
}

/// The 1-based slot of `x` in a duplicate-free list, 0 when absent.
pub open spec fn slot_of(s: Seq<Account>, x: Account) -> u32 {
    if s.contains(x) { (s.index_of(x) + 1) as u32 } else { 0 }
}

impl EventEntry {
    pub fn applicant_count(&self) -> (n: u32)
        requires
            self.wf(),
        ensures
            n == self.applicants@.len(),
    {
        self.applicants.len() as u32
    }

    /// The applicant in slot `idx + 1`, if any.
    pub fn applicant_at(&self, idx: u32) -> (r: Option<Account>)
        ensures
            r == if idx < self.applicants@.len() { Some(self.applicants@[idx as int]) } else { None::<Account> },
    {
        if (idx as usize) < self.applicants.len() {
            Some(self.applicants[idx as usize])
        } else {
            None
        }
    }

    /// The 1-based slot of `addr` among the applicants, 0 when absent.
    pub fn applicant_slot(&self, addr: Account) -> (slot: u32)
        requires
            self.wf(),
        ensures
            slot == slot_of(self.applicants@, addr),
    {
        match position_of(&self.applicants, addr) {
            Some(k) => {
                proof {
                    let s = self.applicants@;
                    assert(s.contains(addr));
                    let j = s.index_of(addr);
                    assert(s[j] == addr);
                    if j != k as int {
                        assert(s[k as int] == s[j]);
                    }
                }
                (k + 1) as u32
            },
            None => 0,
        }
    }

    /// Adds `addr` in the next slot and returns that slot. The only limit is
    /// the 32-bit slot counter.
    pub fn append_applicant(&mut self, addr: Account) -> (r: Result<u32, Error>)
        requires
            old(self).wf(),
        ensures
            final(self).wf(),
            r is Err <==> old(self).applicants@.contains(addr) || old(self).applicants@.len() == u32::MAX,
            r matches Err(e) ==> e == if old(self).applicants@.contains(addr) {
                Error::ApplicantAlreadyApplied
            } else {
                Error::TooManyApplicants
            },
            r is Err ==> *final(self) == *old(self),
            r matches Ok(slot) ==> final(self).applicants@ == old(self).applicants@.push(addr)
                && slot == final(self).applicants@.len()
                && *final(self) == (EventEntry { applicants: final(self).applicants, ..*old(self) }),
    {
        if position_of(&self.applicants, addr).is_some() {
            return Err(Error::ApplicantAlreadyApplied);
        }
        if self.applicants.len() >= 0xFFFF_FFFFusize {
            return Err(Error::TooManyApplicants);
        }
        let ghost a0 = self.applicants@;
        self.applicants.push(addr);
        proof {
            let a1 = self.applicants@;
            assert forall|i: int, j: int| 0 <= i < a1.len() && 0 <= j < a1.len() && i != j implies a1[i] != a1[j] by {
                if i == a0.len() {
                    assert(a0[j] != addr);
                } else if j == a0.len() {
                    assert(a0[i] != addr);
                }
            }
        }
        Ok(self.applicants.len() as u32)
    }

    /// Removes `addr`; the last applicant moves into its slot.
    pub fn remove_applicant(&mut self, addr: Account) -> (r: Result<(), Error>)
        requires
            old(self).wf(),
        ensures
            final(self).wf(),
            r is Err <==> !old(self).applicants@.contains(addr),
            r matches Err(e) ==> e == Error::ApplicantNotApplied,
            r is Err ==> *final(self) == *old(self),
            r is Ok ==> final(self).applicants@ == swap_remove_spec(old(self).applicants@, old(self).applicants@.index_of(addr))
                && !final(self).applicants@.contains(addr)
                && (forall|a: Account| a != addr ==> (final(self).applicants@.contains(a) <==> old(self).applicants@.contains(a)))
                && *final(self) == (EventEntry { applicants: final(self).applicants, ..*old(self) }),
    {
        let k = match position_of(&self.applicants, addr) {
            Some(k) => k,
            None => return Err(Error::ApplicantNotApplied),
        };
        proof {
            let s = self.applicants@;
            let j = s.index_of(addr);
            assert(s.contains(addr));
            assert(s[j] == addr);
            if j != k as int {
                assert(s[k as int] == s[j]);
            }
            lemma_swap_remove(s, k as int);
        }
        self.applicants.swap_remove(k);
        Ok(())
    }

    /// Applicants in slots `start + 1 ..= start + limit` (clamped).
    pub fn applicants_snapshot(&self, start: u32, limit: u32) -> (r: Vec<Account>)
        ensures
            r@ == page(self.applicants@, start, limit),
    {
        page_of_accounts(&self.applicants, start, limit)
    }

    /// How many submissions `applicant` has (at most one).
    pub fn applicant_submission_count(&self, applicant: Account) -> (n: u32)
        requires
            self.wf(),
        ensures
            n == if has_submission(self.submissions@, applicant) { 1u32 } else { 0u32 },
    {
        if find_submission(&self.submissions, applicant).is_some() { 1 } else { 0 }
    }

    pub fn has_any_submission(&self, applicant: Account) -> (b: bool)
        requires
            self.wf(),
        ensures
            b == has_submission(self.submissions@, applicant),
    {
        find_submission(&self.submissions, applicant).is_some()
    }

    /// Number of submissions, saturating at `u32::MAX`.
    pub fn submission_count(&self) -> (n: u32)
        ensures
            n == if self.submissions@.len() < u32::MAX { self.submissions@.len() } else { u32::MAX as nat },
    {
        if self.submissions.len() < 0xFFFF_FFFFusize { self.submissions.len() as u32 } else { 0xFFFF_FFFFu32 }
    }

    pub fn winner_count(&self) -> (n: u32)
        requires
            self.wf(),
        ensures
            n == self.winners@.len(),
    {
        self.winners.len() as u32
    }

    pub fn winner_at(&self, idx: u32) -> (r: Option<Winner>)
        ensures
            r == if idx < self.winners@.len() { Some(self.winners@[idx as int]) } else { None::<Winner> },
    {
        if (idx as usize) < self.winners.len() {
            Some(self.winners[idx as usize])
        } else {
            None
        }
    }

    /// Appends a winner row; a full list (`u32::MAX` rows) is left as it is.
    pub fn append_winner(&mut self, w: Winner)
        requires
            old(self).wf(),
        ensures
            final(self).wf(),
            final(self).winners@ == if old(self).winners@.len() < u32::MAX {
                old(self).winners@.push(w)
            } else {
                old(self).winners@
            },
            *final(self) == (EventEntry { winners: final(self).winners, ..*old(self) }),
    {
        if self.winners.len() < 0xFFFF_FFFFusize {
            self.winners.push(w);
        }
    }

    /// Winner rows `start ..< start + limit` (clamped).
    pub fn winners_snapshot(&self, start: u32, limit: u32) -> (r: Vec<Winner>)
        ensures
            r@ == page(self.winners@, start, limit),
    {
        page_of_winners(&self.winners, start, limit)
    }

    pub fn contributor_count(&self) -> (n: u32)
        requires
            self.wf(),
        ensures
            n == self.contributors@.len(),
    {
        self.contributors.len() as u32
    }

    /// The partner in slot `idx + 1`, if any.
    pub fn contributor_at(&self, idx: u32) -> (r: Option<Account>)
        ensures
            r == if idx < self.contributors@.len() { Some(self.contributors@[idx as int].contributor) } else { None::<Account> },
    {
        if (idx as usize) < self.contributors.len() {
            Some(self.contributors[idx as usize].contributor)
        } else {
            None
        }
    }

    /// The 1-based slot of partner `addr`, 0 when it has none.
    pub fn contributor_slot(&self, addr: Account) -> (slot: u32)
        requires
            self.wf(),
        ensures
            slot == slot_of(self.contributors@.map_values(|c: crate::types::Contribution| c.contributor), addr),
    {
        let ghost s = self.contributors@.map_values(|c: crate::types::Contribution| c.contributor);
        match find_contributor(&self.contributors, addr) {
            Some(k) => {
                proof {
                    assert(s[k as int] == addr);
                    assert(s.contains(addr));
                    let j = s.index_of(addr);
                    assert(s[j] == addr);
                    if j != k as int {
                        if j < k {
                            assert(self.contributors@[j].contributor != self.contributors@[k as int].contributor);
                        } else {
                            assert(self.contributors@[k as int].contributor != self.contributors@[j].contributor);
                        }
                    }
                }
                (k + 1) as u32
            },
            None => {
                proof {
                    if s.contains(addr) {
                        let j = s.index_of(addr);
                        assert(self.contributors@[j].contributor == addr);
                    }
                }
                0
            },
        }
    }

    /// Partners in slots `start + 1 ..= start + limit` (clamped).
    pub fn contributors_snapshot(&self, start: u32, limit: u32) -> (r: Vec<Account>)
        ensures
            r@ == page(self.contributors@.map_values(|c: crate::types::Contribution| c.contributor), start, limit),
    {
        let ghost s = self.contributors@.map_values(|c: crate::types::Contribution| c.contributor);
        let total = self.contributors.len();
        let e = start.saturating_add(limit) as usize;
        let end = if e < total { e } else { total };
        let mut out: Vec<Account> = Vec::new();
        let mut i = start as usize;
        if i < end {
            while i < end
                invariant
                    start <= i <= end <= s.len(),
                    s.len() == self.contributors@.len(),
                    out@ == s.subrange(start as int, i as int),
                decreases end - i,
            {
                out.push(self.contributors[i].contributor);
                i += 1;
                assert(out@ =~= s.subrange(start as int, i as int));
            }
        } else {
            assert(out@ =~= page(s, start, limit));
        }
        out
    }

    /// The prize recorded for `position`, if any.
    pub fn get_prize_award(&self, position: u32) -> (r: Option<PrizeAward>)
        requires
            self.wf(),
        ensures
            r is Some <==> has_award(self.prize_awards@, position),
            r matches Some(a) ==> a == self.prize_awards@[award_index(self.prize_awards@, position)],
    {
        match find_award(&self.prize_awards, position) {
            Some(k) => Some(self.prize_awards[k]),
            None => None,
        }
    }

    pub fn unclaimed_prize_count(&self) -> (n: u32)
        ensures
            n == self.unclaimed_prizes,
    {
        self.unclaimed_prizes
    }

    pub fn get_prize_base_escrow(&self) -> (r: Option<i128>)
        ensures
            r == self.prize_base_escrow,
    {
        self.prize_base_escrow
    }

    pub fn get_prize_claim_expiry(&self) -> (r: Option<u64>)
        ensures
            r == self.prize_claim_expiry,
    {
        self.prize_claim_expiry
    }

    /// The running sum of partner contributions, once initialized.
    pub fn get_non_owner_contribution_total(&self) -> (r: Option<i128>)
        ensures
            r == self.non_owner_total,
    {
        self.non_owner_total
    }

    /// Whether `recipient` already claimed `milestone`.
    pub fn is_milestone_claimed(&self, recipient: Account, milestone: u32) -> (b: bool)
        ensures
            b == milestone_claimed(self.claimed_milestones@, recipient, milestone),
    {
        let target = MilestoneClaim { recipient, milestone };
        let mut i: usize = 0;
        while i < self.claimed_milestones.len()
            invariant
                i <= self.claimed_milestones@.len(),
                forall|j: int| 0 <= j < i ==> self.claimed_milestones@[j] != target,
            decreases self.claimed_milestones@.len() - i,
        {
            if self.claimed_milestones[i] == target {
                assert(self.claimed_milestones@.contains(target));
                return true;
            }
            i += 1;
        }
        false
    }

    pub fn get_crowdfunding_milestones_claimed(&self) -> (n: u32)
        ensures
            n == self.crowdfunding_claimed,
    {
        self.crowdfunding_claimed
    }

    /// The snapshot of a cancellation in progress, if any.
    pub fn get_cancellation_state(&self) -> (r: Option<CancellationState>)
        ensures
            r == self.cancellation,
    {
        self.cancellation
    }

    /// The manager set on this event, if any (the owner manages otherwise).
    pub fn get_event_manager(&self) -> (r: Option<Account>)
        ensures
            r == self.manager,
    {
        self.manager
    }
}

impl EventsContract {
    /// Ledger sequence of the deployment, the base of event ids.
    pub fn get_deployment_seq(&self) -> (s: u32)
        ensures
            s == self.deployment_seq,
    {
        self.deployment_seq
    }

    /// The stored next event id, or `fallback` when none is stored yet.
    pub fn get_next_event_id(&self, fallback: u64) -> (id: u64)
        ensures
            id == match self.next_event_id { Some(n) => n, None => fallback },
    {
        match self.next_event_id {
            Some(n) => n,
            None => fallback,
        }
    }

    /// Whether `token` is whitelisted.
    pub fn is_token_supported(&self, token: Account) -> (b: bool)
        ensures
            b == self.supported_tokens@.contains(token),
    {
        position_of(&self.supported_tokens, token).is_some()
    }

    /// The 1-based slot of `token` in the whitelist, 0 when absent.
    pub fn supported_token_slot(&self, token: Account) -> (slot: u32)
        requires
            self.wf(),
        ensures
            slot == slot_of(self.supported_tokens@, token),
    {
        match position_of(&self.supported_tokens, token) {
            Some(k) => {
                proof {
                    let s = self.supported_tokens@;
                    assert(s.contains(token));
                    let j = s.index_of(token);
                    assert(s[j] == token);
                    if j != k as int {
                        assert(s[k as int] == s[j]);
                    }
                }
                (k + 1) as u32
            },
            None => 0,
        }
    }

    /// Adds `token` in the next slot; nothing happens when it is already
    /// listed or the slot counter is full.
    pub fn append_supported_token(&mut self, token: Account)
        requires
            old(self).wf(),
        ensures
            final(self).wf(),
            final(self).supported_tokens@ == if old(self).supported_tokens@.contains(token)
                || old(self).supported_tokens@.len() == u32::MAX {
                old(self).supported_tokens@
            } else {
                old(self).supported_tokens@.push(token)
            },
            *final(self) == (EventsContract { supported_tokens: final(self).supported_tokens, ..*old(self) }),
    {
        if position_of(&self.supported_tokens, token).is_none() && self.supported_tokens.len() < 0xFFFF_FFFFusize {
            let ghost s0 = self.supported_tokens@;
            self.supported_tokens.push(token);
            proof {
                let s1 = self.supported_tokens@;
                assert forall|i: int, j: int| 0 <= i < s1.len() && 0 <= j < s1.len() && i != j implies s1[i] != s1[j] by {
                    if i == s0.len() {
                        assert(s0[j] != token);
                    } else if j == s0.len() {
                        assert(s0[i] != token);
                    }
                }
            }
        }
    }

    /// Removes `token`; the last token moves into its slot. Nothing happens
    /// when it is not listed.
    pub fn remove_supported_token(&mut self, token: Account)
        requires
            old(self).wf(),
        ensures
            final(self).wf(),
            final(self).supported_tokens@ == if old(self).supported_tokens@.contains(token) {
                swap_remove_spec(old(self).supported_tokens@, old(self).supported_tokens@.index_of(token))
            } else {
                old(self).supported_tokens@
            },
            !final(self).supported_tokens@.contains(token),
            forall|t: Account| t != token ==> (final(self).supported_tokens@.contains(t) <==> old(self).supported_tokens@.contains(t)),
            *final(self) == (EventsContract { supported_tokens: final(self).supported_tokens, ..*old(self) }),
    {
        match position_of(&self.supported_tokens, token) {
            Some(i) => {
                proof {
                    let s = self.supported_tokens@;
                    assert(s.contains(token));
                    let k = s.index_of(token);
                    assert(s[k] == token);
                    if k != i as int {
                        assert(s[i as int] == s[k]);
                    }
                    lemma_swap_remove(s, i as int);
                }
                self.supported_tokens.swap_remove(i);
            },
            None => {},
        }
    }
}

} // verus!
