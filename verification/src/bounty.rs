use vstd::prelude::*;

use crate::contract::{position_of, require_auth, EventEntry, EventsContract};
use crate::effects::{ChildOp, Effect, TAG_BOOTSTRAP};
use crate::errors::Error;
use crate::event_ops::{find_submission, has_submission};
use crate::events::{ApplicationWithdrawn, Applied, Notice};
use crate::types::{Account, EventRecord, EventStatus, Invocation, OpId, Pillar, ReleaseKind, SeenOp};
use crate::whitelist::{lemma_swap_remove, swap_remove_spec};

verus! {

/// Why a bounty record is refused at creation, if it is: bounties pay out once.
pub open spec fn bounty_create_error(release_kind: ReleaseKind) -> Option<Error> {
    if release_kind != ReleaseKind::Single {
        Some(Error::InvalidReleaseKind)
    } else {
        None
    }
}

/// Checks the pillar-specific rules of a new bounty.
pub fn validate_create(record: &EventRecord) -> (r: Result<(), Error>)
    ensures
        r is Err <==> bounty_create_error(record.release_kind) is Some,
        r matches Err(e) ==> Some(e) == bounty_create_error(record.release_kind),
{
    match record.release_kind {
        ReleaseKind::Single => Ok(()),
        _ => Err(Error::InvalidReleaseKind),
    }
}


impl EventsContract {
    /// Why an event is not an open bounty, if it is not.
    pub open spec fn active_bounty_error(rec: &EventRecord, now: u64) -> Option<Error> {
        if rec.pillar != Pillar::Bounty {
            Some(Error::InvalidPillar)
        } else if rec.status != EventStatus::Active {
            Some(Error::EventNotActive)
        } else if EventsContract::deadline_passed(rec, now) {
            Some(Error::DeadlinePassed)
        } else {
            None
        }
    }

    /// Why `apply_to_bounty` is refused, if it is.
    pub open spec fn apply_error(&self, inv: &Invocation, bounty_id: u64, applicant: Account, op: OpId) -> Option<Error> {
        let e = self.entry(bounty_id);
        if self.paused {
            Some(Error::Paused)
        } else if !self.has_event(bounty_id) {
            Some(Error::EventNotFound)
        } else if EventsContract::active_bounty_error(&e.record, inv.timestamp) is Some {
            EventsContract::active_bounty_error(&e.record, inv.timestamp)
        } else if !inv.authorizes(applicant) {
            Some(Error::Unauthorized)
        } else if self.op_seen(applicant, op) {
            Some(Error::OpAlreadySeen)
        } else if e.applicants@.contains(applicant) {
            Some(Error::ApplicantAlreadyApplied)
        } else if e.applicants@.len() == u32::MAX {
            Some(Error::TooManyApplicants)
        } else {
            None
        }
    }

    /// Registers `applicant` for an open bounty (and bootstraps its profile).
    pub fn apply_to_bounty(&mut self, inv: &Invocation, bounty_id: u64, applicant: Account, op: OpId) -> (r: Result<
        Vec<Effect>,
        Error,
    >)
        requires
            old(self).wf(),
        ensures
            final(self).wf(),
            r is Err ==> *final(self) == *old(self),
            r is Err <==> old(self).apply_error(inv, bounty_id, applicant, op) is Some,
            r matches Err(e) ==> Some(e) == old(self).apply_error(inv, bounty_id, applicant, op),
            r matches Ok(fx) ==> {
                let e0 = old(self).entry(bounty_id);
                let e = final(self).entry(bounty_id);
                &&& final(self).has_event(bounty_id)
                &&& e.applicants@ == e0.applicants@.push(applicant)
                &&& e == (EventEntry { applicants: e.applicants, ..e0 })
                &&& EventsContract::only_entry_changed(old(self), final(self), bounty_id, e)
                &&& final(self).seen_ops@ == old(self).seen_ops@.push(SeenOp { domain: applicant, op })
                &&& fx@ == seq![
                    Effect::Bootstrap { user: applicant, op: ChildOp { parent: op, tag: TAG_BOOTSTRAP }, best_effort: false },
                    Effect::Publish(Notice::Applied(Applied { event_id: bounty_id, applicant })),
                ]
            },
    {
        self.require_not_paused()?;
        let idx = match self.find_event(bounty_id) {
            Some(i) => i,
            None => return Err(Error::EventNotFound),
        };
        require_active_bounty(&self.events[idx].record, inv.timestamp)?;
        require_auth(inv, applicant)?;
        self.require_unseen(applicant, op)?;
        if position_of(&self.events[idx].applicants, applicant).is_some() {
            return Err(Error::ApplicantAlreadyApplied);
        }
        if self.events[idx].applicants.len() >= 0xFFFF_FFFFusize {
            return Err(Error::TooManyApplicants);
        }
        let ghost before = *self;
        self.events[idx].applicants.push(applicant);
        proof {
            let e1 = self.events@[idx as int];
            assert(self.events@ =~= before.events@.update(idx as int, e1));
            assert(e1.applicants@.no_duplicates()) by {
                let a0 = before.events@[idx as int].applicants@;
                assert forall|i: int, j: int| 0 <= i < e1.applicants@.len() && 0 <= j < e1.applicants@.len() && i != j
                    implies e1.applicants@[i] != e1.applicants@[j] by {
                    if i == a0.len() {
                        assert(a0[j] != applicant);
                    } else if j == a0.len() {
                        assert(a0[i] != applicant);
                    }
                }
            }
            assert(e1.wf());
            EventsContract::lemma_entry_update(&before, self, bounty_id, e1);
        }
        let mut fx: Vec<Effect> = Vec::new();
        fx.push(Effect::Bootstrap { user: applicant, op: ChildOp { parent: op, tag: TAG_BOOTSTRAP }, best_effort: false });
        fx.push(Effect::Publish(Notice::Applied(Applied { event_id: bounty_id, applicant })));
        self.mark_seen(applicant, op);
        Ok(fx)
    }

    /// Why `withdraw_application` is refused, if it is.
    pub open spec fn withdraw_application_error(&self, inv: &Invocation, bounty_id: u64, applicant: Account, op: OpId) -> Option<Error> {
        let e = self.entry(bounty_id);
        if self.paused {
            Some(Error::Paused)
        } else if !self.has_event(bounty_id) {
            Some(Error::EventNotFound)
        } else if EventsContract::active_bounty_error(&e.record, inv.timestamp) is Some {
            EventsContract::active_bounty_error(&e.record, inv.timestamp)
        } else if !inv.authorizes(applicant) {
            Some(Error::Unauthorized)
        } else if self.op_seen(applicant, op) {
            Some(Error::OpAlreadySeen)
        } else if has_submission(e.submissions@, applicant) {
            Some(Error::SubmissionAlreadyExists)
        } else if !e.applicants@.contains(applicant) {
            Some(Error::ApplicantNotApplied)
        } else {
            None
        }
    }

    /// Takes `applicant` off an open bounty it has not submitted to; the
    /// last applicant takes its slot.
    pub fn withdraw_application(&mut self, inv: &Invocation, bounty_id: u64, applicant: Account, op: OpId) -> (r: Result<
        Vec<Effect>,
        Error,
    >)
        requires
            old(self).wf(),
        ensures
            final(self).wf(),
            r is Err ==> *final(self) == *old(self),
            r is Err <==> old(self).withdraw_application_error(inv, bounty_id, applicant, op) is Some,
            r matches Err(e) ==> Some(e) == old(self).withdraw_application_error(inv, bounty_id, applicant, op),
            r matches Ok(fx) ==> {
                let e0 = old(self).entry(bounty_id);
                let e = final(self).entry(bounty_id);
                &&& final(self).has_event(bounty_id)
                &&& e.applicants@ == swap_remove_spec(e0.applicants@, e0.applicants@.index_of(applicant))
                &&& !e.applicants@.contains(applicant)
                &&& forall|a: Account| a != applicant ==> (e.applicants@.contains(a) <==> e0.applicants@.contains(a))
                &&& e == (EventEntry { applicants: e.applicants, ..e0 })
                &&& EventsContract::only_entry_changed(old(self), final(self), bounty_id, e)
                &&& final(self).seen_ops@ == old(self).seen_ops@.push(SeenOp { domain: applicant, op })
                &&& fx@ == seq![Effect::Publish(Notice::ApplicationWithdrawn(ApplicationWithdrawn { event_id: bounty_id, applicant }))]
            },
    {
        self.require_not_paused()?;
        let idx = match self.find_event(bounty_id) {
            Some(i) => i,
            None => return Err(Error::EventNotFound),
        };
        require_active_bounty(&self.events[idx].record, inv.timestamp)?;
        require_auth(inv, applicant)?;
        self.require_unseen(applicant, op)?;
        assert(self.events@[idx as int].wf());
        if find_submission(&self.events[idx].submissions, applicant).is_some() {
            return Err(Error::SubmissionAlreadyExists);
        }
        let k = match position_of(&self.events[idx].applicants, applicant) {
            Some(k) => k,
            None => return Err(Error::ApplicantNotApplied),
        };
        let ghost before = *self;
        proof {
            let s = before.events@[idx as int].applicants@;
            let j = s.index_of(applicant);
            assert(s.contains(applicant));
            assert(s[j] == applicant);
            if j != k as int {
                assert(s[k as int] == s[j]);
            }
            lemma_swap_remove(s, k as int);
        }
        self.events[idx].applicants.swap_remove(k);
        proof {
            let e1 = self.events@[idx as int];
            assert(self.events@ =~= before.events@.update(idx as int, e1));
            assert(e1.wf());
            EventsContract::lemma_entry_update(&before, self, bounty_id, e1);
        }
        let mut fx: Vec<Effect> = Vec::new();
        fx.push(Effect::Publish(Notice::ApplicationWithdrawn(ApplicationWithdrawn { event_id: bounty_id, applicant })));
        self.mark_seen(applicant, op);
        Ok(fx)
    }
}

/// Refuses an event that is not an open bounty.
fn require_active_bounty(rec: &EventRecord, now: u64) -> (r: Result<(), Error>)
    ensures
        r is Err <==> EventsContract::active_bounty_error(rec, now) is Some,
        r matches Err(e) ==> Some(e) == EventsContract::active_bounty_error(rec, now),
{
    if rec.pillar != Pillar::Bounty {
        return Err(Error::InvalidPillar);
    }
    if rec.status != EventStatus::Active {
        return Err(Error::EventNotActive);
    }
    if let Some(deadline) = rec.deadline {
        if deadline <= now {
            return Err(Error::DeadlinePassed);
        }
    }
    Ok(())
}

} // verus!
