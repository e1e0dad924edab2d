use vstd::prelude::*;

use crate::admin::sat_add_u32;
use crate::contract::{require_auth, EventEntry, EventsContract};
use crate::errors::Error;
use crate::event_ops::{
    contribution_of, find_submission, has_submission, lemma_contribution_absent, lemma_contribution_at,
    submission_index, MAX_APPLICANTS_PER_EVENT, MAX_CONTRIBUTORS_PER_EVENT, MAX_WINNERS_PER_SELECT,
};
use crate::types::{copy_vec, Account, Contribution, EventRecord, Invocation, Submission, Winner};

verus! {

/// The slice `[start, min(start + limit, s.len()))` of `s`, saturating the
/// end at `u32::MAX`; empty when it starts past its end.
pub open spec fn page_bounds(len: nat, start: u32, limit: u32) -> (int, int) {
    let end = if sat_add_u32(start, limit) < len { sat_add_u32(start, limit) as int } else { len as int };
    if start < end { (start as int, end) } else { (0, 0) }
}

pub open spec fn page<T>(s: Seq<T>, start: u32, limit: u32) -> Seq<T> {
    let (b, e) = page_bounds(s.len(), start, limit);
    s.subrange(b, e)
}

/// A page of account ids.
pub fn page_of_accounts(v: &Vec<Account>, start: u32, limit: u32) -> (r: Vec<Account>)
    ensures
        r@ == page(v@, start, limit),
{
    let total = v.len();
    let s = start.saturating_add(limit) as usize;
    let end = if s < total { s } else { total };
    let mut out: Vec<Account> = Vec::new();
    let mut i = start as usize;
    if i < end {
        while i < end
            invariant
                start <= i <= end <= v@.len(),
                out@ == v@.subrange(start as int, i as int),
            decreases end - i,
        {
            out.push(v[i]);
            i += 1;
            assert(out@ =~= v@.subrange(start as int, i as int));
        }
    } else {
        assert(out@ =~= page(v@, start, limit));
    }
    out
}

impl EventsContract {
    /// The record of event `event_id`.
    pub fn get_event(&self, event_id: u64) -> (r: Result<EventRecord, Error>)
        requires
            self.wf(),
        ensures
            r is Err <==> !self.has_event(event_id),
            r matches Err(e) ==> e == Error::EventNotFound,
            r matches Ok(rec) ==> rec.same_as(&self.entry(event_id).record),
    {
        match self.find_event(event_id) {
            Some(i) => Ok(self.events[i].record.duplicate()),
            None => Err(Error::EventNotFound),
        }
    }

    /// The submission of `applicant` to event `event_id`.
    pub fn get_submission(&self, event_id: u64, applicant: Account) -> (r: Result<Submission, Error>)
        requires
            self.wf(),
        ensures
            r is Err <==> !self.has_event(event_id) || !has_submission(self.entry(event_id).submissions@, applicant),
            r matches Err(e) ==> e == if self.has_event(event_id) { Error::SubmissionNotFound } else { Error::EventNotFound },
            r matches Ok(sub) ==> {
                let s = self.entry(event_id).submissions@[submission_index(self.entry(event_id).submissions@, applicant)];
                &&& sub.applicant == s.applicant
                &&& sub.content_uri@ == s.content_uri@
                &&& sub.submitted_at == s.submitted_at
            },
    {
        let i = match self.find_event(event_id) {
            Some(i) => i,
            None => return Err(Error::EventNotFound),
        };
        assert(self.events[i as int].wf());
        match find_submission(&self.events[i].submissions, applicant) {
            Some(k) => {
                let s = &self.events[i].submissions[k];
                Ok(Submission { applicant: s.applicant, content_uri: copy_vec(&s.content_uri), submitted_at: s.submitted_at })
            },
            None => Err(Error::SubmissionNotFound),
        }
    }

    /// The address that authorizes winner selection and cancellation.
    pub fn get_manager(&self, event_id: u64) -> (r: Result<Account, Error>)
        requires
            self.wf(),
        ensures
            r is Err <==> !self.has_event(event_id),
            r matches Err(e) ==> e == Error::EventNotFound,
            r matches Ok(m) ==> m == EventsContract::manager_of(&self.entry(event_id)),
    {
        match self.find_event(event_id) {
            Some(i) => match self.events[i].manager {
                Some(m) => Ok(m),
                None => Ok(self.events[i].record.owner),
            },
            None => Err(Error::EventNotFound),
        }
    }

    /// Why `set_manager` is refused, if it is.
    pub open spec fn set_manager_error(&self, inv: &Invocation, event_id: u64) -> Option<Error> {
        if self.paused {
            Some(Error::Paused)
        } else if !self.has_event(event_id) {
            Some(Error::EventNotFound)
        } else if !inv.authorizes(EventsContract::manager_of(&self.entry(event_id))) {
            Some(Error::Unauthorized)
        } else {
            None
        }
    }

    /// Hands the management of an event to `new_manager`; the current
    /// manager must sign.
    pub fn set_manager(&mut self, inv: &Invocation, event_id: u64, new_manager: Account) -> (r: Result<(), Error>)
        requires
            old(self).wf(),
        ensures
            final(self).wf(),
            r is Err ==> *final(self) == *old(self),
            r is Err <==> old(self).set_manager_error(inv, event_id) is Some,
            r matches Err(e) ==> Some(e) == old(self).set_manager_error(inv, event_id),
            r is Ok ==> {
                let e = final(self).entry(event_id);
                &&& final(self).has_event(event_id)
                &&& e == (EventEntry { manager: Some(new_manager), ..old(self).entry(event_id) })
                &&& EventsContract::only_entry_changed(old(self), final(self), event_id, e)
                &&& final(self).seen_ops == old(self).seen_ops
            },
    {
        self.require_not_paused()?;
        let idx = match self.find_event(event_id) {
            Some(i) => i,
            None => return Err(Error::EventNotFound),
        };
        let current = match self.events[idx].manager {
            Some(m) => m,
            None => self.events[idx].record.owner,
        };
        require_auth(inv, current)?;
        let ghost before = *self;
        self.events[idx].manager = Some(new_manager);
        proof {
            let e1 = self.events@[idx as int];
            assert(self.events@ =~= before.events@.update(idx as int, e1));
            EventsContract::lemma_entry_update(&before, self, event_id, e1);
        }
        Ok(())
    }

    /// Up to `MAX_APPLICANTS_PER_EVENT` applicants, in slot order.
    pub fn get_applicants(&self, event_id: u64) -> (r: Result<Vec<Account>, Error>)
        requires
            self.wf(),
        ensures
            r is Err <==> !self.has_event(event_id),
            r matches Err(e) ==> e == Error::EventNotFound,
            r matches Ok(v) ==> v@ == page(self.entry(event_id).applicants@, 0, MAX_APPLICANTS_PER_EVENT),
    {
        match self.find_event(event_id) {
            Some(i) => Ok(page_of_accounts(&self.events[i].applicants, 0, MAX_APPLICANTS_PER_EVENT)),
            None => Err(Error::EventNotFound),
        }
    }

    /// The applicants in slots `[start, start + limit)`.
    pub fn get_applicants_page(&self, event_id: u64, start: u32, limit: u32) -> (r: Result<Vec<Account>, Error>)
        requires
            self.wf(),
        ensures
            r is Err <==> !self.has_event(event_id),
            r matches Err(e) ==> e == Error::EventNotFound,
            r matches Ok(v) ==> v@ == page(self.entry(event_id).applicants@, start, limit),
    {
        match self.find_event(event_id) {
            Some(i) => Ok(page_of_accounts(&self.events[i].applicants, start, limit)),
            None => Err(Error::EventNotFound),
        }
    }

    pub fn get_applicant_count(&self, event_id: u64) -> (r: Result<u32, Error>)
        requires
            self.wf(),
        ensures
            r is Err <==> !self.has_event(event_id),
            r matches Err(e) ==> e == Error::EventNotFound,
            r matches Ok(n) ==> n == self.entry(event_id).applicants@.len(),
    {
        match self.find_event(event_id) {
            Some(i) => {
                assert(self.events[i as int].wf());
                Ok(self.events[i].applicants.len() as u32)
            },
            None => Err(Error::EventNotFound),
        }
    }

    pub fn get_applicant_at(&self, event_id: u64, idx: u32) -> (r: Result<Option<Account>, Error>)
        requires
            self.wf(),
        ensures
            r is Err <==> !self.has_event(event_id),
            r matches Err(e) ==> e == Error::EventNotFound,
            r matches Ok(a) ==> a == if idx < self.entry(event_id).applicants@.len() {
                Some(self.entry(event_id).applicants@[idx as int])
            } else {
                None::<Account>
            },
    {
        match self.find_event(event_id) {
            Some(i) => if (idx as usize) < self.events[i].applicants.len() {
                Ok(Some(self.events[i].applicants[idx as usize]))
            } else {
                Ok(None)
            },
            None => Err(Error::EventNotFound),
        }
    }

    /// Up to a thousand winner rows, in the order they were recorded.
    pub fn get_winners(&self, event_id: u64) -> (r: Result<Vec<Winner>, Error>)
        requires
            self.wf(),
        ensures
            r is Err <==> !self.has_event(event_id),
            r matches Err(e) ==> e == Error::EventNotFound,
            r matches Ok(v) ==> v@ == page(self.entry(event_id).winners@, 0, (MAX_WINNERS_PER_SELECT * 20) as u32),
    {
        match self.find_event(event_id) {
            Some(i) => {
                let w = &self.events[i].winners;
                let end: usize = if w.len() < 1000 { w.len() } else { 1000 };
                let mut out: Vec<Winner> = Vec::new();
                let mut k: usize = 0;
                while k < end
                    invariant
                        k <= end <= w@.len(),
                        out@ == w@.subrange(0, k as int),
                    decreases end - k,
                {
                    out.push(w[k]);
                    k += 1;
                    assert(out@ =~= w@.subrange(0, k as int));
                }
                Ok(out)
            },
            None => Err(Error::EventNotFound),
        }
    }

    pub fn get_winner_count(&self, event_id: u64) -> (r: Result<u32, Error>)
        requires
            self.wf(),
        ensures
            r is Err <==> !self.has_event(event_id),
            r matches Err(e) ==> e == Error::EventNotFound,
            r matches Ok(n) ==> n == self.entry(event_id).winners@.len(),
    {
        match self.find_event(event_id) {
            Some(i) => {
                assert(self.events[i as int].wf());
                Ok(self.events[i].winners.len() as u32)
            },
            None => Err(Error::EventNotFound),
        }
    }

    pub fn get_winner_at(&self, event_id: u64, idx: u32) -> (r: Result<Option<Winner>, Error>)
        requires
            self.wf(),
        ensures
            r is Err <==> !self.has_event(event_id),
            r matches Err(e) ==> e == Error::EventNotFound,
            r matches Ok(w) ==> w == if idx < self.entry(event_id).winners@.len() {
                Some(self.entry(event_id).winners@[idx as int])
            } else {
                None::<Winner>
            },
    {
        match self.find_event(event_id) {
            Some(i) => if (idx as usize) < self.events[i].winners.len() {
                Ok(Some(self.events[i].winners[idx as usize]))
            } else {
                Ok(None)
            },
            None => Err(Error::EventNotFound),
        }
    }

    /// Up to `MAX_CONTRIBUTORS_PER_EVENT` partners, in slot order.
    pub fn get_contributors(&self, event_id: u64) -> (r: Result<Vec<Account>, Error>)
        requires
            self.wf(),
        ensures
            r is Err <==> !self.has_event(event_id),
            r matches Err(e) ==> e == Error::EventNotFound,
            r matches Ok(v) ==> v@ == page(
                self.entry(event_id).contributors@.map_values(|c: Contribution| c.contributor),
                0,
                MAX_CONTRIBUTORS_PER_EVENT,
            ),
    {
        match self.find_event(event_id) {
            Some(i) => {
                let c = &self.events[i].contributors;
                let ghost all = c@.map_values(|x: Contribution| x.contributor);
                let end: usize = if c.len() < 5000 { c.len() } else { 5000 };
                let mut out: Vec<Account> = Vec::new();
                let mut k: usize = 0;
                while k < end
                    invariant
                        k <= end <= c@.len(),
                        all == c@.map_values(|x: Contribution| x.contributor),
                        out@ == all.subrange(0, k as int),
                    decreases end - k,
                {
                    out.push(c[k].contributor);
                    k += 1;
                    assert(out@ =~= all.subrange(0, k as int));
                }
                Ok(out)
            },
            None => Err(Error::EventNotFound),
        }
    }

    pub fn get_contributor_count(&self, event_id: u64) -> (r: Result<u32, Error>)
        requires
            self.wf(),
        ensures
            r is Err <==> !self.has_event(event_id),
            r matches Err(e) ==> e == Error::EventNotFound,
            r matches Ok(n) ==> n == self.entry(event_id).contributors@.len(),
    {
        match self.find_event(event_id) {
            Some(i) => {
                assert(self.events[i as int].wf());
                Ok(self.events[i].contributors.len() as u32)
            },
            None => Err(Error::EventNotFound),
        }
    }

    pub fn get_contributor_at(&self, event_id: u64, idx: u32) -> (r: Result<Option<Account>, Error>)
        requires
            self.wf(),
        ensures
            r is Err <==> !self.has_event(event_id),
            r matches Err(e) ==> e == Error::EventNotFound,
            r matches Ok(a) ==> a == if idx < self.entry(event_id).contributors@.len() {
                Some(self.entry(event_id).contributors@[idx as int].contributor)
            } else {
                None::<Account>
            },
    {
        match self.find_event(event_id) {
            Some(i) => if (idx as usize) < self.events[i].contributors.len() {
                Ok(Some(self.events[i].contributors[idx as usize].contributor))
            } else {
                Ok(None)
            },
            None => Err(Error::EventNotFound),
        }
    }

    /// What `contributor` has put into the event's escrow as a partner
    /// (zero for the owner and for non-contributors).
    pub fn get_contributor_amount(&self, event_id: u64, contributor: Account) -> (r: Result<i128, Error>)
        requires
            self.wf(),
        ensures
            r is Err <==> !self.has_event(event_id),
            r matches Err(e) ==> e == Error::EventNotFound,
            r matches Ok(a) ==> a == contribution_of(self.entry(event_id).contributors@, contributor),
    {
        match self.find_event(event_id) {
            Some(i) => {
                assert(self.events[i as int].wf());
                match crate::event_ops::find_contributor(&self.events[i].contributors, contributor) {
                    Some(k) => {
                        proof { lemma_contribution_at(self.events@[i as int].contributors@, contributor, k as int); }
                        Ok(self.events[i].contributors[k].amount)
                    },
                    None => {
                        proof { lemma_contribution_absent(self.events@[i as int].contributors@, contributor); }
                        Ok(0)
                    },
                }
            },
            None => Err(Error::EventNotFound),
        }
    }
}

/// A page is the slice of the list that starts at `start` and holds up to
/// `limit` items: for `start` inside the list it runs to `start + limit` or
/// the end of the list, whichever comes first, so it has
/// `min(limit, len - start)` items and its first item is the one at
/// `start`; from `start` at or past the end it is empty.
pub proof fn law_page_is_the_slice_from_start<T>(s: Seq<T>, start: u32, limit: u32)
    requires
        s.len() <= u32::MAX,
    ensures
        start < s.len() ==> page(s, start, limit) == s.subrange(
            start as int,
            if start + limit < s.len() { start + limit } else { s.len() as int },
        ),
        start < s.len() ==> page(s, start, limit).len() == if limit < s.len() - start { limit as int } else { s.len() - start },
        start < s.len() && limit > 0 ==> page(s, start, limit)[0] == s[start as int],
        start >= s.len() ==> page(s, start, limit).len() == 0,
{
}

} // verus!
