use vstd::prelude::*;

use crate::projects::{voters_unique, BoundlessContract, BoundlessError, Project, ProjectEntry, ProjectStatus};
use crate::types::Account;

verus! {

pub open spec fn has_vote(s: Seq<(Account, i32)>, voter: Account) -> bool {
    exists|i: int| 0 <= i < s.len() && s[i].0 == voter
}

/// Index of `voter`'s row (meaningful when it has one).
pub open spec fn vote_index(s: Seq<(Account, i32)>, voter: Account) -> int {
    choose|i: int| 0 <= i < s.len() && s[i].0 == voter
}

/// Position of `voter`'s row.
pub fn find_vote(v: &Vec<(Account, i32)>, voter: Account) -> (r: Option<usize>)
    requires
        voters_unique(v@),
    ensures
        r is None <==> !has_vote(v@, voter),
        r matches Some(k) ==> k < v@.len() && v@[k as int].0 == voter && k == vote_index(v@, voter),
{
    let mut i: usize = 0;
    while i < v.len()
        invariant
            i <= v@.len(),
            forall|j: int| 0 <= j < i ==> v@[j].0 != voter,
        decreases v@.len() - i,
    {
        if v[i].0 == voter {
            proof {
                let c = vote_index(v@, voter);
                assert(0 <= c < v@.len() && v@[c].0 == voter);
                if c != i as int {
                    if c < i {
                        assert(v@[c].0 != v@[i as int].0);
                    } else {
                        assert(v@[i as int].0 != v@[c].0);
                    }
                }
            }
            return Some(i);
        }
        i += 1;
    }
    None
}

impl BoundlessContract {
    /// Why a vote change on project `id` by `voter` at time `now` is refused
    /// before the voter's own row is looked at.
    pub open spec fn voting_gate_error(&self, now: u64, id: Seq<u8>, voter: Account) -> Option<BoundlessError> {
        if !self.has_project(id) {
            Some(BoundlessError::NotFound)
        } else {
            let p = self.entry(id).project;
            if p.status != ProjectStatus::Voting {
                Some(BoundlessError::InvalidOperation)
            } else if p.is_closed {
                Some(BoundlessError::ProjectClosed)
            } else if p.voting_deadline < now {
                Some(BoundlessError::VotingPeriodEnded)
            } else if p.creator == voter {
                Some(BoundlessError::InvalidOperation)
            } else {
                None
            }
        }
    }

    pub open spec fn vote_error(&self, now: u64, id: Seq<u8>, voter: Account, value: i32) -> Option<BoundlessError> {
        if self.voting_gate_error(now, id, voter) is Some {
            self.voting_gate_error(now, id, voter)
        } else if has_vote(self.entry(id).project.votes@, voter) {
            Some(BoundlessError::AlreadyVoted)
        } else if value != 1 && value != -1 {
            Some(BoundlessError::InvalidVote)
        } else {
            None
        }
    }

    pub open spec fn withdraw_vote_error(&self, now: u64, id: Seq<u8>, voter: Account) -> Option<BoundlessError> {
        if self.voting_gate_error(now, id, voter) is Some {
            self.voting_gate_error(now, id, voter)
        } else if !has_vote(self.entry(id).project.votes@, voter) {
            Some(BoundlessError::NotVoted)
        } else {
            None
        }
    }

    /// `new` is `old` with `voter`'s `(voter, value)` row appended to the
    /// votes of project `id`, nothing else changed.
    pub open spec fn vote_recorded(old: &BoundlessContract, new: &BoundlessContract, id: Seq<u8>, voter: Account, value: i32) -> bool {
        let e0 = old.entry(id);
        let e = new.entry(id);
        &&& new.has_project(id)
        &&& e.project.votes@ == e0.project.votes@.push((voter, value))
        &&& e.project == (Project { votes: e.project.votes, ..e0.project })
        &&& e == (ProjectEntry { project: e.project, ..e0 })
        &&& BoundlessContract::only_project_changed(old, new, id, e)
    }

    /// `new` is `old` with `voter`'s row removed from the votes of project
    /// `id`, the other rows keeping their order.
    pub open spec fn vote_withdrawn(old: &BoundlessContract, new: &BoundlessContract, id: Seq<u8>, voter: Account) -> bool {
        let e0 = old.entry(id);
        let e = new.entry(id);
        &&& new.has_project(id)
        &&& e.project.votes@ == e0.project.votes@.remove(vote_index(e0.project.votes@, voter))
        &&& e.project == (Project { votes: e.project.votes, ..e0.project })
        &&& e == (ProjectEntry { project: e.project, ..e0 })
        &&& BoundlessContract::only_project_changed(old, new, id, e)
    }

    /// Position of project `id` once the shared voting checks pass.
    fn voting_gate(&self, now: u64, id: &Vec<u8>, voter: Account) -> (r: Result<usize, BoundlessError>)
        requires
            self.wf(),
        ensures
            r is Err <==> self.voting_gate_error(now, id@, voter) is Some,
            r matches Err(e) ==> Some(e) == self.voting_gate_error(now, id@, voter),
            r matches Ok(i) ==> i < self.projects@.len() && i == self.project_index(id@) && self.has_project(id@),
    {
        let i = match self.find_project(id) {
            Some(i) => i,
            None => return Err(BoundlessError::NotFound),
        };
        let p = &self.projects[i].project;
        if p.status != ProjectStatus::Voting {
            return Err(BoundlessError::InvalidOperation);
        }
        if p.is_closed {
            return Err(BoundlessError::ProjectClosed);
        }
        if p.voting_deadline < now {
            return Err(BoundlessError::VotingPeriodEnded);
        }
        if p.creator == voter {
            return Err(BoundlessError::InvalidOperation);
        }
        Ok(i)
    }

    /// Records `voter`'s vote (`1` or `-1`) on a project in its voting phase.
    pub fn vote_project(&mut self, now: u64, project_id: &Vec<u8>, voter: Account, vote_value: i32) -> (r: Result<(), BoundlessError>)
        requires
            old(self).wf(),
        ensures
            final(self).wf(),
            r is Err <==> old(self).vote_error(now, project_id@, voter, vote_value) is Some,
            r matches Err(e) ==> Some(e) == old(self).vote_error(now, project_id@, voter, vote_value),
            r is Err ==> *final(self) == *old(self),
            r is Ok ==> BoundlessContract::vote_recorded(old(self), final(self), project_id@, voter, vote_value),
    {
        let i = self.voting_gate(now, project_id, voter)?;
        if find_vote(&self.projects[i].project.votes, voter).is_some() {
            return Err(BoundlessError::AlreadyVoted);
        }
        if vote_value != 1 && vote_value != -1 {
            return Err(BoundlessError::InvalidVote);
        }
        let ghost before = *self;
        self.projects[i].project.votes.push((voter, vote_value));
        proof {
            let e = self.projects@[i as int];
            let s = before.projects@[i as int].project.votes@;
            assert(before.projects@[i as int].wf());
            assert forall|a: int, b: int| 0 <= a < b < e.project.votes@.len() implies e.project.votes@[a].0
                != e.project.votes@[b].0 by {
                if b < s.len() {
                    assert(s[a].0 != s[b].0);
                } else {
                    assert(e.project.votes@[a] == s[a]);
                }
            }
            BoundlessContract::lemma_project_update(&before, self, project_id@, e);
        }
        Ok(())
    }

    /// Removes `voter`'s vote from a project in its voting phase.
    pub fn withdraw_vote(&mut self, now: u64, project_id: &Vec<u8>, voter: Account) -> (r: Result<(), BoundlessError>)
        requires
            old(self).wf(),
        ensures
            final(self).wf(),
            r is Err <==> old(self).withdraw_vote_error(now, project_id@, voter) is Some,
            r matches Err(e) ==> Some(e) == old(self).withdraw_vote_error(now, project_id@, voter),
            r is Err ==> *final(self) == *old(self),
            r is Ok ==> BoundlessContract::vote_withdrawn(old(self), final(self), project_id@, voter),
    {
        let i = self.voting_gate(now, project_id, voter)?;
        let k = match find_vote(&self.projects[i].project.votes, voter) {
            Some(k) => k,
            None => return Err(BoundlessError::NotVoted),
        };
        let ghost before = *self;
        self.projects[i].project.votes.remove(k);
        proof {
            let e = self.projects@[i as int];
            let s = before.projects@[i as int].project.votes@;
            assert(before.projects@[i as int].wf());
            assert forall|a: int, b: int| 0 <= a < b < e.project.votes@.len() implies e.project.votes@[a].0
                != e.project.votes@[b].0 by {
                let a0 = if a < k { a } else { a + 1 };
                let b0 = if b < k { b } else { b + 1 };
                assert(e.project.votes@[a] == s[a0]);
                assert(e.project.votes@[b] == s[b0]);
                assert(s[a0].0 != s[b0].0);
            }
            BoundlessContract::lemma_project_update(&before, self, project_id@, e);
        }
        Ok(())
    }

    /// Whether `voter` has a vote on project `project_id`.
    pub fn has_voted(&self, project_id: &Vec<u8>, voter: Account) -> (r: Result<bool, BoundlessError>)
        requires
            self.wf(),
        ensures
            r is Err <==> !self.has_project(project_id@),
            r matches Err(e) ==> e == BoundlessError::NotFound,
            r matches Ok(b) ==> b == has_vote(self.entry(project_id@).project.votes@, voter),
    {
        let i = match self.find_project(project_id) {
            Some(i) => i,
            None => return Err(BoundlessError::NotFound),
        };
        let k = find_vote(&self.projects[i].project.votes, voter);
        Ok(k.is_some())
    }

    /// The value of `voter`'s vote; `AlreadyVoted` is the error returned
    /// when the voter has none.
    pub fn get_vote(&self, project_id: &Vec<u8>, voter: Account) -> (r: Result<i32, BoundlessError>)
        requires
            self.wf(),
        ensures
            r is Err <==> !self.has_project(project_id@) || !has_vote(self.entry(project_id@).project.votes@, voter),
            r matches Err(e) ==> e == if self.has_project(project_id@) { BoundlessError::AlreadyVoted } else { BoundlessError::NotFound },
            r matches Ok(v) ==> {
                let votes = self.entry(project_id@).project.votes@;
                v == votes[vote_index(votes, voter)].1
            },
    {
        let i = match self.find_project(project_id) {
            Some(i) => i,
            None => return Err(BoundlessError::NotFound),
        };
        match find_vote(&self.projects[i].project.votes, voter) {
            Some(k) => Ok(self.projects[i].project.votes[k].1),
            None => Err(BoundlessError::AlreadyVoted),
        }
    }
}

} // verus!
