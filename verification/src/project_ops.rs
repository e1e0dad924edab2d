use vstd::prelude::*;

use crate::projects::{
    AdminSlot, BoundlessContract, BoundlessError, Project, ProjectEntry, ProjectStatus,
    MAX_MILESTONES, MIN_MILESTONES_EXCLUSIVE, VOTING_PERIOD_LEDGERS,
};
use crate::types::{Account, Hash32, Invocation};

verus! {

/// `entry` is the fresh record of a project just created with these
/// arguments at time `now`: voting opens at once and lasts the voting period.
pub open spec fn is_fresh_project(
    entry: ProjectEntry,
    id: Seq<u8>,
    creator: Account,
    metadata_uri: Seq<u8>,
    funding_target: u64,
    milestone_count: u32,
    now: u64,
) -> bool {
    let p = entry.project;
    &&& p.project_id@ == id
    &&& p.creator == creator
    &&& p.metadata_uri@ == metadata_uri
    &&& p.funding_target == funding_target
    &&& p.milestone_count == milestone_count
    &&& p.current_milestone == 0
    &&& p.total_funded == 0
    &&& p.backers@.len() == 0
    &&& p.votes@.len() == 0
    &&& !p.validated
    &&& !p.is_successful
    &&& !p.is_closed
    &&& p.created_at == now
    &&& p.milestone_approvals@.len() == 0
    &&& p.milestone_releases@.len() == 0
    &&& !p.refund_processed
    &&& p.funding_deadline == 0
    &&& p.voting_deadline == now + VOTING_PERIOD_LEDGERS
    &&& p.status == ProjectStatus::Voting
    &&& p.milestones@.len() == 0
    &&& entry.contributions@.len() == 0
    &&& entry.refunded_tokens@.len() == 0
}

impl BoundlessContract {
    /// A contract with nothing stored.
    pub fn new() -> (c: BoundlessContract)
        ensures
            c.wf(),
            !c.initialized,
            c.admin is Unset,
            c.version is None,
            c.projects@.len() == 0,
            c.whitelists@.len() == 0,
            c.campaigns@.len() == 0,
    {
        BoundlessContract {
            initialized: false,
            admin: AdminSlot::Unset,
            version: None,
            projects: Vec::new(),
            whitelists: Vec::new(),
            campaigns: Vec::new(),
        }
    }

    /// Stores `admin` as a one-element admin list.
    pub fn __construct(&mut self, admin: Account) -> (r: Result<(), BoundlessError>)
        ensures
            r is Ok,
            final(self).admin matches AdminSlot::Listed(v) && v@ == seq![admin],
            final(self).initialized == old(self).initialized,
            final(self).version == old(self).version,
            final(self).projects == old(self).projects,
            final(self).whitelists == old(self).whitelists,
            final(self).campaigns == old(self).campaigns,
    {
        let mut admins: Vec<Account> = Vec::new();
        admins.push(admin);
        self.admin = AdminSlot::Listed(admins);
        Ok(())
    }

    /// A greeting: the word "Hello" followed by `to`.
    pub fn hello(to: Vec<u8>) -> (r: Vec<Vec<u8>>)
        ensures
            r@.len() == 2,
            r@[0]@ == seq![72u8, 101u8, 108u8, 108u8, 111u8],
            r@[1]@ == to@,
    {
        let greeting: Vec<u8> = vec![72u8, 101u8, 108u8, 108u8, 111u8];
        let mut out: Vec<Vec<u8>> = Vec::new();
        out.push(greeting);
        out.push(to);
        out
    }

    /// Records the admin and version 1, once.
    pub fn initialize(&mut self, admin: Account) -> (r: Result<(), BoundlessError>)
        requires
            old(self).wf(),
        ensures
            final(self).wf(),
            r is Err <==> old(self).initialized,
            r matches Err(e) ==> e == BoundlessError::AlreadyInitialized,
            r is Err ==> *final(self) == *old(self),
            r is Ok ==> final(self).initialized && final(self).admin == AdminSlot::Single(admin)
                && final(self).version == Some(1u32) && final(self).projects == old(self).projects
                && final(self).whitelists == old(self).whitelists
                && final(self).campaigns == old(self).campaigns,
    {
        if self.initialized {
            return Err(BoundlessError::AlreadyInitialized);
        }
        self.admin = AdminSlot::Single(admin);
        self.version = Some(1);
        self.initialized = true;
        Ok(())
    }

    pub open spec fn version_spec(&self) -> u32 {
        match self.version {
            Some(v) => v,
            None => 0,
        }
    }

    /// The stored version, 0 when none is stored.
    pub fn get_version(&self) -> (v: u32)
        ensures
            v == self.version_spec(),
    {
        match self.version {
            Some(v) => v,
            None => 0,
        }
    }

    /// The admin address; only a single stored address can be read.
    pub fn get_admin(&self) -> (a: Account)
        requires
            self.admin is Single,
        ensures
            self.admin == AdminSlot::Single(a),
    {
        match &self.admin {
            AdminSlot::Single(a) => *a,
            _ => 0,
        }
    }

    /// Admin-authorized code replacement: on success the host installs the
    /// wasm of the returned hash and the version grows by one.
    pub fn upgrade(&mut self, inv: &Invocation, new_wasm_hash: Hash32) -> (r: Result<Hash32, BoundlessError>)
        requires
            old(self).wf(),
            old(self).admin is Single,
            inv.authorizes(old(self).get_admin_spec()) ==> old(self).version_spec() < u32::MAX,
        ensures
            final(self).wf(),
            r is Err <==> !inv.authorizes(old(self).get_admin_spec()),
            r matches Err(e) ==> e == BoundlessError::Unauthorized,
            r is Err ==> *final(self) == *old(self),
            r matches Ok(h) ==> h == new_wasm_hash
                && final(self).version == Some((old(self).version_spec() + 1) as u32)
                && final(self).initialized == old(self).initialized
                && final(self).admin == old(self).admin
                && final(self).projects == old(self).projects
                && final(self).whitelists == old(self).whitelists
                && final(self).campaigns == old(self).campaigns,
    {
        let admin = self.get_admin();
        if !inv.is_authorized(admin) {
            return Err(BoundlessError::Unauthorized);
        }
        let version = self.get_version();
        self.version = Some(version + 1);
        Ok(new_wasm_hash)
    }

    pub open spec fn get_admin_spec(&self) -> Account {
        match self.admin {
            AdminSlot::Single(a) => a,
            _ => 0,
        }
    }

    pub open spec fn create_project_error(
        &self,
        inv: &Invocation,
        id: Seq<u8>,
        creator: Account,
        funding_target: u64,
        milestone_count: u32,
    ) -> Option<BoundlessError> {
        if self.has_project(id) {
            Some(BoundlessError::AlreadyExists)
        } else if funding_target == 0 {
            Some(BoundlessError::InvalidFundingTarget)
        } else if milestone_count <= MIN_MILESTONES_EXCLUSIVE || milestone_count > MAX_MILESTONES {
            Some(BoundlessError::InvalidMilestone)
        } else if !inv.authorizes(creator) {
            Some(BoundlessError::Unauthorized)
        } else {
            None
        }
    }

    /// Creates a project in its voting phase.
    pub fn create_project(
        &mut self,
        inv: &Invocation,
        project_id: Vec<u8>,
        creator: Account,
        metadata_uri: Vec<u8>,
        funding_target: u64,
        milestone_count: u32,
    ) -> (r: Result<(), BoundlessError>)
        requires
            old(self).wf(),
            old(self).create_project_error(inv, project_id@, creator, funding_target, milestone_count) is None
                ==> inv.timestamp + VOTING_PERIOD_LEDGERS <= u64::MAX,
        ensures
            final(self).wf(),
            r is Err <==> old(self).create_project_error(inv, project_id@, creator, funding_target, milestone_count) is Some,
            r matches Err(e) ==> Some(e) == old(self).create_project_error(inv, project_id@, creator, funding_target, milestone_count),
            r is Err ==> *final(self) == *old(self),
            r is Ok ==> {
                &&& final(self).projects@.len() == old(self).projects@.len() + 1
                &&& final(self).projects@.drop_last() == old(self).projects@
                &&& is_fresh_project(final(self).projects@.last(), project_id@, creator, metadata_uri@,
                    funding_target, milestone_count, inv.timestamp)
                &&& final(self).has_project(project_id@)
                &&& final(self).entry(project_id@) == final(self).projects@.last()
                &&& final(self).initialized == old(self).initialized
                &&& final(self).admin == old(self).admin
                &&& final(self).version == old(self).version
                &&& final(self).whitelists == old(self).whitelists
                &&& final(self).campaigns == old(self).campaigns
            },
    {
        if self.find_project(&project_id).is_some() {
            return Err(BoundlessError::AlreadyExists);
        }
        if funding_target == 0 {
            return Err(BoundlessError::InvalidFundingTarget);
        }
        if milestone_count <= MIN_MILESTONES_EXCLUSIVE || milestone_count > MAX_MILESTONES {
            return Err(BoundlessError::InvalidMilestone);
        }
        if !inv.is_authorized(creator) {
            return Err(BoundlessError::Unauthorized);
        }
        let now = inv.timestamp;
        let voting_deadline = now + VOTING_PERIOD_LEDGERS as u64;
        let ghost id = project_id@;
        let project = Project {
            project_id,
            creator,
            metadata_uri,
            funding_target,
            milestone_count,
            current_milestone: 0,
            total_funded: 0,
            backers: Vec::new(),
            votes: Vec::new(),
            validated: false,
            is_successful: false,
            is_closed: false,
            created_at: now,
            milestone_approvals: Vec::new(),
            milestone_releases: Vec::new(),
            refund_processed: false,
            funding_deadline: 0,
            voting_deadline,
            status: ProjectStatus::Voting,
            milestones: Vec::new(),
        };
        let entry = ProjectEntry { project, contributions: Vec::new(), refunded_tokens: Vec::new() };
        let ghost before = *self;
        let ghost e = entry;
        proof {
            assert(e.project.backers@ =~= Seq::<(Account, u64, Account)>::empty());
            assert(e.contributions@ =~= Seq::<crate::projects::BackerContribution>::empty());
            assert(e.wf());
        }
        self.projects.push(entry);
        proof {
            BoundlessContract::lemma_project_push(&before, self, id, e);
            assert(self.projects@.drop_last() =~= before.projects@);
        }
        Ok(())
    }

    /// Shared check of the creator-only edits: `Unauthorized` without the
    /// caller's signature, `NotFound` for an unknown project, `Unauthorized`
    /// when the caller is not the creator.
    pub open spec fn creator_edit_error(&self, inv: &Invocation, id: Seq<u8>, caller: Account) -> Option<BoundlessError> {
        if !inv.authorizes(caller) {
            Some(BoundlessError::Unauthorized)
        } else if !self.has_project(id) {
            Some(BoundlessError::NotFound)
        } else if self.entry(id).project.creator != caller {
            Some(BoundlessError::Unauthorized)
        } else {
            None
        }
    }

    /// Position of the project that `caller` created, after the checks of
    /// `creator_edit_error`.
    fn creator_project(&self, inv: &Invocation, id: &Vec<u8>, caller: Account) -> (r: Result<usize, BoundlessError>)
        requires
            self.wf(),
        ensures
            r is Err <==> self.creator_edit_error(inv, id@, caller) is Some,
            r matches Err(e) ==> Some(e) == self.creator_edit_error(inv, id@, caller),
            r matches Ok(i) ==> i < self.projects@.len() && i == self.project_index(id@) && self.has_project(id@),
    {
        if !inv.is_authorized(caller) {
            return Err(BoundlessError::Unauthorized);
        }
        let i = match self.find_project(id) {
            Some(i) => i,
            None => return Err(BoundlessError::NotFound),
        };
        if self.projects[i].project.creator != caller {
            return Err(BoundlessError::Unauthorized);
        }
        Ok(i)
    }

    /// The creator replaces the metadata URI.
    pub fn update_project_metadata(&mut self, inv: &Invocation, project_id: &Vec<u8>, creator: Account, new_metadata_uri: Vec<u8>) -> (r: Result<(), BoundlessError>)
        requires
            old(self).wf(),
        ensures
            final(self).wf(),
            r is Err <==> old(self).creator_edit_error(inv, project_id@, creator) is Some,
            r matches Err(e) ==> Some(e) == old(self).creator_edit_error(inv, project_id@, creator),
            r is Err ==> *final(self) == *old(self),
            r is Ok ==> {
                let e0 = old(self).entry(project_id@);
                let e = final(self).entry(project_id@);
                &&& e.project.metadata_uri@ == new_metadata_uri@
                &&& e.project == (Project { metadata_uri: e.project.metadata_uri, ..e0.project })
                &&& e == (ProjectEntry { project: e.project, ..e0 })
                &&& BoundlessContract::only_project_changed(old(self), final(self), project_id@, e)
            },
    {
        let i = self.creator_project(inv, project_id, creator)?;
        let ghost before = *self;
        self.projects[i].project.metadata_uri = new_metadata_uri;
        proof {
            BoundlessContract::lemma_project_update(&before, self, project_id@, self.projects@[i as int]);
        }
        Ok(())
    }
    /// The creator sets a new milestone count (any value).
    pub fn update_project_milestone_count(&mut self, inv: &Invocation, project_id: &Vec<u8>, creator: Account, new_milestone_count: u32) -> (r: Result<(), BoundlessError>)
        requires
            old(self).wf(),
        ensures
            final(self).wf(),
            r is Err <==> old(self).creator_edit_error(inv, project_id@, creator) is Some,
            r matches Err(e) ==> Some(e) == old(self).creator_edit_error(inv, project_id@, creator),
            r is Err ==> *final(self) == *old(self),
            r is Ok ==> {
                let e0 = old(self).entry(project_id@);
                let e = final(self).entry(project_id@);
                &&& e.project == (Project { milestone_count: new_milestone_count, ..e0.project })
                &&& e == (ProjectEntry { project: e.project, ..e0 })
                &&& BoundlessContract::only_project_changed(old(self), final(self), project_id@, e)
            },
    {
        let i = self.creator_project(inv, project_id, creator)?;
        let ghost before = *self;
        self.projects[i].project.milestone_count = new_milestone_count;
        proof {
            BoundlessContract::lemma_project_update(&before, self, project_id@, self.projects@[i as int]);
        }
        Ok(())
    }

    /// Same as `update_project_milestone_count`, with `caller` in the
    /// creator's place.
    pub fn modify_milestone(&mut self, inv: &Invocation, project_id: &Vec<u8>, caller: Account, new_milestone_count: u32) -> (r: Result<(), BoundlessError>)
        requires
            old(self).wf(),
        ensures
            final(self).wf(),
            r is Err <==> old(self).creator_edit_error(inv, project_id@, caller) is Some,
            r matches Err(e) ==> Some(e) == old(self).creator_edit_error(inv, project_id@, caller),
            r is Err ==> *final(self) == *old(self),
            r is Ok ==> {
                let e0 = old(self).entry(project_id@);
                let e = final(self).entry(project_id@);
                &&& e.project == (Project { milestone_count: new_milestone_count, ..e0.project })
                &&& e == (ProjectEntry { project: e.project, ..e0 })
                &&& BoundlessContract::only_project_changed(old(self), final(self), project_id@, e)
            },
    {
        let i = self.creator_project(inv, project_id, caller)?;
        let ghost before = *self;
        self.projects[i].project.milestone_count = new_milestone_count;
        proof {
            BoundlessContract::lemma_project_update(&before, self, project_id@, self.projects@[i as int]);
        }
        Ok(())
    }

    pub open spec fn close_project_error(&self, inv: &Invocation, id: Seq<u8>, creator: Account) -> Option<BoundlessError> {
        if self.creator_edit_error(inv, id, creator) is Some {
            self.creator_edit_error(inv, id, creator)
        } else if self.entry(id).project.status != ProjectStatus::Voting {
            Some(BoundlessError::Unauthorized)
        } else {
            None
        }
    }

    /// The creator closes a project that is still in its voting phase.
    pub fn close_project(&mut self, inv: &Invocation, project_id: &Vec<u8>, creator: Account) -> (r: Result<(), BoundlessError>)
        requires
            old(self).wf(),
        ensures
            final(self).wf(),
            r is Err <==> old(self).close_project_error(inv, project_id@, creator) is Some,
            r matches Err(e) ==> Some(e) == old(self).close_project_error(inv, project_id@, creator),
            r is Err ==> *final(self) == *old(self),
            r is Ok ==> {
                let e0 = old(self).entry(project_id@);
                let e = final(self).entry(project_id@);
                &&& e.project == (Project { is_closed: true, ..e0.project })
                &&& e == (ProjectEntry { project: e.project, ..e0 })
                &&& BoundlessContract::only_project_changed(old(self), final(self), project_id@, e)
            },
    {
        let i = self.creator_project(inv, project_id, creator)?;
        if self.projects[i].project.status != ProjectStatus::Voting {
            return Err(BoundlessError::Unauthorized);
        }
        let ghost before = *self;
        self.projects[i].project.is_closed = true;
        proof {
            BoundlessContract::lemma_project_update(&before, self, project_id@, self.projects@[i as int]);
        }
        Ok(())
    }

    /// The stored project `project_id`.
    pub fn get_project(&self, project_id: &Vec<u8>) -> (r: Result<&Project, BoundlessError>)
        requires
            self.wf(),
        ensures
            r is Err <==> !self.has_project(project_id@),
            r matches Err(e) ==> e == BoundlessError::NotFound,
            r matches Ok(p) ==> *p == self.entry(project_id@).project,
    {
        match self.find_project(project_id) {
            Some(i) => Ok(&self.projects[i].project),
            None => Err(BoundlessError::NotFound),
        }
    }

    /// The phase of project `project_id`.
    pub fn get_project_status(&self, project_id: &Vec<u8>) -> (r: Result<ProjectStatus, BoundlessError>)
        requires
            self.wf(),
        ensures
            r is Err <==> !self.has_project(project_id@),
            r matches Err(e) ==> e == BoundlessError::NotFound,
            r matches Ok(s) ==> s == self.entry(project_id@).project.status,
    {
        match self.find_project(project_id) {
            Some(i) => Ok(self.projects[i].project.status),
            None => Err(BoundlessError::NotFound),
        }
    }

    /// Funding target, amount funded and milestone count of `project_id`.
    pub fn get_project_stats(&self, project_id: &Vec<u8>) -> (r: Result<(u64, u64, u32), BoundlessError>)
        requires
            self.wf(),
        ensures
            r is Err <==> !self.has_project(project_id@),
            r matches Err(e) ==> e == BoundlessError::NotFound,
            r matches Ok(t) ==> t == (self.entry(project_id@).project.funding_target,
                self.entry(project_id@).project.total_funded, self.entry(project_id@).project.milestone_count),
    {
        match self.find_project(project_id) {
            Some(i) => {
                let p = &self.projects[i].project;
                Ok((p.funding_target, p.total_funded, p.milestone_count))
            },
            None => Err(BoundlessError::NotFound),
        }
    }

    /// The registry of listed project ids. No operation adds to it (projects
    /// are found by id), so it is always empty.
    pub fn list_projects(&self) -> (r: Result<Vec<Vec<u8>>, BoundlessError>)
        ensures
            r matches Ok(v) && v@.len() == 0,
    {
        Ok(Vec::new())
    }
}

} // verus!
