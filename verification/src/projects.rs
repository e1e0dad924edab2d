use vstd::prelude::*;

use crate::admin::bytes_eq;
use crate::campaigns::{campaign_ids_unique, Campaign};
use crate::types::Account;

verus! {

/// Ledgers in one day, at five seconds per ledger.
pub const DAY_IN_LEDGERS: u32 = 17280;
/// Length of a project's voting period (thirty days of ledgers), added to
/// the creation timestamp to get the voting deadline.
pub const VOTING_PERIOD_LEDGERS: u32 = 518400;
/// Length of a project's funding period (thirty days of ledgers).
pub const FUNDING_PERIOD_LEDGERS: u32 = 518400;
/// Fewest milestones a project may declare, exclusive.
pub const MIN_MILESTONES_EXCLUSIVE: u32 = 4;
/// Most milestones a project may declare.
pub const MAX_MILESTONES: u32 = 100;

/// Failure reasons of the project-funding contract.
#[derive(Clone, Copy, Debug, PartialEq, Eq, Structural)]
pub enum BoundlessError {
    AlreadyInitialized,
    Unauthorized,
    AlreadyExists,
    NotFound,
    InvalidFundingTarget,
    InvalidMilestone,
    ProjectClosed,
    FundingPeriodEnded,
    VotingPeriodEnded,
    AlreadyVoted,
    NotVoted,
    InvalidVote,
    MilestoneAlreadyReleased,
    MilestoneAlreadyApproved,
    MilestoneAlreadyRejected,
    InsufficientFunds,
    RefundAlreadyProcessed,
    InvalidOperation,
    InternalError,
    InvalidTokenContract,
    TransferFailed,
    NoBackerContributions,
    BalanceCheckFailed,
    AlreadyWhitelisted,
}

impl BoundlessError {
    pub open spec fn spec_code(self) -> u32 {
        match self {
            BoundlessError::AlreadyInitialized => 1,
            BoundlessError::Unauthorized => 2,
            BoundlessError::AlreadyExists => 3,
            BoundlessError::NotFound => 4,
            BoundlessError::InvalidFundingTarget => 5,
            BoundlessError::InvalidMilestone => 6,
            BoundlessError::ProjectClosed => 7,
            BoundlessError::FundingPeriodEnded => 8,
            BoundlessError::VotingPeriodEnded => 9,
            BoundlessError::AlreadyVoted => 10,
            BoundlessError::NotVoted => 11,
            BoundlessError::InvalidVote => 12,
            BoundlessError::MilestoneAlreadyReleased => 13,
            BoundlessError::MilestoneAlreadyApproved => 14,
            BoundlessError::MilestoneAlreadyRejected => 15,
            BoundlessError::InsufficientFunds => 16,
            BoundlessError::RefundAlreadyProcessed => 17,
            BoundlessError::InvalidOperation => 18,
            BoundlessError::InternalError => 19,
            BoundlessError::InvalidTokenContract => 20,
            BoundlessError::TransferFailed => 21,
            BoundlessError::NoBackerContributions => 22,
            BoundlessError::BalanceCheckFailed => 23,
            BoundlessError::AlreadyWhitelisted => 24,
        }
    }

    /// The numeric code under which the error is reported.
    pub fn code(&self) -> (c: u32)
        ensures
            c == self.spec_code(),
    {
        match self {
            BoundlessError::AlreadyInitialized => 1,
            BoundlessError::Unauthorized => 2,
            BoundlessError::AlreadyExists => 3,
            BoundlessError::NotFound => 4,
            BoundlessError::InvalidFundingTarget => 5,
            BoundlessError::InvalidMilestone => 6,
            BoundlessError::ProjectClosed => 7,
            BoundlessError::FundingPeriodEnded => 8,
            BoundlessError::VotingPeriodEnded => 9,
            BoundlessError::AlreadyVoted => 10,
            BoundlessError::NotVoted => 11,
            BoundlessError::InvalidVote => 12,
            BoundlessError::MilestoneAlreadyReleased => 13,
            BoundlessError::MilestoneAlreadyApproved => 14,
            BoundlessError::MilestoneAlreadyRejected => 15,
            BoundlessError::InsufficientFunds => 16,
            BoundlessError::RefundAlreadyProcessed => 17,
            BoundlessError::InvalidOperation => 18,
            BoundlessError::InternalError => 19,
            BoundlessError::InvalidTokenContract => 20,
            BoundlessError::TransferFailed => 21,
            BoundlessError::NoBackerContributions => 22,
            BoundlessError::BalanceCheckFailed => 23,
            BoundlessError::AlreadyWhitelisted => 24,
        }
    }
}

/// Phase of a project.
#[derive(Clone, Copy, Debug, PartialEq, Eq, Structural)]
pub enum ProjectStatus {
    Funding,
    Voting,
    Funded,
    Failed,
    Closed,
}

impl ProjectStatus {
    pub open spec fn spec_code(self) -> u32 {
        match self {
            ProjectStatus::Funding => 1,
            ProjectStatus::Voting => 2,
            ProjectStatus::Funded => 3,
            ProjectStatus::Failed => 4,
            ProjectStatus::Closed => 5,
        }
    }

    /// The numeric value under which the status is stored.
    pub fn code(&self) -> (c: u32)
        ensures
            c == self.spec_code(),
    {
        match self {
            ProjectStatus::Funding => 1,
            ProjectStatus::Voting => 2,
            ProjectStatus::Funded => 3,
            ProjectStatus::Failed => 4,
            ProjectStatus::Closed => 5,
        }
    }
}

#[derive(Clone, Copy, Debug, PartialEq, Eq, Structural)]
pub enum MilestoneStatus {
    Pending,
    Released,
    Approved,
    Rejected,
}

/// The contract-wide storage slots.
#[derive(Clone, Copy, Debug, PartialEq, Eq, Structural)]
pub enum ContractDataKey {
    Version,
    Initialized,
    Admin,
}

/// A project milestone (numbered from one).
pub struct Milestone {
    pub number: u32,
    pub description: Vec<u8>,
    pub amount: u64,
    pub status: MilestoneStatus,
    pub released_at: Option<u64>,
    pub completed_at: Option<u64>,
}

/// One funding of a project, in the order the fundings came.
#[derive(Clone, Copy, Debug, PartialEq, Eq, Structural)]
pub struct BackerContribution {
    pub backer: Account,
    pub amount: u64,
    pub token: Account,
    pub timestamp: u64,
}

#[derive(Clone, Copy, Debug, PartialEq, Eq, Structural)]
pub struct Vote {
    pub voter: Account,
    pub value: i32,
    pub timestamp: u64,
}

/// A project record. `backers` holds one `(backer, amount, token)` row per
/// backer and token; `votes` one `(voter, value)` row per voter.
pub struct Project {
    pub project_id: Vec<u8>,
    pub creator: Account,
    pub metadata_uri: Vec<u8>,
    pub funding_target: u64,
    pub milestone_count: u32,
    pub current_milestone: u32,
    pub total_funded: u64,
    pub backers: Vec<(Account, u64, Account)>,
    pub votes: Vec<(Account, i32)>,
    pub validated: bool,
    pub is_successful: bool,
    pub is_closed: bool,
    pub created_at: u64,
    pub milestone_approvals: Vec<(u32, bool)>,
    pub milestone_releases: Vec<(u32, u64)>,
    pub refund_processed: bool,
    pub funding_deadline: u64,
    pub voting_deadline: u64,
    pub status: ProjectStatus,
    pub milestones: Vec<Milestone>,
}

/// Notices the contract publishes.
pub struct ProjectCreatedEvent {
    pub project_id: Vec<u8>,
    pub creator: Account,
    pub funding_target: u64,
    pub funding_deadline: u64,
}

pub struct ProjectFundedEvent {
    pub project_id: Vec<u8>,
    pub total_funded: u64,
}

pub struct RefundProcessedEvent {
    pub project_id: Vec<u8>,
    pub backer: Account,
    pub amount: u64,
}

/// What the admin slot holds: nothing, one address (`initialize`), or a
/// list of addresses (`__construct`), which the single-address reads cannot
/// decode.
pub enum AdminSlot {
    Unset,
    Single(Account),
    Listed(Vec<Account>),
}

/// A project with the rows kept beside it.
pub struct ProjectEntry {
    pub project: Project,
    /// Every funding, in order.
    pub contributions: Vec<BackerContribution>,
    /// Tokens whose refund has run.
    pub refunded_tokens: Vec<Account>,
}

/// Tokens accepted for one project id (set whether or not the project exists).
pub struct TokenWhitelist {
    pub project_id: Vec<u8>,
    pub tokens: Vec<Account>,
}

/// The stored state of the project-funding contract.
pub struct BoundlessContract {
    pub initialized: bool,
    pub admin: AdminSlot,
    pub version: Option<u32>,
    pub projects: Vec<ProjectEntry>,
    pub whitelists: Vec<TokenWhitelist>,
    /// Crowdfunding campaigns, by id.
    pub campaigns: Vec<Campaign>,
}

pub open spec fn contribution_sum(s: Seq<BackerContribution>) -> int
    decreases s.len(),
{
    if s.len() == 0 {
        0
    } else {
        contribution_sum(s.drop_last()) + s.last().amount
    }
}

/// Sum of the contributions made in `token`.
pub open spec fn token_sum(s: Seq<BackerContribution>, token: Account) -> int
    decreases s.len(),
{
    if s.len() == 0 {
        0
    } else {
        token_sum(s.drop_last(), token) + if s.last().token == token { s.last().amount as int } else { 0 }
    }
}

pub open spec fn backer_rows_sum(s: Seq<(Account, u64, Account)>) -> int
    decreases s.len(),
{
    if s.len() == 0 {
        0
    } else {
        backer_rows_sum(s.drop_last()) + s.last().1
    }
}

/// No two backer rows share backer and token.
pub open spec fn backer_rows_unique(s: Seq<(Account, u64, Account)>) -> bool {
    forall|i: int, j: int| 0 <= i < j < s.len() ==> !(s[i].0 == s[j].0 && s[i].2 == s[j].2)
}

/// No voter has two rows.
pub open spec fn voters_unique(s: Seq<(Account, i32)>) -> bool {
    forall|i: int, j: int| 0 <= i < j < s.len() ==> s[i].0 != s[j].0
}

impl ProjectEntry {
    pub open spec fn wf(&self) -> bool {
        &&& contribution_sum(self.contributions@) == self.project.total_funded
        &&& backer_rows_sum(self.project.backers@) == self.project.total_funded
        &&& backer_rows_unique(self.project.backers@)
        &&& voters_unique(self.project.votes@)
        &&& self.refunded_tokens@.no_duplicates()
    }
}

pub open spec fn project_ids_unique(s: Seq<ProjectEntry>) -> bool {
    forall|i: int, j: int| 0 <= i < j < s.len() ==> s[i].project.project_id@ != s[j].project.project_id@
}

pub open spec fn whitelist_ids_unique(s: Seq<TokenWhitelist>) -> bool {
    forall|i: int, j: int| 0 <= i < j < s.len() ==> s[i].project_id@ != s[j].project_id@
}

impl BoundlessContract {
    pub open spec fn wf(&self) -> bool {
        &&& project_ids_unique(self.projects@)
        &&& forall|i: int| 0 <= i < self.projects@.len() ==> (#[trigger] self.projects@[i]).wf()
        &&& whitelist_ids_unique(self.whitelists@)
        &&& forall|i: int| 0 <= i < self.whitelists@.len() ==> (#[trigger] self.whitelists@[i]).tokens@.no_duplicates()
        &&& campaign_ids_unique(self.campaigns@)
    }

    pub open spec fn has_project(&self, id: Seq<u8>) -> bool {
        exists|i: int| 0 <= i < self.projects@.len() && self.projects@[i].project.project_id@ == id
    }

    pub open spec fn project_index(&self, id: Seq<u8>) -> int {
        choose|i: int| 0 <= i < self.projects@.len() && self.projects@[i].project.project_id@ == id
    }

    /// The stored entry of an existing project.
    pub open spec fn entry(&self, id: Seq<u8>) -> ProjectEntry {
        self.projects@[self.project_index(id)]
    }

    pub open spec fn has_whitelist(&self, id: Seq<u8>) -> bool {
        exists|i: int| 0 <= i < self.whitelists@.len() && self.whitelists@[i].project_id@ == id
    }

    pub open spec fn whitelist_index(&self, id: Seq<u8>) -> int {
        choose|i: int| 0 <= i < self.whitelists@.len() && self.whitelists@[i].project_id@ == id
    }

    /// Tokens accepted for project `id`; none until one is whitelisted.
    pub open spec fn tokens_for(&self, id: Seq<u8>) -> Seq<Account> {
        if self.has_whitelist(id) {
            self.whitelists@[self.whitelist_index(id)].tokens@
        } else {
            Seq::empty()
        }
    }

    /// `new` differs from `old` only in the entry of project `id`, now `e`.
    pub open spec fn only_project_changed(old: &BoundlessContract, new: &BoundlessContract, id: Seq<u8>, e: ProjectEntry) -> bool {
        &&& new.projects@ == old.projects@.update(old.project_index(id), e)
        &&& new.initialized == old.initialized
        &&& new.admin == old.admin
        &&& new.version == old.version
        &&& new.whitelists == old.whitelists
        &&& new.campaigns == old.campaigns
    }

    /// In a well-formed state, the project found at index `i` is the one
    /// `project_index` designates.
    pub proof fn lemma_project_index(&self, id: Seq<u8>, i: int)
        requires
            project_ids_unique(self.projects@),
            0 <= i < self.projects@.len(),
            self.projects@[i].project.project_id@ == id,
        ensures
            self.has_project(id),
            self.project_index(id) == i,
    {
        let k = self.project_index(id);
        assert(0 <= k < self.projects@.len() && self.projects@[k].project.project_id@ == id);
        if k != i {
            if k < i {
                assert(self.projects@[k].project.project_id@ != self.projects@[i].project.project_id@);
            } else {
                assert(self.projects@[i].project.project_id@ != self.projects@[k].project.project_id@);
            }
        }
    }

    pub proof fn lemma_whitelist_index(&self, id: Seq<u8>, i: int)
        requires
            whitelist_ids_unique(self.whitelists@),
            0 <= i < self.whitelists@.len(),
            self.whitelists@[i].project_id@ == id,
        ensures
            self.has_whitelist(id),
            self.whitelist_index(id) == i,
    {
        let k = self.whitelist_index(id);
        assert(0 <= k < self.whitelists@.len() && self.whitelists@[k].project_id@ == id);
        if k != i {
            if k < i {
                assert(self.whitelists@[k].project_id@ != self.whitelists@[i].project_id@);
            } else {
                assert(self.whitelists@[i].project_id@ != self.whitelists@[k].project_id@);
            }
        }
    }

    /// Position of project `id`.
    pub fn find_project(&self, id: &Vec<u8>) -> (r: Option<usize>)
        requires
            self.wf(),
        ensures
            r is None <==> !self.has_project(id@),
            r matches Some(i) ==> i < self.projects@.len() && i == self.project_index(id@)
                && self.projects@[i as int].project.project_id@ == id@,
    {
        let mut i: usize = 0;
        while i < self.projects.len()
            invariant
                i <= self.projects@.len(),
                forall|j: int| 0 <= j < i ==> self.projects@[j].project.project_id@ != id@,
            decreases self.projects@.len() - i,
        {
            if bytes_eq(&self.projects[i].project.project_id, id) {
                proof {
                    self.lemma_project_index(id@, i as int);
                }
                return Some(i);
            }
            i += 1;
        }
        None
    }

    /// Position of the token list of project `id`.
    pub fn find_whitelist(&self, id: &Vec<u8>) -> (r: Option<usize>)
        requires
            self.wf(),
        ensures
            r is None <==> !self.has_whitelist(id@),
            r matches Some(i) ==> i < self.whitelists@.len() && i == self.whitelist_index(id@)
                && self.whitelists@[i as int].project_id@ == id@,
    {
        let mut i: usize = 0;
        while i < self.whitelists.len()
            invariant
                i <= self.whitelists@.len(),
                forall|j: int| 0 <= j < i ==> self.whitelists@[j].project_id@ != id@,
            decreases self.whitelists@.len() - i,
        {
            if bytes_eq(&self.whitelists[i].project_id, id) {
                proof {
                    self.lemma_whitelist_index(id@, i as int);
                }
                return Some(i);
            }
            i += 1;
        }
        None
    }

    /// Whether `token` is accepted for project `id`.
    pub fn is_token_whitelisted(&self, id: &Vec<u8>, token: Account) -> (r: bool)
        requires
            self.wf(),
        ensures
            r == self.tokens_for(id@).contains(token),
    {
        match self.find_whitelist(id) {
            Some(w) => {
                let tokens = &self.whitelists[w].tokens;
                let mut i: usize = 0;
                while i < tokens.len()
                    invariant
                        i <= tokens@.len(),
                        tokens@ == self.tokens_for(id@),
                        forall|j: int| 0 <= j < i ==> tokens@[j] != token,
                    decreases tokens@.len() - i,
                {
                    if tokens[i] == token {
                        return true;
                    }
                    i += 1;
                }
                false
            },
            None => false,
        }
    }

    /// Replacing the entry of project `id` by `e` (same id) changes that
    /// entry only.
    pub proof fn lemma_project_update(old: &BoundlessContract, new: &BoundlessContract, id: Seq<u8>, e: ProjectEntry)
        requires
            old.wf(),
            old.has_project(id),
            e.project.project_id@ == id,
            e.wf(),
            new.projects@ == old.projects@.update(old.project_index(id), e),
            new.whitelists == old.whitelists,
            new.campaigns == old.campaigns,
        ensures
            new.wf(),
            new.has_project(id),
            new.project_index(id) == old.project_index(id),
            new.entry(id) == e,
            forall|id2: Seq<u8>| id2 != id ==> (new.has_project(id2) <==> old.has_project(id2)),
            forall|id2: Seq<u8>| id2 != id && old.has_project(id2) ==> new.entry(id2) == old.entry(id2),
            forall|id2: Seq<u8>| new.tokens_for(id2) == old.tokens_for(id2),
    {
        let k = old.project_index(id);
        old.lemma_project_index(id, k);
        assert(project_ids_unique(new.projects@)) by {
            assert forall|i: int, j: int| 0 <= i < j < new.projects@.len() implies new.projects@[i].project.project_id@
                != new.projects@[j].project.project_id@ by {
                assert(old.projects@[i].project.project_id@ != old.projects@[j].project.project_id@);
            }
        }
        assert forall|i: int| 0 <= i < new.projects@.len() implies (#[trigger] new.projects@[i]).wf() by {
            if i != k {
                assert(old.projects@[i].wf());
            }
        }
        new.lemma_project_index(id, k);
        assert forall|id2: Seq<u8>| id2 != id implies (new.has_project(id2) <==> old.has_project(id2)) by {
            if new.has_project(id2) {
                let j = new.project_index(id2);
                assert(old.projects@[j].project.project_id@ == id2);
            }
            if old.has_project(id2) {
                let j = old.project_index(id2);
                assert(new.projects@[j].project.project_id@ == id2);
            }
        }
        assert forall|id2: Seq<u8>| id2 != id && old.has_project(id2) implies new.entry(id2) == old.entry(id2) by {
            let j = old.project_index(id2);
            assert(new.projects@[j].project.project_id@ == id2);
            new.lemma_project_index(id2, j);
        }
    }

    /// Appending the entry of a new project `id` adds that project only.
    pub proof fn lemma_project_push(old: &BoundlessContract, new: &BoundlessContract, id: Seq<u8>, e: ProjectEntry)
        requires
            old.wf(),
            !old.has_project(id),
            e.project.project_id@ == id,
            e.wf(),
            new.projects@ == old.projects@.push(e),
            new.whitelists == old.whitelists,
            new.campaigns == old.campaigns,
        ensures
            new.wf(),
            new.has_project(id),
            new.entry(id) == e,
            forall|id2: Seq<u8>| id2 != id ==> (new.has_project(id2) <==> old.has_project(id2)),
            forall|id2: Seq<u8>| id2 != id && old.has_project(id2) ==> new.entry(id2) == old.entry(id2),
    {
        let n = old.projects@.len() as int;
        assert(project_ids_unique(new.projects@)) by {
            assert forall|i: int, j: int| 0 <= i < j < new.projects@.len() implies new.projects@[i].project.project_id@
                != new.projects@[j].project.project_id@ by {
                if j < n {
                    assert(old.projects@[i].project.project_id@ != old.projects@[j].project.project_id@);
                } else {
                    assert(new.projects@[i] == old.projects@[i]);
                }
            }
        }
        assert forall|i: int| 0 <= i < new.projects@.len() implies (#[trigger] new.projects@[i]).wf() by {
            if i < n {
                assert(old.projects@[i].wf());
            }
        }
        new.lemma_project_index(id, n);
        assert forall|id2: Seq<u8>| id2 != id implies (new.has_project(id2) <==> old.has_project(id2)) by {
            if new.has_project(id2) {
                let j = new.project_index(id2);
                assert(j < n);
                assert(old.projects@[j].project.project_id@ == id2);
            }
            if old.has_project(id2) {
                let j = old.project_index(id2);
                assert(new.projects@[j].project.project_id@ == id2);
            }
        }
        assert forall|id2: Seq<u8>| id2 != id && old.has_project(id2) implies new.entry(id2) == old.entry(id2) by {
            let j = old.project_index(id2);
            assert(new.projects@[j].project.project_id@ == id2);
            new.lemma_project_index(id2, j);
        }
    }
}

} // verus!
