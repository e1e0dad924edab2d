use vstd::prelude::*;

use crate::projects::{AdminSlot, BoundlessContract};
use crate::types::{Account, Invocation};

verus! {

/// Failure reasons of the campaign operations.
#[derive(Clone, Copy, Debug, PartialEq, Eq, Structural)]
pub enum BoundlessError {
    Unauthorized,
    CampaignNotFound,
    GrantNotFound,
    HackathonNotFound,
    MilestoneNotFound,
    InvalidStatus,
    InvalidEntityType,
    EscrowError,
    MilestoneError,
    NotFound,
    InvalidOperation,
    AlreadyInitialized,
    InvalidEscrowContract,
    EscrowAlreadyLinked,
    EscrowNotFound,
}

impl BoundlessError {
    pub open spec fn spec_code(self) -> u32 {
        match self {
            BoundlessError::Unauthorized => 1,
            BoundlessError::CampaignNotFound => 2,
            BoundlessError::GrantNotFound => 3,
            BoundlessError::HackathonNotFound => 4,
            BoundlessError::MilestoneNotFound => 5,
            BoundlessError::InvalidStatus => 6,
            BoundlessError::InvalidEntityType => 7,
            BoundlessError::EscrowError => 8,
            BoundlessError::MilestoneError => 9,
            BoundlessError::NotFound => 10,
            BoundlessError::InvalidOperation => 11,
            BoundlessError::AlreadyInitialized => 12,
            BoundlessError::InvalidEscrowContract => 13,
            BoundlessError::EscrowAlreadyLinked => 14,
            BoundlessError::EscrowNotFound => 15,
        }
    }

    /// The numeric code under which the error is reported.
    pub fn code(&self) -> (c: u32)
        ensures
            c == self.spec_code(),
    {
        match self {
            BoundlessError::Unauthorized => 1,
            BoundlessError::CampaignNotFound => 2,
            BoundlessError::GrantNotFound => 3,
            BoundlessError::HackathonNotFound => 4,
            BoundlessError::MilestoneNotFound => 5,
            BoundlessError::InvalidStatus => 6,
            BoundlessError::InvalidEntityType => 7,
            BoundlessError::EscrowError => 8,
            BoundlessError::MilestoneError => 9,
            BoundlessError::NotFound => 10,
            BoundlessError::InvalidOperation => 11,
            BoundlessError::AlreadyInitialized => 12,
            BoundlessError::InvalidEscrowContract => 13,
            BoundlessError::EscrowAlreadyLinked => 14,
            BoundlessError::EscrowNotFound => 15,
        }
    }
}

/// Phase of a campaign, grant or hackathon.
#[derive(Clone, Copy, Debug, PartialEq, Eq, Structural)]
pub enum Status {
    Pending,
    Active,
    Completed,
    Failed,
}

#[derive(Clone, Copy, Debug, PartialEq, Eq, Structural)]
pub enum MilestoneStatus {
    Pending,
    Approved,
    Rejected,
    Released,
}

/// Kinds of entity that carry milestones.
#[derive(Clone, Copy, Debug, PartialEq, Eq, Structural)]
pub enum EntityType {
    Campaign,
    Grant,
    Hackathon,
}

pub struct Milestone {
    pub id: u64,
    pub entity_id: u64,
    pub entity_type: EntityType,
    pub description: Vec<u8>,
    pub amount: i128,
    pub status: MilestoneStatus,
}

#[derive(Clone, Copy, Debug, PartialEq, Eq, Structural)]
pub struct Backer {
    pub wallet: Account,
    pub amount: i128,
}

/// A crowdfunding campaign, whose funds an escrow contract holds.
pub struct Campaign {
    pub id: u64,
    pub owner: Account,
    pub title: Vec<u8>,
    pub description: Vec<u8>,
    pub funding_goal: i128,
    pub escrow_contract_id: Account,
    pub milestones: Vec<Milestone>,
    pub backers: Vec<Backer>,
    pub status: Status,
}

/// Notice of a completed campaign.
#[derive(Clone, Copy, Debug, PartialEq, Eq, Structural)]
pub struct CampaignCompleted {
    pub campaign_id: u64,
    pub completed_by: Account,
    pub completed_at: u64,
}

pub open spec fn campaign_ids_unique(s: Seq<Campaign>) -> bool {
    forall|i: int, j: int| 0 <= i < j < s.len() ==> s[i].id != s[j].id
}

/// The milestones after releasing every milestone numbered `id`.
pub open spec fn released_milestones(s: Seq<Milestone>, id: u64, r: Seq<Milestone>) -> bool {
    &&& r.len() == s.len()
    &&& forall|j: int| 0 <= j < s.len() ==> (#[trigger] r[j]) == if s[j].id == id {
        Milestone { status: MilestoneStatus::Released, ..s[j] }
    } else {
        s[j]
    }
}

pub open spec fn has_milestone(s: Seq<Milestone>, id: u64) -> bool {
    exists|j: int| 0 <= j < s.len() && s[j].id == id
}

/// The first milestone numbered `id` (meaningful when there is one).
pub open spec fn first_milestone(s: Seq<Milestone>, id: u64) -> Milestone
    decreases s.len(),
{
    if s.len() == 0 {
        s[0]
    } else if s[0].id == id {
        s[0]
    } else {
        first_milestone(s.drop_first(), id)
    }
}

/// The notice that announces campaign `campaign_id` completed by
/// `completed_by` at time `now`; the host publishes it.
pub fn emit_campaign_completed_event(now: u64, campaign_id: u64, completed_by: Account) -> (n: CampaignCompleted)
    ensures
        n == (CampaignCompleted { campaign_id, completed_by, completed_at: now }),
{
    CampaignCompleted { campaign_id, completed_by, completed_at: now }
}

impl BoundlessContract {
    pub open spec fn has_campaign(&self, id: u64) -> bool {
        exists|i: int| 0 <= i < self.campaigns@.len() && self.campaigns@[i].id == id
    }

    pub open spec fn campaign_index(&self, id: u64) -> int {
        choose|i: int| 0 <= i < self.campaigns@.len() && self.campaigns@[i].id == id
    }

    pub open spec fn campaign(&self, id: u64) -> Campaign {
        self.campaigns@[self.campaign_index(id)]
    }

    /// `new` differs from `old` only in campaign `id`, now `c`.
    pub open spec fn only_campaign_changed(old: &BoundlessContract, new: &BoundlessContract, id: u64, c: Campaign) -> bool {
        &&& new.campaigns@ == old.campaigns@.update(old.campaign_index(id), c)
        &&& new.initialized == old.initialized
        &&& new.admin == old.admin
        &&& new.version == old.version
        &&& new.projects == old.projects
        &&& new.whitelists == old.whitelists
    }

    pub proof fn lemma_campaign_index(&self, id: u64, i: int)
        requires
            campaign_ids_unique(self.campaigns@),
            0 <= i < self.campaigns@.len(),
            self.campaigns@[i].id == id,
        ensures
            self.has_campaign(id),
            self.campaign_index(id) == i,
    {
        let k = self.campaign_index(id);
        assert(0 <= k < self.campaigns@.len() && self.campaigns@[k].id == id);
        if k != i {
            if k < i {
                assert(self.campaigns@[k].id != self.campaigns@[i].id);
            } else {
                assert(self.campaigns@[i].id != self.campaigns@[k].id);
            }
        }
    }

    /// Replacing campaign `id` by `c` (same id) keeps the state well formed
    /// and makes `c` the campaign under that id.
    pub proof fn lemma_campaign_update(old: &BoundlessContract, new: &BoundlessContract, id: u64, c: Campaign)
        requires
            old.wf(),
            old.has_campaign(id),
            c.id == id,
            BoundlessContract::only_campaign_changed(old, new, id, c),
        ensures
            new.wf(),
            new.has_campaign(id),
            new.campaign(id) == c,
    {
        let k = old.campaign_index(id);
        old.lemma_campaign_index(id, k);
        assert(campaign_ids_unique(new.campaigns@)) by {
            assert forall|i: int, j: int| 0 <= i < j < new.campaigns@.len() implies new.campaigns@[i].id
                != new.campaigns@[j].id by {
                assert(old.campaigns@[i].id != old.campaigns@[j].id);
            }
        }
        new.lemma_campaign_index(id, k);
    }

    /// Position of campaign `id`.
    pub fn find_campaign(&self, id: u64) -> (r: Option<usize>)
        requires
            self.wf(),
        ensures
            r is None <==> !self.has_campaign(id),
            r matches Some(i) ==> i < self.campaigns@.len() && i == self.campaign_index(id) && self.campaigns@[i as int].id == id,
    {
        let mut i: usize = 0;
        while i < self.campaigns.len()
            invariant
                i <= self.campaigns@.len(),
                forall|j: int| 0 <= j < i ==> self.campaigns@[j].id != id,
            decreases self.campaigns@.len() - i,
        {
            if self.campaigns[i].id == id {
                proof {
                    self.lemma_campaign_index(id, i as int);
                }
                return Some(i);
            }
            i += 1;
        }
        None
    }

    /// Whether `address` is the platform admin; `Unauthorized` when no admin
    /// is stored.
    pub fn is_platform_admin(&self, address: Account) -> (r: Result<bool, BoundlessError>)
        requires
            !(self.admin is Listed),
        ensures
            r is Err <==> self.admin is Unset,
            r matches Err(e) ==> e == BoundlessError::Unauthorized,
            r matches Ok(b) ==> b == (self.admin == AdminSlot::Single(address)),
    {
        match &self.admin {
            AdminSlot::Single(a) => Ok(*a == address),
            _ => Err(BoundlessError::Unauthorized),
        }
    }

    /// Why an admin-only campaign call by `admin` is refused before the
    /// campaign is looked up.
    pub open spec fn campaign_admin_error(&self, inv: &Invocation, admin: Account) -> Option<BoundlessError> {
        if !inv.authorizes(admin) {
            Some(BoundlessError::Unauthorized)
        } else if self.admin != AdminSlot::Single(admin) {
            Some(BoundlessError::Unauthorized)
        } else {
            None
        }
    }

    fn require_campaign_admin(&self, inv: &Invocation, admin: Account) -> (r: Result<(), BoundlessError>)
        requires
            inv.authorizes(admin) ==> self.admin is Single,
        ensures
            r is Err <==> self.campaign_admin_error(inv, admin) is Some,
            r matches Err(e) ==> Some(e) == self.campaign_admin_error(inv, admin),
    {
        if !inv.is_authorized(admin) {
            return Err(BoundlessError::Unauthorized);
        }
        if self.get_admin() != admin {
            return Err(BoundlessError::Unauthorized);
        }
        Ok(())
    }

    /// The campaign stored under `campaign_id`.
    pub fn get_campaign(&self, campaign_id: u64) -> (r: Result<&Campaign, BoundlessError>)
        requires
            self.wf(),
        ensures
            r is Err <==> !self.has_campaign(campaign_id),
            r matches Err(e) ==> e == BoundlessError::CampaignNotFound,
            r matches Ok(c) ==> *c == self.campaign(campaign_id),
    {
        match self.find_campaign(campaign_id) {
            Some(i) => Ok(&self.campaigns[i]),
            None => Err(BoundlessError::CampaignNotFound),
        }
    }

    /// The backers of campaign `campaign_id`, in funding order.
    pub fn get_campaign_backers(&self, campaign_id: u64) -> (r: Result<&Vec<Backer>, BoundlessError>)
        requires
            self.wf(),
        ensures
            r is Err <==> !self.has_campaign(campaign_id),
            r matches Err(e) ==> e == BoundlessError::CampaignNotFound,
            r matches Ok(b) ==> b@ == self.campaign(campaign_id).backers@,
    {
        match self.find_campaign(campaign_id) {
            Some(i) => Ok(&self.campaigns[i].backers),
            None => Err(BoundlessError::CampaignNotFound),
        }
    }

    pub open spec fn fund_campaign_error(&self, inv: &Invocation, campaign_id: u64, backer: Account, amount: i128) -> Option<BoundlessError> {
        if !inv.authorizes(backer) {
            Some(BoundlessError::Unauthorized)
        } else if amount <= 0 {
            Some(BoundlessError::InvalidOperation)
        } else if !self.has_campaign(campaign_id) {
            Some(BoundlessError::CampaignNotFound)
        } else {
            None
        }
    }

    /// `backer` pledges `amount` to a campaign; the pledge is appended to
    /// its backers.
    pub fn fund_campaign(&mut self, inv: &Invocation, campaign_id: u64, backer: Account, amount: i128) -> (r: Result<(), BoundlessError>)
        requires
            old(self).wf(),
        ensures
            final(self).wf(),
            r is Err <==> old(self).fund_campaign_error(inv, campaign_id, backer, amount) is Some,
            r matches Err(e) ==> Some(e) == old(self).fund_campaign_error(inv, campaign_id, backer, amount),
            r is Err ==> *final(self) == *old(self),
            r is Ok ==> {
                let c0 = old(self).campaign(campaign_id);
                let c = final(self).campaign(campaign_id);
                &&& c.backers@ == c0.backers@.push(Backer { wallet: backer, amount })
                &&& c == (Campaign { backers: c.backers, ..c0 })
                &&& BoundlessContract::only_campaign_changed(old(self), final(self), campaign_id, c)
            },
    {
        if !inv.is_authorized(backer) {
            return Err(BoundlessError::Unauthorized);
        }
        if amount <= 0 {
            return Err(BoundlessError::InvalidOperation);
        }
        let i = match self.find_campaign(campaign_id) {
            Some(i) => i,
            None => return Err(BoundlessError::CampaignNotFound),
        };
        let ghost before = *self;
        self.campaigns[i].backers.push(Backer { wallet: backer, amount });
        proof {
            assert(self.campaigns@ =~= before.campaigns@.update(i as int, self.campaigns@[i as int]));
            BoundlessContract::lemma_campaign_update(&before, self, campaign_id, self.campaigns@[i as int]);
        }
        Ok(())
    }

    /// `new` is `old` with every milestone `milestone_id` of campaign
    /// `campaign_id` released, nothing else changed.
    pub open spec fn release_recorded(old: &BoundlessContract, new: &BoundlessContract, campaign_id: u64, milestone_id: u64) -> bool {
        let c0 = old.campaign(campaign_id);
        let c = new.campaign(campaign_id);
        &&& new.has_campaign(campaign_id)
        &&& released_milestones(c0.milestones@, milestone_id, c.milestones@)
        &&& c == (Campaign { milestones: c.milestones, ..c0 })
        &&& BoundlessContract::only_campaign_changed(old, new, campaign_id, c)
    }

    pub open spec fn release_funds_error(&self, campaign_id: u64, milestone_id: u64) -> Option<BoundlessError> {
        if !self.has_campaign(campaign_id) {
            Some(BoundlessError::CampaignNotFound)
        } else {
            let c = self.campaign(campaign_id);
            if c.status == Status::Failed || c.status == Status::Completed {
                Some(BoundlessError::InvalidOperation)
            } else if !has_milestone(c.milestones@, milestone_id) {
                Some(BoundlessError::MilestoneNotFound)
            } else if first_milestone(c.milestones@, milestone_id).status != MilestoneStatus::Approved {
                Some(BoundlessError::InvalidOperation)
            } else {
                None
            }
        }
    }

    /// Releases an approved milestone of a pending or active campaign: every
    /// milestone with that id becomes `Released`. Returns the amount of the
    /// first such milestone, which the host announces as released.
    pub fn release_funds(&mut self, campaign_id: u64, milestone_id: u64) -> (r: Result<i128, BoundlessError>)
        requires
            old(self).wf(),
        ensures
            final(self).wf(),
            r is Err <==> old(self).release_funds_error(campaign_id, milestone_id) is Some,
            r matches Err(e) ==> Some(e) == old(self).release_funds_error(campaign_id, milestone_id),
            r is Err ==> *final(self) == *old(self),
            r matches Ok(amount) ==> amount == first_milestone(old(self).campaign(campaign_id).milestones@, milestone_id).amount
                && BoundlessContract::release_recorded(old(self), final(self), campaign_id, milestone_id),
    {
        let i = match self.find_campaign(campaign_id) {
            Some(i) => i,
            None => return Err(BoundlessError::CampaignNotFound),
        };
        if self.campaigns[i].status == Status::Failed || self.campaigns[i].status == Status::Completed {
            return Err(BoundlessError::InvalidOperation);
        }
        let ghost ms = self.campaigns@[i as int].milestones@;
        // The first milestone with this id decides.
        let mut k: usize = 0;
        let mut found: Option<(MilestoneStatus, i128)> = None;
        proof {
            assert(ms.subrange(0, ms.len() as int) =~= ms);
        }
        while k < self.campaigns[i].milestones.len()
            invariant
                self.campaigns@[i as int].milestones@ == ms,
                i < self.campaigns@.len(),
                k <= ms.len(),
                found is None,
                forall|j: int| 0 <= j < k ==> ms[j].id != milestone_id,
                first_milestone(ms, milestone_id) == first_milestone(ms.subrange(k as int, ms.len() as int), milestone_id),
            decreases ms.len() - k,
        {
            let ghost rest = ms.subrange(k as int, ms.len() as int);
            proof {
                assert(rest[0] == ms[k as int]);
                assert(rest.drop_first() =~= ms.subrange(k + 1, ms.len() as int));
            }
            if self.campaigns[i].milestones[k].id == milestone_id {
                found = Some((self.campaigns[i].milestones[k].status, self.campaigns[i].milestones[k].amount));
                break;
            }
            k += 1;
        }
        let (status, amount) = match found {
            Some(f) => f,
            None => {
                proof {
                    assert(!has_milestone(ms, milestone_id));
                }
                return Err(BoundlessError::MilestoneNotFound);
            },
        };
        if status != MilestoneStatus::Approved {
            return Err(BoundlessError::InvalidOperation);
        }
        let ghost before = *self;
        let mut j: usize = 0;
        while j < self.campaigns[i].milestones.len()
            invariant
                i < self.campaigns@.len(),
                self.campaigns@.len() == before.campaigns@.len(),
                forall|q: int| 0 <= q < self.campaigns@.len() && q != i ==> self.campaigns@[q] == before.campaigns@[q],
                self.campaigns@[i as int] == (Campaign { milestones: self.campaigns@[i as int].milestones, ..before.campaigns@[i as int] }),
                self.campaigns@[i as int].milestones@.len() == ms.len(),
                j <= ms.len(),
                forall|q: int| 0 <= q < j ==> (#[trigger] self.campaigns@[i as int].milestones@[q]) == if ms[q].id == milestone_id {
                    Milestone { status: MilestoneStatus::Released, ..ms[q] }
                } else {
                    ms[q]
                },
                forall|q: int| j <= q < ms.len() ==> (#[trigger] self.campaigns@[i as int].milestones@[q]) == ms[q],
                self.initialized == before.initialized,
                self.admin == before.admin,
                self.version == before.version,
                self.projects == before.projects,
                self.whitelists == before.whitelists,
            decreases ms.len() - j,
        {
            if self.campaigns[i].milestones[j].id == milestone_id {
                self.campaigns[i].milestones[j].status = MilestoneStatus::Released;
            }
            j += 1;
        }
        proof {
            let c = self.campaigns@[i as int];
            assert(self.campaigns@ =~= before.campaigns@.update(i as int, c));
            BoundlessContract::lemma_campaign_update(&before, self, campaign_id, c);
        }
        Ok(amount)
    }

    pub open spec fn cancel_campaign_error(&self, inv: &Invocation, campaign_id: u64, admin: Account) -> Option<BoundlessError> {
        if self.campaign_admin_error(inv, admin) is Some {
            self.campaign_admin_error(inv, admin)
        } else if !self.has_campaign(campaign_id) {
            Some(BoundlessError::CampaignNotFound)
        } else if self.campaign(campaign_id).status == Status::Completed || self.campaign(campaign_id).status == Status::Failed {
            Some(BoundlessError::InvalidOperation)
        } else {
            None
        }
    }

    /// The admin stops a pending or active campaign: it becomes `Failed`.
    pub fn cancel_campaign(&mut self, inv: &Invocation, campaign_id: u64, admin: Account) -> (r: Result<(), BoundlessError>)
        requires
            old(self).wf(),
            inv.authorizes(admin) ==> old(self).admin is Single,
        ensures
            final(self).wf(),
            r is Err <==> old(self).cancel_campaign_error(inv, campaign_id, admin) is Some,
            r matches Err(e) ==> Some(e) == old(self).cancel_campaign_error(inv, campaign_id, admin),
            r is Err ==> *final(self) == *old(self),
            r is Ok ==> {
                let c = final(self).campaign(campaign_id);
                &&& c == (Campaign { status: Status::Failed, ..old(self).campaign(campaign_id) })
                &&& BoundlessContract::only_campaign_changed(old(self), final(self), campaign_id, c)
            },
    {
        self.require_campaign_admin(inv, admin)?;
        let i = match self.find_campaign(campaign_id) {
            Some(i) => i,
            None => return Err(BoundlessError::CampaignNotFound),
        };
        if self.campaigns[i].status == Status::Completed || self.campaigns[i].status == Status::Failed {
            return Err(BoundlessError::InvalidOperation);
        }
        let ghost before = *self;
        self.campaigns[i].status = Status::Failed;
        proof {
            assert(self.campaigns@ =~= before.campaigns@.update(i as int, self.campaigns@[i as int]));
            BoundlessContract::lemma_campaign_update(&before, self, campaign_id, self.campaigns@[i as int]);
        }
        Ok(())
    }

    pub open spec fn set_campaign_status_error(&self, inv: &Invocation, campaign_id: u64, admin: Account) -> Option<BoundlessError> {
        if self.campaign_admin_error(inv, admin) is Some {
            self.campaign_admin_error(inv, admin)
        } else if !self.has_campaign(campaign_id) {
            Some(BoundlessError::CampaignNotFound)
        } else {
            None
        }
    }

    /// The admin sets a campaign's status to any value.
    pub fn update_campaign_status(&mut self, inv: &Invocation, campaign_id: u64, status: Status, admin: Account) -> (r: Result<(), BoundlessError>)
        requires
            old(self).wf(),
            inv.authorizes(admin) ==> old(self).admin is Single,
        ensures
            final(self).wf(),
            r is Err <==> old(self).set_campaign_status_error(inv, campaign_id, admin) is Some,
            r matches Err(e) ==> Some(e) == old(self).set_campaign_status_error(inv, campaign_id, admin),
            r is Err ==> *final(self) == *old(self),
            r is Ok ==> {
                let c = final(self).campaign(campaign_id);
                &&& c == (Campaign { status, ..old(self).campaign(campaign_id) })
                &&& BoundlessContract::only_campaign_changed(old(self), final(self), campaign_id, c)
            },
    {
        self.require_campaign_admin(inv, admin)?;
        let i = match self.find_campaign(campaign_id) {
            Some(i) => i,
            None => return Err(BoundlessError::CampaignNotFound),
        };
        let ghost before = *self;
        self.campaigns[i].status = status;
        proof {
            assert(self.campaigns@ =~= before.campaigns@.update(i as int, self.campaigns@[i as int]));
            BoundlessContract::lemma_campaign_update(&before, self, campaign_id, self.campaigns@[i as int]);
        }
        Ok(())
    }

    /// The admin marks a campaign `Completed`; the returned notice is for
    /// the host to publish.
    pub fn complete_campaign(&mut self, inv: &Invocation, campaign_id: u64, admin: Account) -> (r: Result<CampaignCompleted, BoundlessError>)
        requires
            old(self).wf(),
            inv.authorizes(admin) ==> old(self).admin is Single,
        ensures
            final(self).wf(),
            r is Err <==> old(self).set_campaign_status_error(inv, campaign_id, admin) is Some,
            r matches Err(e) ==> Some(e) == old(self).set_campaign_status_error(inv, campaign_id, admin),
            r is Err ==> *final(self) == *old(self),
            r matches Ok(n) ==> {
                let c = final(self).campaign(campaign_id);
                &&& n == (CampaignCompleted { campaign_id, completed_by: admin, completed_at: inv.timestamp })
                &&& c == (Campaign { status: Status::Completed, ..old(self).campaign(campaign_id) })
                &&& BoundlessContract::only_campaign_changed(old(self), final(self), campaign_id, c)
            },
    {
        self.update_campaign_status(inv, campaign_id, Status::Completed, admin)?;
        Ok(emit_campaign_completed_event(inv.timestamp, campaign_id, admin))
    }
}

} // verus!
