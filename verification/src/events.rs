use vstd::prelude::*;

use crate::types::{Account, Hash32, Pillar};

verus! {

// Notices the contract publishes. Each is a plain record of what happened;
// the host turns them into ledger events.

pub struct EventCreated {
    pub id: u64,
    pub pillar: Pillar,
    pub owner: Account,
    pub token: Account,
    pub total_budget: i128,
    pub content_uri: Vec<u8>,
    pub title: Vec<u8>,
}

#[derive(Clone, Copy, Debug, PartialEq, Eq, Structural)]
pub struct EventCancelled {
    pub id: u64,
}

#[derive(Clone, Copy, Debug, PartialEq, Eq, Structural)]
pub struct FundsAdded {
    pub event_id: u64,
    pub contributor: Account,
    pub amount: i128,
    pub new_remaining: i128,
}

#[derive(Clone, Copy, Debug, PartialEq, Eq, Structural)]
pub struct ContributorRefunded {
    pub event_id: u64,
    pub contributor: Account,
    pub amount: i128,
}

#[derive(Clone, Copy, Debug, PartialEq, Eq, Structural)]
pub struct OwnerResidualRefunded {
    pub event_id: u64,
    pub owner: Account,
    pub amount: i128,
}

#[derive(Clone, Copy, Debug, PartialEq, Eq, Structural)]
pub struct Applied {
    pub event_id: u64,
    pub applicant: Account,
}

#[derive(Clone, Copy, Debug, PartialEq, Eq, Structural)]
pub struct ApplicationWithdrawn {
    pub event_id: u64,
    pub applicant: Account,
}

pub struct Submitted {
    pub event_id: u64,
    pub applicant: Account,
    pub content_uri: Vec<u8>,
}

#[derive(Clone, Copy, Debug, PartialEq, Eq, Structural)]
pub struct SubmissionWithdrawn {
    pub event_id: u64,
    pub applicant: Account,
}

#[derive(Clone, Copy, Debug, PartialEq, Eq, Structural)]
pub struct WinnersSelected {
    pub event_id: u64,
    pub count: u32,
}

#[derive(Clone, Copy, Debug, PartialEq, Eq, Structural)]
pub struct WinnerPaid {
    pub event_id: u64,
    pub recipient: Account,
    pub position: u32,
    pub amount: i128,
    pub milestone: Option<u32>,
}

#[derive(Clone, Copy, Debug, PartialEq, Eq, Structural)]
pub struct MilestoneClaimed {
    pub event_id: u64,
    pub recipient: Account,
    pub milestone: u32,
    pub amount: i128,
}

#[derive(Clone, Copy, Debug, PartialEq, Eq, Structural)]
pub struct TokenRegistered {
    pub token: Account,
}

#[derive(Clone, Copy, Debug, PartialEq, Eq, Structural)]
pub struct TokenDeregistered {
    pub token: Account,
}

#[derive(Clone, Copy, Debug, PartialEq, Eq, Structural)]
pub struct AdminUpdated {
    pub new_admin: Account,
}

#[derive(Clone, Copy, Debug, PartialEq, Eq, Structural)]
pub struct PendingAdminSet {
    pub target: Account,
}

#[derive(Clone, Copy, Debug, PartialEq, Eq, Structural)]
pub struct FeeAccountUpdated {
    pub new_account: Account,
}

#[derive(Clone, Copy, Debug, PartialEq, Eq, Structural)]
pub struct FeeBpsUpdated {
    pub new_bps: u32,
}

#[derive(Clone, Copy, Debug, PartialEq, Eq, Structural)]
pub struct ProfileContractUpdated {
    pub new_addr: Account,
}

#[derive(Clone, Copy, Debug, PartialEq, Eq, Structural)]
pub struct Paused {}

#[derive(Clone, Copy, Debug, PartialEq, Eq, Structural)]
pub struct Unpaused {}

#[derive(Clone, Copy, Debug, PartialEq, Eq, Structural)]
pub struct Upgraded {
    pub new_wasm_hash: Hash32,
}

pub struct PendingUpgradeProposed {
    pub wasm_hash: Hash32,
    pub new_version: Vec<u8>,
    pub available_at_ledger: u32,
    pub expires_at_ledger: u32,
}

pub struct UpgradeApplied {
    pub wasm_hash: Hash32,
    pub new_version: Vec<u8>,
}

#[derive(Clone, Copy, Debug, PartialEq, Eq, Structural)]
pub struct PendingUpgradeCancelled {
    pub cancelled_at_ledger: u32,
}

pub struct Migrated {
    pub from_version: Vec<u8>,
    pub to_version: Vec<u8>,
}

/// Any notice the contract publishes.
pub enum Notice {
    EventCreated(EventCreated),
    EventCancelled(EventCancelled),
    FundsAdded(FundsAdded),
    ContributorRefunded(ContributorRefunded),
    OwnerResidualRefunded(OwnerResidualRefunded),
    Applied(Applied),
    ApplicationWithdrawn(ApplicationWithdrawn),
    Submitted(Submitted),
    SubmissionWithdrawn(SubmissionWithdrawn),
    WinnersSelected(WinnersSelected),
    WinnerPaid(WinnerPaid),
    MilestoneClaimed(MilestoneClaimed),
    TokenRegistered(TokenRegistered),
    TokenDeregistered(TokenDeregistered),
    AdminUpdated(AdminUpdated),
    PendingAdminSet(PendingAdminSet),
    FeeAccountUpdated(FeeAccountUpdated),
    FeeBpsUpdated(FeeBpsUpdated),
    ProfileContractUpdated(ProfileContractUpdated),
    Paused(Paused),
    Unpaused(Unpaused),
    Upgraded(Upgraded),
    PendingUpgradeProposed(PendingUpgradeProposed),
    UpgradeApplied(UpgradeApplied),
    PendingUpgradeCancelled(PendingUpgradeCancelled),
    Migrated(Migrated),
}

} // verus!
