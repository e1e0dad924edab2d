use boundless::campaigns::{BoundlessError, Campaign, EntityType, Milestone, MilestoneStatus, Status};
use boundless::projects::BoundlessContract;
use boundless::types::{Account, Invocation};

const ADMIN: Account = 1;
const OWNER: Account = 2;

fn signed(by: &[Account]) -> Invocation {
    Invocation { timestamp: 77, sequence: 1, signers: by.to_vec() }
}

fn campaign(status: Status, milestones: Vec<Milestone>) -> Campaign {
    Campaign {
        id: 1,
        owner: OWNER,
        title: b"TestCampaign".to_vec(),
        description: b"TestDescription".to_vec(),
        funding_goal: 1000,
        escrow_contract_id: 3,
        milestones,
        backers: Vec::new(),
        status,
    }
}

fn milestone(id: u64, status: MilestoneStatus) -> Milestone {
    Milestone {
        id,
        entity_id: 1,
        entity_type: EntityType::Campaign,
        description: b"TestMilestone".to_vec(),
        amount: 500,
        status,
    }
}

fn setup_with(c: Campaign) -> BoundlessContract {
    let mut k = BoundlessContract::new();
    k.initialize(ADMIN).unwrap();
    k.campaigns.push(c);
    k
}

#[test]
fn test_get_campaign_success() {
    let k = setup_with(campaign(Status::Active, Vec::new()));
    let c = k.get_campaign(1).unwrap();
    assert_eq!(c.funding_goal, 1000);
    assert_eq!(c.title, b"TestCampaign".to_vec());
    assert_eq!(c.status, Status::Active);
}

#[test]
#[should_panic]
fn test_get_campaign_fail() {
    let mut k = BoundlessContract::new();
    k.initialize(ADMIN).unwrap();
    let _ = k.get_campaign(1).unwrap();
}

#[test]
fn test_cancel_campaign_success() {
    let mut k = setup_with(campaign(Status::Active, Vec::new()));
    k.cancel_campaign(&signed(&[ADMIN]), 1, ADMIN).unwrap();
    assert_eq!(k.get_campaign(1).unwrap().status, Status::Failed);
}

#[test]
#[should_panic]
fn test_cancel_campaign_unauthorized() {
    let mut k = setup_with(campaign(Status::Active, Vec::new()));
    let user: Account = 9;
    k.cancel_campaign(&signed(&[ADMIN, user]), 1, user).unwrap();
}

#[test]
#[should_panic]
fn test_cancel_campaign_not_found() {
    let mut k = BoundlessContract::new();
    k.initialize(ADMIN).unwrap();
    k.cancel_campaign(&signed(&[ADMIN]), 999, ADMIN).unwrap();
}

#[test]
#[should_panic]
fn test_cancel_campaign_already_completed() {
    let mut k = setup_with(campaign(Status::Completed, Vec::new()));
    k.cancel_campaign(&signed(&[ADMIN]), 1, ADMIN).unwrap();
}

#[test]
#[should_panic]
fn test_cancel_campaign_already_failed() {
    let mut k = setup_with(campaign(Status::Failed, Vec::new()));
    k.cancel_campaign(&signed(&[ADMIN]), 1, ADMIN).unwrap();
}

#[test]
fn test_cancel_campaign_pending_status() {
    let mut k = setup_with(campaign(Status::Pending, Vec::new()));
    k.cancel_campaign(&signed(&[ADMIN]), 1, ADMIN).unwrap();
    assert_eq!(k.get_campaign(1).unwrap().status, Status::Failed);
}

#[test]
fn test_release_funds_success() {
    let mut k = setup_with(campaign(Status::Active, vec![milestone(1, MilestoneStatus::Approved)]));
    assert_eq!(k.release_funds(1, 1), Ok(500));
    assert_eq!(k.get_campaign(1).unwrap().milestones[0].status, MilestoneStatus::Released);
}

#[test]
#[should_panic]
fn test_release_funds_campaign_not_found() {
    let mut k = BoundlessContract::new();
    k.initialize(ADMIN).unwrap();
    k.release_funds(999, 1).unwrap();
}

#[test]
#[should_panic]
fn test_release_funds_milestone_not_found() {
    let mut k = setup_with(campaign(Status::Active, Vec::new()));
    k.release_funds(1, 999).unwrap();
}

#[test]
#[should_panic]
fn test_release_funds_campaign_failed() {
    let mut k = setup_with(campaign(Status::Failed, vec![milestone(1, MilestoneStatus::Approved)]));
    k.release_funds(1, 1).unwrap();
}

#[test]
#[should_panic]
fn test_release_funds_campaign_completed() {
    let mut k = setup_with(campaign(Status::Completed, vec![milestone(1, MilestoneStatus::Approved)]));
    k.release_funds(1, 1).unwrap();
}

#[test]
#[should_panic]
fn test_release_funds_milestone_pending() {
    let mut k = setup_with(campaign(Status::Active, vec![milestone(1, MilestoneStatus::Pending)]));
    k.release_funds(1, 1).unwrap();
}

#[test]
#[should_panic]
fn test_release_funds_milestone_rejected() {
    let mut k = setup_with(campaign(Status::Active, vec![milestone(1, MilestoneStatus::Rejected)]));
    k.release_funds(1, 1).unwrap();
}

#[test]
#[should_panic]
fn test_release_funds_milestone_already_released() {
    let mut k = setup_with(campaign(Status::Active, vec![milestone(1, MilestoneStatus::Released)]));
    k.release_funds(1, 1).unwrap();
}

#[test]
fn release_funds_reports_each_error() {
    let mut k = setup_with(campaign(Status::Pending, vec![milestone(1, MilestoneStatus::Approved), milestone(2, MilestoneStatus::Pending)]));
    assert_eq!(k.release_funds(9, 1), Err(BoundlessError::CampaignNotFound));
    assert_eq!(k.release_funds(1, 3), Err(BoundlessError::MilestoneNotFound));
    assert_eq!(k.release_funds(1, 2), Err(BoundlessError::InvalidOperation));
    assert_eq!(k.release_funds(1, 1), Ok(500));
    // Releasing again is refused.
    assert_eq!(k.release_funds(1, 1), Err(BoundlessError::InvalidOperation));
    assert_eq!(k.get_campaign(1).unwrap().milestones[1].status, MilestoneStatus::Pending);
    assert_eq!(BoundlessError::MilestoneNotFound.code(), 5);
}

#[test]
fn complete_campaign_marks_completed_and_announces() {
    let mut k = setup_with(campaign(Status::Active, Vec::new()));
    let n = k.complete_campaign(&signed(&[ADMIN]), 1, ADMIN).unwrap();
    assert_eq!((n.campaign_id, n.completed_by, n.completed_at), (1, ADMIN, 77));
    assert_eq!(k.get_campaign(1).unwrap().status, Status::Completed);
    assert_eq!(k.is_platform_admin(ADMIN), Ok(true));
    assert_eq!(k.is_platform_admin(OWNER), Ok(false));
    assert_eq!(BoundlessContract::new().is_platform_admin(ADMIN), Err(BoundlessError::Unauthorized));
}
