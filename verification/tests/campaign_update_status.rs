use boundless::campaigns::{BoundlessError, Campaign, Status};
use boundless::projects::BoundlessContract;
use boundless::types::{Account, Invocation};

const ADMIN: Account = 1;

fn signed(by: &[Account]) -> Invocation {
    Invocation { timestamp: 0, sequence: 1, signers: by.to_vec() }
}

fn setup() -> BoundlessContract {
    let mut k = BoundlessContract::new();
    k.initialize(ADMIN).unwrap();
    k.campaigns.push(Campaign {
        id: 1,
        owner: 2,
        title: b"TestCampaign".to_vec(),
        description: b"TestDescription".to_vec(),
        funding_goal: 1000,
        escrow_contract_id: 3,
        milestones: Vec::new(),
        backers: Vec::new(),
        status: Status::Active,
    });
    k
}

#[test]
fn test_update_campaign_status_success() {
    let mut k = setup();
    k.update_campaign_status(&signed(&[ADMIN]), 1, Status::Completed, ADMIN).unwrap();
    assert_eq!(k.get_campaign(1).unwrap().status, Status::Completed);
}

#[test]
#[should_panic]
fn test_update_campaign_status_unauthorized() {
    let mut k = setup();
    k.update_campaign_status(&signed(&[ADMIN, 9]), 1, Status::Completed, 9).unwrap();
}

#[test]
#[should_panic]
fn test_update_campaign_status_not_found() {
    let mut k = setup();
    k.update_campaign_status(&signed(&[ADMIN]), 999, Status::Completed, ADMIN).unwrap();
}

#[test]
fn test_update_campaign_status_to_failed() {
    let mut k = setup();
    k.update_campaign_status(&signed(&[ADMIN]), 1, Status::Failed, ADMIN).unwrap();
    assert_eq!(k.get_campaign(1).unwrap().status, Status::Failed);
}

#[test]
fn test_update_campaign_status_to_pending() {
    let mut k = setup();
    k.update_campaign_status(&signed(&[ADMIN]), 1, Status::Pending, ADMIN).unwrap();
    assert_eq!(k.get_campaign(1).unwrap().status, Status::Pending);
}

#[test]
fn status_update_needs_the_admins_signature() {
    let mut k = setup();
    assert_eq!(k.update_campaign_status(&signed(&[]), 1, Status::Failed, ADMIN), Err(BoundlessError::Unauthorized));
    assert_eq!(k.get_campaign(1).unwrap().status, Status::Active);
}
