use boundless::contract::EventsContract;
use boundless::effects::Effect;
use boundless::errors::Error;
use boundless::types::{Account, CreateEventParams, EventStatus, Hash32, Invocation, PercentMap, Pillar, ReleaseKind, WinnerSpec};

const ADMIN: Account = 1;
const FEE_ACCOUNT: Account = 2;
const PROFILE: Account = 3;
const UPGRADE_TIMELOCK_LEDGERS: u32 = 17_280;
const PENDING_UPGRADE_TTL_LEDGERS: u32 = 518_400;

fn inv(sequence: u32, signers: &[Account]) -> Invocation {
    Invocation { timestamp: 1_000, sequence, signers: signers.to_vec() }
}

fn admin_inv(sequence: u32) -> Invocation {
    inv(sequence, &[ADMIN])
}

fn setup(fee_bps: u32) -> EventsContract {
    let mut c = EventsContract::new();
    c.initialize(&inv(100, &[]), ADMIN, FEE_ACCOUNT, fee_bps, PROFILE).unwrap();
    c
}

fn hash(n: u128) -> Hash32 {
    Hash32 { hi: n, lo: n + 1 }
}

#[test]
fn initializes_with_expected_config() {
    let c = setup(250);
    assert_eq!(c.get_admin(), ADMIN);
    assert_eq!(c.get_fee_account(), FEE_ACCOUNT);
    assert_eq!(c.get_fee_bps(), 250);
    assert_eq!(c.get_profile_contract(), PROFILE);
    assert_eq!(c.is_paused(), false);
    assert_eq!(c.version(), b"1.7.0".to_vec());
    assert!(c.get_pending_upgrade().is_none());
    assert_eq!(c.get_migrated_to_version(), None);
}

#[test]
fn pause_and_unpause_round_trip() {
    let mut c = setup(250);
    c.pause(&admin_inv(100)).unwrap();
    assert_eq!(c.is_paused(), true);
    c.unpause(&admin_inv(100)).unwrap();
    assert_eq!(c.is_paused(), false);
}

#[test]
fn id_base_encodes_deployment_sequence() {
    let c = setup(250);
    let base = c.id_base();
    assert_eq!(base & 0xFFFF_FFFF, 0);
    assert_eq!(base, 100u64 << 32);
}

#[test]
fn propose_upgrade_records_pending_and_emits() {
    let mut c = setup(250);
    let before = 500;
    let fx = c.propose_upgrade(&admin_inv(before), hash(7), b"0.3.0".to_vec()).unwrap();
    assert_eq!(fx.len(), 1);

    let pending = c.get_pending_upgrade().expect("proposal");
    assert_eq!(pending.wasm_hash, hash(7));
    assert_eq!(pending.new_version, b"0.3.0".to_vec());
    assert_eq!(pending.proposed_at_ledger, before);
    assert_eq!(pending.available_at_ledger, before + UPGRADE_TIMELOCK_LEDGERS);
    assert_eq!(pending.expires_at_ledger, before + PENDING_UPGRADE_TTL_LEDGERS);
}

#[test]
fn propose_upgrade_rejects_empty_version() {
    let mut c = setup(250);
    let err = c.propose_upgrade(&admin_inv(500), hash(7), Vec::new()).err().expect("empty version rejected");
    assert_eq!(err, Error::InvalidPillar);
}

#[test]
fn apply_upgrade_before_timelock_reverts() {
    let mut c = setup(250);
    c.propose_upgrade(&admin_inv(500), hash(7), b"0.3.0".to_vec()).unwrap();
    let err = c.apply_upgrade(&admin_inv(501)).err().expect("timelock blocks");
    assert_eq!(err, Error::UpgradeTimelockNotElapsed);
    assert_eq!(c.version(), b"1.7.0".to_vec());
}

#[test]
fn apply_upgrade_after_expiry_reverts() {
    let mut c = setup(250);
    let start = 500;
    c.propose_upgrade(&admin_inv(start), hash(7), b"0.3.0".to_vec()).unwrap();
    let err = c.apply_upgrade(&admin_inv(start + PENDING_UPGRADE_TTL_LEDGERS + 1)).err().expect("expiry blocks");
    assert_eq!(err, Error::UpgradeProposalExpired);
}

#[test]
fn apply_upgrade_inside_window_installs_version() {
    let mut c = setup(250);
    c.propose_upgrade(&admin_inv(500), hash(7), b"0.3.0".to_vec()).unwrap();
    c.apply_upgrade(&admin_inv(500 + UPGRADE_TIMELOCK_LEDGERS)).unwrap();
    assert_eq!(c.version(), b"0.3.0".to_vec());
    assert!(c.get_pending_upgrade().is_none());
}

#[test]
fn cancel_pending_upgrade_clears_proposal() {
    let mut c = setup(250);
    c.propose_upgrade(&admin_inv(500), hash(7), b"0.3.0".to_vec()).unwrap();
    assert!(c.get_pending_upgrade().is_some());
    c.cancel_pending_upgrade(&admin_inv(501)).unwrap();
    assert!(c.get_pending_upgrade().is_none());
    assert_eq!(c.version(), b"1.7.0".to_vec());
}

#[test]
fn cancel_with_no_pending_reverts() {
    let mut c = setup(250);
    let err = c.cancel_pending_upgrade(&admin_inv(500)).err().expect("nothing to cancel");
    assert_eq!(err, Error::UpgradeNotProposed);
}

#[test]
fn migrate_is_a_no_op_on_a_fresh_deployment() {
    let mut c = setup(250);
    c.migrate(&admin_inv(500)).unwrap();
    assert_eq!(c.get_migrated_to_version(), Some(b"1.7.0".to_vec()));
}

#[test]
fn migrate_marks_current_version_and_blocks_replay() {
    let mut c = setup(250);
    c.migrate(&admin_inv(500)).unwrap();
    assert_eq!(c.get_migrated_to_version(), Some(b"1.7.0".to_vec()));
    let err = c.migrate(&admin_inv(501)).err().expect("second migrate rejected");
    assert_eq!(err, Error::MigrationAlreadyApplied);
}

#[test]
fn pause_reverts_without_admin_auth() {
    let mut c = setup(250);
    let err = c.pause(&inv(500, &[]));
    assert!(err.is_err(), "pause must require admin auth");
}

#[test]
fn unpause_reverts_without_admin_auth() {
    let mut c = setup(250);
    c.pause(&admin_inv(500)).unwrap();
    let err = c.unpause(&inv(500, &[]));
    assert!(err.is_err(), "unpause must require admin auth");
}

#[test]
fn set_admin_reverts_without_admin_auth() {
    let mut c = setup(250);
    let err = c.set_admin(&inv(500, &[]), 40);
    assert!(err.is_err(), "set_admin must require admin auth");
}

#[test]
fn set_fee_bps_reverts_without_admin_auth() {
    let mut c = setup(250);
    let err = c.set_fee_bps(&inv(500, &[]), 300);
    assert!(err.is_err(), "set_fee_bps must require admin auth");
}

#[test]
fn set_fee_account_reverts_without_admin_auth() {
    let mut c = setup(250);
    let err = c.set_fee_account(&inv(500, &[]), 41);
    assert!(err.is_err(), "set_fee_account must require admin auth");
}

#[test]
fn set_profile_contract_reverts_without_admin_auth() {
    let mut c = setup(250);
    let err = c.set_profile_contract(&inv(500, &[]), 42);
    assert!(err.is_err(), "set_profile_contract must require admin auth");
}

#[test]
fn propose_upgrade_reverts_without_admin_auth() {
    let mut c = setup(250);
    let err = c.propose_upgrade(&inv(500, &[]), hash(7), b"0.3.0".to_vec());
    assert!(err.is_err(), "propose_upgrade must require admin auth");
}

#[test]
fn apply_upgrade_reverts_without_admin_auth() {
    let mut c = setup(250);
    c.propose_upgrade(&admin_inv(500), hash(7), b"0.3.0".to_vec()).unwrap();
    let err = c.apply_upgrade(&inv(500 + UPGRADE_TIMELOCK_LEDGERS, &[]));
    assert!(err.is_err(), "apply_upgrade must require admin auth");
}

#[test]
fn cancel_pending_upgrade_reverts_without_admin_auth() {
    let mut c = setup(250);
    c.propose_upgrade(&admin_inv(500), hash(7), b"0.3.0".to_vec()).unwrap();
    let err = c.cancel_pending_upgrade(&inv(500, &[]));
    assert!(err.is_err(), "cancel_pending_upgrade must require admin auth");
}

#[test]
fn migrate_reverts_without_admin_auth() {
    let mut c = setup(250);
    let err = c.migrate(&inv(500, &[]));
    assert!(err.is_err(), "migrate must require admin auth");
}

#[test]
fn accept_admin_reverts_without_targets_auth() {
    let mut c = setup(250);
    let new_admin: Account = 40;
    c.set_admin(&admin_inv(500), new_admin).unwrap();
    let err = c.accept_admin(&inv(500, &[]));
    assert!(err.is_err(), "accept_admin must require the pending target's auth");
}

#[test]
fn accept_admin_demands_pending_targets_auth_specifically() {
    let mut c = setup(250);
    let new_admin: Account = 40;
    c.set_admin(&admin_inv(500), new_admin).unwrap();
    // The current admin's signature is not enough.
    assert_eq!(c.accept_admin(&admin_inv(500)).err(), Some(Error::Unauthorized));
    c.accept_admin(&inv(500, &[new_admin])).unwrap();
    assert_eq!(c.get_admin(), new_admin);
}

#[test]
fn accept_admin_after_expiry_is_refused() {
    let mut c = setup(250);
    c.set_admin(&admin_inv(500), 40).unwrap();
    let err = c.accept_admin(&inv(500 + 120_960 + 1, &[40])).err();
    assert_eq!(err, Some(Error::PendingAdminExpired));
}

#[test]
fn initialize_twice_is_refused() {
    let mut c = setup(250);
    let err = c.initialize(&inv(100, &[]), ADMIN, FEE_ACCOUNT, 250, PROFILE).err();
    assert_eq!(err, Some(Error::AlreadyInitialized));
}

#[test]
fn initialize_rejects_fee_above_cap() {
    let mut c = EventsContract::new();
    let err = c.initialize(&inv(100, &[]), ADMIN, FEE_ACCOUNT, 1_001, PROFILE).err();
    assert_eq!(err, Some(Error::InvalidFeeBps));
    assert!(c.initialize(&inv(100, &[]), ADMIN, FEE_ACCOUNT, 1_000, PROFILE).is_ok());
}

fn percent_event(c: &mut EventsContract, budget: i128, dist: Vec<(u32, u32)>, title: &str) -> u64 {
    event_of(c, Pillar::Bounty, ReleaseKind::Single, budget, dist, title)
}

fn event_of(c: &mut EventsContract, pillar: Pillar, kind: ReleaseKind, budget: i128, dist: Vec<(u32, u32)>, title: &str) -> u64 {
    const TOKEN: Account = 5;
    const OWNER: Account = 6;
    c.register_supported_token(&admin_inv(200), TOKEN).unwrap();
    let params = CreateEventParams {
        pillar,
        owner: OWNER,
        token: TOKEN,
        total_budget: budget,
        release_kind: kind,
        content_uri: b"https://api.boundless.fi/legacy".to_vec(),
        title: title.as_bytes().to_vec(),
        deadline: Some(1_000 + 86_400),
        winner_distribution: PercentMap { entries: dist },
        fee_bps_override: None,
        manager: None,
    };
    let (id, _) = c.create_event(&inv(200, &[OWNER]), params, hash(900)).unwrap();
    id
}

#[test]
fn migrate_rewrites_legacy_percentages_as_prize_floors() {
    let mut c = setup(250);
    let budget = 1_000_0000000_i128;
    let event_id = percent_event(&mut c, budget, vec![(1, 60), (2, 40)], "Muwa Creator Bounty");
    assert_eq!(event_id, c.id_base() + 1);
    // Stand in for a settled 60/40 event.
    let i = c.find_event(event_id).unwrap();
    c.events[i].record.remaining_escrow = 0;
    c.events[i].record.status = EventStatus::Completed;

    c.migrate(&admin_inv(500)).unwrap();

    let migrated = c.get_event(event_id).unwrap();
    let floor = |p: u32| migrated.prize_floors.iter().find(|(k, _)| *k == p).map(|(_, v)| *v);
    assert_eq!(floor(1), Some(budget * 60 / 100));
    assert_eq!(floor(2), Some(budget * 40 / 100));
    assert_eq!(migrated.total_budget, budget);
    assert_eq!(migrated.status, EventStatus::Completed);
    assert_eq!(migrated.title, b"Muwa Creator Bounty".to_vec());
}

#[test]
fn migrate_refuses_to_stamp_when_the_id_range_exceeds_the_cap() {
    let mut c = setup(250);
    let base = c.id_base();
    c.next_event_id = Some(base + 1_000);
    assert!(c.migrate(&admin_inv(500)).is_err(), "a range beyond the cap must abort rather than half-migrate");
    assert_eq!(c.get_migrated_to_version(), None, "nothing may be stamped when work would be left undone");
}

#[test]
fn migrate_refusal_past_the_cap_is_range_too_large() {
    let mut c = setup(250);
    let base = c.id_base();
    c.next_event_id = Some(base + 1 + 257);
    assert_eq!(c.migrate(&admin_inv(500)).err(), Some(Error::MigrationRangeTooLarge));
    c.next_event_id = Some(base + 1 + 256);
    assert!(c.migrate(&admin_inv(501)).is_ok(), "a full pass of 256 ids is still covered");
}

#[test]
fn migrate_rewrites_zero_amount_grant_winners() {
    let mut c = setup(250);
    let recipient: Account = 40;
    let budget = 1_000_0000000_i128;
    let event_id = event_of(&mut c, Pillar::Grant, ReleaseKind::Multi(2), budget, vec![(1, 100)], "Legacy Grant");
    let specs = vec![WinnerSpec { recipient, position: 1, reputation_bump: 0 }];
    c.select_winners(&inv(300, &[6]), event_id, specs, hash(901)).unwrap();
    assert_eq!(c.get_winners(event_id).unwrap()[0].amount, 0);

    c.migrate(&admin_inv(500)).unwrap();

    let rows = c.get_winners(event_id).unwrap();
    assert_eq!(rows[0].amount, budget, "the anchor must carry what the old percentage would have paid");
}

#[test]
fn migrate_leaves_records_of_a_later_version_alone() {
    let mut c = setup(250);
    let event_id = percent_event(&mut c, 1_000_0000000, vec![(1, 100)], "Later");
    c.version = Some(b"1.8.0".to_vec());
    c.migrate(&admin_inv(500)).unwrap();
    assert!(c.get_event(event_id).unwrap().prize_floors.is_empty());
    assert_eq!(c.get_migrated_to_version(), Some(b"1.8.0".to_vec()));
}

#[test]
fn top_up_collects_amount_plus_fee_and_pays_the_fee_account() {
    let mut c = setup(250);
    let id = percent_event(&mut c, 10_000_000_000, vec![(1, 100)], "Top-up");
    let partner: Account = 7;
    let fx = c.add_funds(&inv(300, &[partner]), id, partner, 5_000_000_000, hash(902)).unwrap();
    assert_eq!(fx.len(), 3);
    assert!(matches!(fx[0], Effect::Collect { token: 5, from: 7, amount: 5_125_000_000 }));
    assert!(matches!(fx[1], Effect::Pay { token: 5, to: FEE_ACCOUNT, amount: 125_000_000 }));
    assert_eq!(c.get_event(id).unwrap().remaining_escrow, 15_000_000_000);
    assert_eq!(c.get_contributors(id).unwrap(), vec![partner]);
    assert_eq!(c.get_contributor_amount(id, partner).unwrap(), 5_000_000_000);
}
