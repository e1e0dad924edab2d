#![allow(dead_code)]
use std::collections::HashMap;

use boundless::contract::EventsContract;
use boundless::effects::Effect;
use boundless::errors::Error;
use boundless::types::{Account, CreateEventParams, Hash32, Invocation, PercentMap, Pillar, ReleaseKind, WinnerSpec};

const ADMIN: Account = 1;
const FEE_ACCOUNT: Account = 2;
const PROFILE: Account = 3;
const ESCROW: Account = 4;
const TOKEN: Account = 5;
const OWNER: Account = 6;

/// Runs the contract the way the chain would: every effect of a successful
/// call is carried out against simulated token balances and profiles.
struct Host {
    c: EventsContract,
    bal: HashMap<(Account, Account), i128>,
    reputation: HashMap<Account, u32>,
    earnings: HashMap<(Account, Account), i128>,
    bootstrapped: Vec<Account>,
    now: u64,
    seq: u32,
    ops: u128,
}

impl Host {
    fn with_bps(fee_bps: u32) -> Host {
        let mut c = EventsContract::new();
        c.initialize(&Invocation { timestamp: 1_000, sequence: 100, signers: vec![] }, ADMIN, FEE_ACCOUNT, fee_bps, PROFILE).unwrap();
        let mut h = Host {
            c,
            bal: HashMap::new(),
            reputation: HashMap::new(),
            earnings: HashMap::new(),
            bootstrapped: Vec::new(),
            now: 1_000,
            seq: 100,
            ops: 0,
        };
        let fx = h.c.register_supported_token(&h.all(), TOKEN).unwrap();
        h.run(fx);
        h.mint(OWNER, 50_000_0000000);
        h
    }
    /// An invocation that every test address has signed.
    fn all(&self) -> Invocation {
        Invocation { timestamp: self.now, sequence: self.seq, signers: (1..=500).collect() }
    }
    fn only(&self, who: &[Account]) -> Invocation {
        Invocation { timestamp: self.now, sequence: self.seq, signers: who.to_vec() }
    }
    fn op(&mut self) -> Hash32 {
        self.ops += 1;
        Hash32 { hi: self.ops, lo: 7 }
    }
    fn balance(&self, who: Account) -> i128 {
        *self.bal.get(&(TOKEN, who)).unwrap_or(&0)
    }
    fn mint(&mut self, who: Account, amount: i128) {
        *self.bal.entry((TOKEN, who)).or_insert(0) += amount;
    }
    fn transfer(&mut self, token: Account, from: Account, to: Account, amount: i128) {
        let have = *self.bal.get(&(token, from)).unwrap_or(&0);
        assert!(amount >= 0 && have >= amount, "transfer of {} from {} exceeds balance {}", amount, from, have);
        *self.bal.entry((token, from)).or_insert(0) -= amount;
        *self.bal.entry((token, to)).or_insert(0) += amount;
    }
    fn run(&mut self, fx: Vec<Effect>) {
        for e in fx {
            match e {
                Effect::Collect { token, from, amount } => self.transfer(token, from, ESCROW, amount),
                Effect::Pay { token, to, amount } => self.transfer(token, ESCROW, to, amount),
                Effect::Bootstrap { user, .. } => self.bootstrapped.push(user),
                Effect::BumpReputation { user, delta, .. } => *self.reputation.entry(user).or_insert(0) += delta,
                Effect::RegisterEarnings { user, token, amount, .. } => *self.earnings.entry((user, token)).or_insert(0) += amount,
                Effect::UpdateWasm { .. } | Effect::Publish(_) => {},
            }
        }
    }
    fn params(&self, pillar: Pillar, kind: ReleaseKind, budget: i128, dist: Vec<(u32, u32)>) -> CreateEventParams {
        CreateEventParams {
            pillar,
            owner: OWNER,
            token: TOKEN,
            total_budget: budget,
            release_kind: kind,
            content_uri: b"https://api.boundless.fi/test".to_vec(),
            title: b"Test".to_vec(),
            deadline: Some(self.now + 86_400),
            winner_distribution: PercentMap { entries: dist },
            fee_bps_override: None,
            manager: None,
        }
    }
    fn create(&mut self, p: CreateEventParams) -> Result<u64, Error> {
        let op = self.op();
        let (id, fx) = self.c.create_event(&self.all(), p, op)?;
        self.run(fx);
        Ok(id)
    }
    fn add_funds(&mut self, id: u64, from: Account, amount: i128) -> Result<(), Error> {
        let op = self.op();
        let fx = self.c.add_funds(&self.all(), id, from, amount, op)?;
        self.run(fx);
        Ok(())
    }
    fn select(&mut self, id: u64, winners: Vec<(Account, u32)>) -> Result<(), Error> {
        let op = self.op();
        let specs = winners.into_iter().map(|(recipient, position)| WinnerSpec { recipient, position, reputation_bump: 50 }).collect();
        let fx = self.c.select_winners(&self.all(), id, specs, op)?;
        self.run(fx);
        Ok(())
    }
    fn claim_prize(&mut self, id: u64, position: u32) -> Result<(), Error> {
        let op = self.op();
        let fx = self.c.claim_prize(&self.all(), id, position, op)?;
        self.run(fx);
        Ok(())
    }
    fn claim_milestone(&mut self, id: u64, recipient: Account, milestone: u32) -> Result<(), Error> {
        let op = self.op();
        let fx = self.c.claim_milestone(&self.all(), id, recipient, milestone, op)?;
        self.run(fx);
        Ok(())
    }
    /// Drives a paged cancel to its end, as the original harness does.
    fn drive_cancel(&mut self, id: u64) {
        let op = self.op();
        let fx = self.c.start_cancel(&self.all(), id, op).unwrap();
        self.run(fx);
        if self.c.get_event(id).unwrap().status == boundless::types::EventStatus::Cancelled {
            return;
        }
        loop {
            let op = self.op();
            let (left, fx) = self.c.process_cancel_batch(id, 25, op).unwrap();
            self.run(fx);
            if left == 0 {
                break;
            }
        }
        let op = self.op();
        let fx = self.c.finalize_cancel(id, op).unwrap();
        self.run(fx);
    }
}

use boundless::types::EventStatus;

const FEE_BPS: u32 = 250;
const FUNDING_GOAL: i128 = 1_000_0000000;
const BUILDER: Account = OWNER;
const ANYONE: &[Account] = &[];

fn setup() -> Host {
    let mut h = Host::with_bps(FEE_BPS);
    // The builder starts with nothing in these scenarios.
    h.bal.remove(&(TOKEN, BUILDER));
    h
}

fn campaign_params(h: &Host, milestones: u32) -> CreateEventParams {
    let mut p = h.params(Pillar::Crowdfunding, ReleaseKind::Multi(milestones), FUNDING_GOAL, vec![(1, 100)]);
    p.deadline = Some(h.now + 30 * 86_400);
    p
}

fn create_campaign(h: &mut Host, milestones: u32) -> u64 {
    let p = campaign_params(h, milestones);
    h.create(p).unwrap()
}

fn back(h: &mut Host, id: u64, who: Account, amount: i128) {
    let fee = amount * FEE_BPS as i128 / 10_000;
    h.mint(who, amount + fee);
    h.add_funds(id, who, amount).unwrap();
}

#[test]
fn create_with_zero_owner_deposit_and_auto_registered_winner() {
    let mut h = setup();
    let before = h.balance(BUILDER);
    let id = create_campaign(&mut h, 3);
    assert_eq!(h.balance(BUILDER), before);
    let event = h.c.get_event(id).unwrap();
    assert_eq!(event.pillar, Pillar::Crowdfunding);
    assert_eq!(event.total_budget, FUNDING_GOAL);
    assert_eq!(event.remaining_escrow, 0, "crowdfunding starts with empty escrow");
    let winners = h.c.get_winners(id).unwrap();
    assert_eq!(winners.len(), 1);
    let w = winners[0];
    assert_eq!(w.recipient, BUILDER);
    assert_eq!(w.position, 1);
    assert!(w.milestone.is_none());
    assert!(w.paid_at.is_none());
}

#[test]
fn create_rejects_single_release_kind() {
    let mut h = setup();
    let mut p = campaign_params(&h, 3);
    p.release_kind = ReleaseKind::Single;
    let res = h.create(p);
    assert!(res.is_err(), "single release must be rejected");
    assert_eq!(res, Err(Error::InvalidReleaseKind));
}

#[test]
fn crowdfunding_create_rejects_missing_deadline() {
    let mut h = setup();
    let mut p = campaign_params(&h, 3);
    p.deadline = None;
    let res = h.create(p);
    assert!(res.is_err());
    assert_eq!(res, Err(Error::DeadlineRequired));
}

#[test]
fn create_rejects_distribution_with_multiple_positions() {
    let mut h = setup();
    let mut p = campaign_params(&h, 3);
    p.winner_distribution = PercentMap { entries: vec![(1, 60), (2, 40)] };
    let res = h.create(p);
    assert!(res.is_err());
    assert_eq!(res, Err(Error::InvalidDistribution));
}

#[test]
fn community_top_ups_raise_escrow_from_zero() {
    let mut h = setup();
    let id = create_campaign(&mut h, 3);
    back(&mut h, id, 41, 200_0000000);
    back(&mut h, id, 42, 300_0000000);
    assert_eq!(h.c.get_event(id).unwrap().remaining_escrow, 500_0000000);
    assert_eq!(h.c.get_contributors(id).unwrap().len(), 2);
}

#[test]
fn builder_top_up_does_not_appear_in_contributor_list() {
    let mut h = setup();
    let id = create_campaign(&mut h, 3);
    let extra = 100_0000000_i128;
    let fee = extra * FEE_BPS as i128 / 10_000;
    h.mint(BUILDER, extra + fee);
    h.add_funds(id, BUILDER, extra).unwrap();
    assert_eq!(h.c.get_contributors(id).unwrap().len(), 0);
    assert_eq!(h.c.get_event(id).unwrap().remaining_escrow, extra);
}

#[test]
fn claim_milestone_splits_evenly_and_charges_fee_at_release() {
    let mut h = setup();
    let id = create_campaign(&mut h, 3);
    back(&mut h, id, 43, 900_0000000);
    let fee_before = h.balance(FEE_ACCOUNT);
    h.claim_milestone(id, BUILDER, 0).unwrap();
    assert_eq!(h.balance(BUILDER), 292_5000000);
    assert_eq!(h.balance(FEE_ACCOUNT) - fee_before, 7_5000000);
    assert_eq!(h.c.get_event(id).unwrap().remaining_escrow, 600_0000000);
    h.claim_milestone(id, BUILDER, 1).unwrap();
    assert_eq!(h.balance(BUILDER), 585_0000000);
    assert_eq!(h.balance(FEE_ACCOUNT) - fee_before, 15_0000000);
    assert_eq!(h.c.get_event(id).unwrap().remaining_escrow, 300_0000000);
    h.claim_milestone(id, BUILDER, 2).unwrap();
    assert_eq!(h.balance(BUILDER), 877_5000000);
    assert_eq!(h.balance(FEE_ACCOUNT) - fee_before, 22_5000000);
    let event = h.c.get_event(id).unwrap();
    assert_eq!(event.remaining_escrow, 0);
    assert_eq!(event.status, EventStatus::Completed);
}

#[test]
fn claim_milestone_last_drains_dust_with_fee() {
    let mut h = setup();
    let id = create_campaign(&mut h, 3);
    back(&mut h, id, 43, 100_000_001);
    let builder_before = h.balance(BUILDER);
    let fee_before = h.balance(FEE_ACCOUNT);
    for m in 0u32..3 {
        h.claim_milestone(id, BUILDER, m).unwrap();
    }
    let builder_delta = h.balance(BUILDER) - builder_before;
    let fee_delta = h.balance(FEE_ACCOUNT) - fee_before;
    assert!(fee_delta > 0, "platform collects a fee at release");
    assert_eq!(builder_delta + fee_delta, 100_000_001, "builder net + fee drains all raised funds, no dust stranded");
    let event = h.c.get_event(id).unwrap();
    assert_eq!(event.remaining_escrow, 0);
    assert_eq!(event.status, EventStatus::Completed);
}

#[test]
fn claim_milestone_replay_reverts() {
    let mut h = setup();
    let id = create_campaign(&mut h, 3);
    back(&mut h, id, 43, 600_0000000);
    let op = h.op();
    let fx = h.c.claim_milestone(&h.all(), id, BUILDER, 0, op).unwrap();
    h.run(fx);
    let res = h.c.claim_milestone(&h.all(), id, BUILDER, 0, op);
    assert!(res.is_err());
    assert_eq!(res.err(), Some(Error::OpAlreadySeen));
}

#[test]
fn crowdfunding_claim_milestone_out_of_range_reverts() {
    let mut h = setup();
    let id = create_campaign(&mut h, 2);
    back(&mut h, id, 43, 400_0000000);
    let res = h.claim_milestone(id, BUILDER, 2);
    assert!(res.is_err());
    assert_eq!(res, Err(Error::InvalidMilestone));
}

#[test]
fn claim_milestone_with_empty_escrow_reverts() {
    let mut h = setup();
    let id = create_campaign(&mut h, 3);
    let res = h.claim_milestone(id, BUILDER, 0);
    assert!(res.is_err());
}

#[test]
fn backer_pays_exactly_pledge_and_creator_bears_fee() {
    let mut h = setup();
    let id = create_campaign(&mut h, 1);
    let backer: Account = 44;
    let pledge = 100_0000000_i128;
    h.mint(backer, pledge);
    let fee_before = h.balance(FEE_ACCOUNT);
    h.add_funds(id, backer, pledge).unwrap();
    assert_eq!(h.balance(backer), 0, "backer pays exactly the pledge");
    assert_eq!(h.balance(FEE_ACCOUNT), fee_before, "no fee charged at deposit");
    assert_eq!(h.c.get_event(id).unwrap().remaining_escrow, pledge);
    h.claim_milestone(id, BUILDER, 0).unwrap();
    let fee = pledge * FEE_BPS as i128 / 10_000;
    assert_eq!(h.balance(BUILDER), pledge - fee, "builder nets pledge minus the fee");
    assert_eq!(h.balance(FEE_ACCOUNT) - fee_before, fee, "platform collects the fee at release");
    assert_eq!(h.c.get_event(id).unwrap().remaining_escrow, 0);
}

#[test]
fn select_winners_on_crowdfunding_reverts() {
    let mut h = setup();
    let id = create_campaign(&mut h, 3);
    let res = h.select(id, vec![(BUILDER, 1)]);
    assert!(res.is_err());
    assert_eq!(res, Err(Error::InvalidPillar));
}

#[test]
fn submit_on_crowdfunding_reverts() {
    let mut h = setup();
    let id = create_campaign(&mut h, 3);
    let op = h.op();
    let res = h.c.submit(&h.all(), id, BUILDER, b"ipfs://nope".to_vec(), op);
    assert!(res.is_err());
}

#[test]
fn cancel_refunds_all_partners_no_owner_residual() {
    let mut h = setup();
    let id = create_campaign(&mut h, 3);
    back(&mut h, id, 41, 200_0000000);
    back(&mut h, id, 42, 300_0000000);
    let (p1, p2, b) = (h.balance(41), h.balance(42), h.balance(BUILDER));
    h.drive_cancel(id);
    assert_eq!(h.balance(41) - p1, 200_0000000);
    assert_eq!(h.balance(42) - p2, 300_0000000);
    assert_eq!(h.balance(BUILDER) - b, 0, "builder put in nothing; gets nothing");
    let event = h.c.get_event(id).unwrap();
    assert_eq!(event.status, EventStatus::Cancelled);
    assert_eq!(event.remaining_escrow, 0);
}

#[test]
fn cancel_with_no_contributions_just_marks_cancelled() {
    let mut h = setup();
    let id = create_campaign(&mut h, 3);
    h.drive_cancel(id);
    let event = h.c.get_event(id).unwrap();
    assert_eq!(event.status, EventStatus::Cancelled);
    assert_eq!(event.remaining_escrow, 0);
}

#[test]
fn cancel_after_partial_claim_pro_rates_remaining() {
    let mut h = setup();
    let id = create_campaign(&mut h, 3);
    back(&mut h, id, 41, 300_0000000);
    back(&mut h, id, 42, 600_0000000);
    h.claim_milestone(id, BUILDER, 0).unwrap();
    let (p1, p2) = (h.balance(41), h.balance(42));
    h.drive_cancel(id);
    assert_eq!(h.balance(41) - p1, 200_0000000);
    assert_eq!(h.balance(42) - p2, 400_0000000);
    let event = h.c.get_event(id).unwrap();
    assert_eq!(event.status, EventStatus::Cancelled);
    assert_eq!(event.remaining_escrow, 0);
}

#[test]
fn crowdfunding_claim_milestone_requires_admin_auth() {
    let mut h = setup();
    let id = create_campaign(&mut h, 2);
    back(&mut h, id, 41, 200_0000000);
    let op = h.op();
    // The builder alone is not enough, nor the admin alone.
    assert_eq!(h.c.claim_milestone(&h.only(&[BUILDER]), id, BUILDER, 0, op).err(), Some(Error::Unauthorized));
    assert_eq!(h.c.claim_milestone(&h.only(&[ADMIN]), id, BUILDER, 0, op).err(), Some(Error::Unauthorized));
    assert_eq!(h.c.claim_milestone(&h.only(ANYONE), id, BUILDER, 0, op).err(), Some(Error::Unauthorized));
    let fx = h.c.claim_milestone(&h.only(&[BUILDER, ADMIN]), id, BUILDER, 0, op).unwrap();
    h.run(fx);
}
