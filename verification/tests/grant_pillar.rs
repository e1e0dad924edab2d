#![allow(dead_code)]
use std::collections::HashMap;

use boundless::contract::EventsContract;
use boundless::effects::Effect;
use boundless::errors::Error;
use boundless::types::{Account, CreateEventParams, Hash32, Invocation, PercentMap, Pillar, ReleaseKind, WinnerSpec};

const ADMIN: Account = 1;
const FEE_ACCOUNT: Account = 2;
const PROFILE: Account = 3;
const ESCROW: Account = 4;
const TOKEN: Account = 5;
const OWNER: Account = 6;

/// Runs the contract the way the chain would: every effect of a successful
/// call is carried out against simulated token balances and profiles.
struct Host {
    c: EventsContract,
    bal: HashMap<(Account, Account), i128>,
    reputation: HashMap<Account, u32>,
    earnings: HashMap<(Account, Account), i128>,
    bootstrapped: Vec<Account>,
    now: u64,
    seq: u32,
    ops: u128,
}

impl Host {
    fn with_bps(fee_bps: u32) -> Host {
        let mut c = EventsContract::new();
        c.initialize(&Invocation { timestamp: 1_000, sequence: 100, signers: vec![] }, ADMIN, FEE_ACCOUNT, fee_bps, PROFILE).unwrap();
        let mut h = Host {
            c,
            bal: HashMap::new(),
            reputation: HashMap::new(),
            earnings: HashMap::new(),
            bootstrapped: Vec::new(),
            now: 1_000,
            seq: 100,
            ops: 0,
        };
        let fx = h.c.register_supported_token(&h.all(), TOKEN).unwrap();
        h.run(fx);
        h.mint(OWNER, 50_000_0000000);
        h
    }
    /// An invocation that every test address has signed.
    fn all(&self) -> Invocation {
        Invocation { timestamp: self.now, sequence: self.seq, signers: (1..=500).collect() }
    }
    fn only(&self, who: &[Account]) -> Invocation {
        Invocation { timestamp: self.now, sequence: self.seq, signers: who.to_vec() }
    }
    fn op(&mut self) -> Hash32 {
        self.ops += 1;
        Hash32 { hi: self.ops, lo: 7 }
    }
    fn balance(&self, who: Account) -> i128 {
        *self.bal.get(&(TOKEN, who)).unwrap_or(&0)
    }
    fn mint(&mut self, who: Account, amount: i128) {
        *self.bal.entry((TOKEN, who)).or_insert(0) += amount;
    }
    fn transfer(&mut self, token: Account, from: Account, to: Account, amount: i128) {
        let have = *self.bal.get(&(token, from)).unwrap_or(&0);
        assert!(amount >= 0 && have >= amount, "transfer of {} from {} exceeds balance {}", amount, from, have);
        *self.bal.entry((token, from)).or_insert(0) -= amount;
        *self.bal.entry((token, to)).or_insert(0) += amount;
    }
    fn run(&mut self, fx: Vec<Effect>) {
        for e in fx {
            match e {
                Effect::Collect { token, from, amount } => self.transfer(token, from, ESCROW, amount),
                Effect::Pay { token, to, amount } => self.transfer(token, ESCROW, to, amount),
                Effect::Bootstrap { user, .. } => self.bootstrapped.push(user),
                Effect::BumpReputation { user, delta, .. } => *self.reputation.entry(user).or_insert(0) += delta,
                Effect::RegisterEarnings { user, token, amount, .. } => *self.earnings.entry((user, token)).or_insert(0) += amount,
                Effect::UpdateWasm { .. } | Effect::Publish(_) => {},
            }
        }
    }
    fn params(&self, pillar: Pillar, kind: ReleaseKind, budget: i128, dist: Vec<(u32, u32)>) -> CreateEventParams {
        CreateEventParams {
            pillar,
            owner: OWNER,
            token: TOKEN,
            total_budget: budget,
            release_kind: kind,
            content_uri: b"https://api.boundless.fi/test".to_vec(),
            title: b"Test".to_vec(),
            deadline: Some(self.now + 86_400),
            winner_distribution: PercentMap { entries: dist },
            fee_bps_override: None,
            manager: None,
        }
    }
    fn create(&mut self, p: CreateEventParams) -> Result<u64, Error> {
        let op = self.op();
        let (id, fx) = self.c.create_event(&self.all(), p, op)?;
        self.run(fx);
        Ok(id)
    }
    fn add_funds(&mut self, id: u64, from: Account, amount: i128) -> Result<(), Error> {
        let op = self.op();
        let fx = self.c.add_funds(&self.all(), id, from, amount, op)?;
        self.run(fx);
        Ok(())
    }
    fn select(&mut self, id: u64, winners: Vec<(Account, u32)>) -> Result<(), Error> {
        let op = self.op();
        let specs = winners.into_iter().map(|(recipient, position)| WinnerSpec { recipient, position, reputation_bump: 50 }).collect();
        let fx = self.c.select_winners(&self.all(), id, specs, op)?;
        self.run(fx);
        Ok(())
    }
    fn claim_prize(&mut self, id: u64, position: u32) -> Result<(), Error> {
        let op = self.op();
        let fx = self.c.claim_prize(&self.all(), id, position, op)?;
        self.run(fx);
        Ok(())
    }
    fn claim_milestone(&mut self, id: u64, recipient: Account, milestone: u32) -> Result<(), Error> {
        let op = self.op();
        let fx = self.c.claim_milestone(&self.all(), id, recipient, milestone, op)?;
        self.run(fx);
        Ok(())
    }
    /// Drives a paged cancel to its end, as the original harness does.
    fn drive_cancel(&mut self, id: u64) {
        let op = self.op();
        let fx = self.c.start_cancel(&self.all(), id, op).unwrap();
        self.run(fx);
        if self.c.get_event(id).unwrap().status == boundless::types::EventStatus::Cancelled {
            return;
        }
        loop {
            let op = self.op();
            let (left, fx) = self.c.process_cancel_batch(id, 25, op).unwrap();
            self.run(fx);
            if left == 0 {
                break;
            }
        }
        let op = self.op();
        let fx = self.c.finalize_cancel(id, op).unwrap();
        self.run(fx);
    }
}

use boundless::types::EventStatus;

const TOTAL_BUDGET: i128 = 10_000_0000000;

fn setup() -> Host {
    Host::with_bps(250)
}

fn create_grant(h: &mut Host, milestones: u32) -> u64 {
    let p = h.params(Pillar::Grant, ReleaseKind::Multi(milestones), TOTAL_BUDGET, vec![(1, 100)]);
    h.create(p).unwrap()
}

fn select_winner(h: &mut Host, id: u64, recipient: Account, bump: u32) {
    let op = h.op();
    let specs = vec![WinnerSpec { recipient, position: 1, reputation_bump: bump }];
    let fx = h.c.select_winners(&h.all(), id, specs, op).unwrap();
    h.run(fx);
}

#[test]
fn grant_create_with_multi_release_succeeds() {
    let mut h = setup();
    let id = create_grant(&mut h, 3);
    let event = h.c.get_event(id).unwrap();
    assert_eq!(event.pillar, Pillar::Grant);
    assert_eq!(event.release_kind, ReleaseKind::Multi(3));
    assert_eq!(event.remaining_escrow, TOTAL_BUDGET);
}

#[test]
fn grant_create_with_single_release_reverts() {
    let mut h = setup();
    let p = h.params(Pillar::Grant, ReleaseKind::Single, TOTAL_BUDGET, vec![(1, 100)]);
    assert_eq!(h.create(p), Err(Error::InvalidReleaseKind));
}

#[test]
fn grant_create_with_zero_milestones_reverts() {
    let mut h = setup();
    let p = h.params(Pillar::Grant, ReleaseKind::Multi(0), TOTAL_BUDGET, vec![(1, 100)]);
    assert_eq!(h.create(p), Err(Error::InvalidReleaseKind));
}

#[test]
fn claim_milestone_pays_fixed_per_milestone_amount() {
    let mut h = setup();
    let recipient: Account = 60;
    let id = create_grant(&mut h, 4);
    select_winner(&mut h, id, recipient, 5);
    let (before, fee_before) = (h.balance(recipient), h.balance(FEE_ACCOUNT));
    h.claim_milestone(id, recipient, 0).unwrap();
    let per_milestone = TOTAL_BUDGET / 4;
    assert_eq!(h.balance(recipient) - before, per_milestone);
    assert_eq!(h.balance(FEE_ACCOUNT) - fee_before, 0);
    let event = h.c.get_event(id).unwrap();
    assert_eq!(event.remaining_escrow, TOTAL_BUDGET - per_milestone);
    assert_eq!(event.status, EventStatus::Active);
}

#[test]
fn claim_milestone_last_sweeps_rounding_residue() {
    let mut h = setup();
    let recipient: Account = 60;
    let id = create_grant(&mut h, 3);
    select_winner(&mut h, id, recipient, 0);
    let (before, fee_before) = (h.balance(recipient), h.balance(FEE_ACCOUNT));
    let floored = TOTAL_BUDGET / 3;
    h.claim_milestone(id, recipient, 0).unwrap();
    h.claim_milestone(id, recipient, 1).unwrap();
    assert_eq!(h.balance(recipient) - before, floored * 2);
    h.claim_milestone(id, recipient, 2).unwrap();
    assert_eq!(h.balance(recipient) - before, TOTAL_BUDGET);
    assert_eq!(h.balance(FEE_ACCOUNT) - fee_before, 0);
    let event = h.c.get_event(id).unwrap();
    assert_eq!(event.remaining_escrow, 0);
    assert_eq!(event.status, EventStatus::Completed);
}

#[test]
fn claim_milestone_marks_completed_on_last() {
    let mut h = setup();
    let id = create_grant(&mut h, 2);
    select_winner(&mut h, id, 60, 0);
    h.claim_milestone(id, 60, 0).unwrap();
    assert_eq!(h.c.get_event(id).unwrap().status, EventStatus::Active);
    h.claim_milestone(id, 60, 1).unwrap();
    assert_eq!(h.c.get_event(id).unwrap().status, EventStatus::Completed);
}

// Reputation comes from the bump recorded at selection; earnings are
// registered per milestone.
#[test]
fn claim_milestone_earns_credits_and_bumps_reputation() {
    let mut h = setup();
    let recipient: Account = 60;
    let id = create_grant(&mut h, 4);
    select_winner(&mut h, id, recipient, 10);
    h.claim_milestone(id, recipient, 0).unwrap();
    assert_eq!(h.reputation.get(&recipient), Some(&10));
    assert_eq!(h.earnings.get(&(recipient, TOKEN)), Some(&(TOTAL_BUDGET / 4)));
}

#[test]
fn claim_milestone_already_claimed_reverts() {
    let mut h = setup();
    let id = create_grant(&mut h, 4);
    select_winner(&mut h, id, 60, 0);
    h.claim_milestone(id, 60, 0).unwrap();
    assert_eq!(h.claim_milestone(id, 60, 0), Err(Error::MilestoneAlreadyClaimed));
}

#[test]
fn grant_pillar_claim_milestone_out_of_range_reverts() {
    let mut h = setup();
    let id = create_grant(&mut h, 3);
    select_winner(&mut h, id, 60, 0);
    assert_eq!(h.claim_milestone(id, 60, 3), Err(Error::InvalidMilestone));
}

#[test]
fn claim_milestone_without_being_winner_reverts() {
    let mut h = setup();
    let id = create_grant(&mut h, 3);
    assert!(h.claim_milestone(id, 61, 0).is_err());
}

#[test]
fn claim_milestone_on_single_release_reverts() {
    let mut h = setup();
    let p = h.params(Pillar::Hackathon, ReleaseKind::Single, TOTAL_BUDGET, vec![(1, 100)]);
    let id = h.create(p).unwrap();
    assert_eq!(h.claim_milestone(id, 61, 0), Err(Error::InvalidReleaseKind));
}

#[test]
fn claim_milestone_op_replay_reverts() {
    let mut h = setup();
    let id = create_grant(&mut h, 4);
    select_winner(&mut h, id, 60, 0);
    let op = h.op();
    let fx = h.c.claim_milestone(&h.all(), id, 60, 0, op).unwrap();
    h.run(fx);
    assert!(h.c.claim_milestone(&h.all(), id, 60, 1, op).is_err());
}

#[test]
fn two_winner_grant_each_claims_their_share() {
    let mut h = setup();
    let p = h.params(Pillar::Grant, ReleaseKind::Multi(2), TOTAL_BUDGET, vec![(1, 60), (2, 40)]);
    let id = h.create(p).unwrap();
    let (w1, w2): (Account, Account) = (60, 61);
    h.select(id, vec![(w1, 1), (w2, 2)]).unwrap();
    let (b1, b2, f) = (h.balance(w1), h.balance(w2), h.balance(FEE_ACCOUNT));
    h.claim_milestone(id, w1, 0).unwrap();
    h.claim_milestone(id, w1, 1).unwrap();
    h.claim_milestone(id, w2, 0).unwrap();
    h.claim_milestone(id, w2, 1).unwrap();
    assert_eq!(h.balance(w1) - b1, TOTAL_BUDGET * 60 / 100);
    assert_eq!(h.balance(w2) - b2, TOTAL_BUDGET * 40 / 100);
    assert_eq!(h.balance(FEE_ACCOUNT) - f, 0);
    let event = h.c.get_event(id).unwrap();
    assert_eq!(event.remaining_escrow, 0);
    assert_eq!(event.status, EventStatus::Completed);
}
