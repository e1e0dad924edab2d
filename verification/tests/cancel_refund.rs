#![allow(dead_code)]
use std::collections::HashMap;

use boundless::contract::EventsContract;
use boundless::effects::Effect;
use boundless::errors::Error;
use boundless::types::{Account, CreateEventParams, Hash32, Invocation, PercentMap, Pillar, ReleaseKind, WinnerSpec};

const ADMIN: Account = 1;
const FEE_ACCOUNT: Account = 2;
const PROFILE: Account = 3;
const ESCROW: Account = 4;
const TOKEN: Account = 5;
const OWNER: Account = 6;

/// Runs the contract the way the chain would: every effect of a successful
/// call is carried out against simulated token balances and profiles.
struct Host {
    c: EventsContract,
    bal: HashMap<(Account, Account), i128>,
    reputation: HashMap<Account, u32>,
    earnings: HashMap<(Account, Account), i128>,
    bootstrapped: Vec<Account>,
    now: u64,
    seq: u32,
    ops: u128,
}

impl Host {
    fn with_bps(fee_bps: u32) -> Host {
        let mut c = EventsContract::new();
        c.initialize(&Invocation { timestamp: 1_000, sequence: 100, signers: vec![] }, ADMIN, FEE_ACCOUNT, fee_bps, PROFILE).unwrap();
        let mut h = Host {
            c,
            bal: HashMap::new(),
            reputation: HashMap::new(),
            earnings: HashMap::new(),
            bootstrapped: Vec::new(),
            now: 1_000,
            seq: 100,
            ops: 0,
        };
        let fx = h.c.register_supported_token(&h.all(), TOKEN).unwrap();
        h.run(fx);
        h.mint(OWNER, 50_000_0000000);
        h
    }
    /// An invocation that every test address has signed.
    fn all(&self) -> Invocation {
        Invocation { timestamp: self.now, sequence: self.seq, signers: (1..=500).collect() }
    }
    fn only(&self, who: &[Account]) -> Invocation {
        Invocation { timestamp: self.now, sequence: self.seq, signers: who.to_vec() }
    }
    fn op(&mut self) -> Hash32 {
        self.ops += 1;
        Hash32 { hi: self.ops, lo: 7 }
    }
    fn balance(&self, who: Account) -> i128 {
        *self.bal.get(&(TOKEN, who)).unwrap_or(&0)
    }
    fn mint(&mut self, who: Account, amount: i128) {
        *self.bal.entry((TOKEN, who)).or_insert(0) += amount;
    }
    fn transfer(&mut self, token: Account, from: Account, to: Account, amount: i128) {
        let have = *self.bal.get(&(token, from)).unwrap_or(&0);
        assert!(amount >= 0 && have >= amount, "transfer of {} from {} exceeds balance {}", amount, from, have);
        *self.bal.entry((token, from)).or_insert(0) -= amount;
        *self.bal.entry((token, to)).or_insert(0) += amount;
    }
    fn run(&mut self, fx: Vec<Effect>) {
        for e in fx {
            match e {
                Effect::Collect { token, from, amount } => self.transfer(token, from, ESCROW, amount),
                Effect::Pay { token, to, amount } => self.transfer(token, ESCROW, to, amount),
                Effect::Bootstrap { user, .. } => self.bootstrapped.push(user),
                Effect::BumpReputation { user, delta, .. } => *self.reputation.entry(user).or_insert(0) += delta,
                Effect::RegisterEarnings { user, token, amount, .. } => *self.earnings.entry((user, token)).or_insert(0) += amount,
                Effect::UpdateWasm { .. } | Effect::Publish(_) => {},
            }
        }
    }
    fn params(&self, pillar: Pillar, kind: ReleaseKind, budget: i128, dist: Vec<(u32, u32)>) -> CreateEventParams {
        CreateEventParams {
            pillar,
            owner: OWNER,
            token: TOKEN,
            total_budget: budget,
            release_kind: kind,
            content_uri: b"https://api.boundless.fi/test".to_vec(),
            title: b"Test".to_vec(),
            deadline: Some(self.now + 86_400),
            winner_distribution: PercentMap { entries: dist },
            fee_bps_override: None,
            manager: None,
        }
    }
    fn create(&mut self, p: CreateEventParams) -> Result<u64, Error> {
        let op = self.op();
        let (id, fx) = self.c.create_event(&self.all(), p, op)?;
        self.run(fx);
        Ok(id)
    }
    fn add_funds(&mut self, id: u64, from: Account, amount: i128) -> Result<(), Error> {
        let op = self.op();
        let fx = self.c.add_funds(&self.all(), id, from, amount, op)?;
        self.run(fx);
        Ok(())
    }
    fn select(&mut self, id: u64, winners: Vec<(Account, u32)>) -> Result<(), Error> {
        let op = self.op();
        let specs = winners.into_iter().map(|(recipient, position)| WinnerSpec { recipient, position, reputation_bump: 50 }).collect();
        let fx = self.c.select_winners(&self.all(), id, specs, op)?;
        self.run(fx);
        Ok(())
    }
    fn claim_prize(&mut self, id: u64, position: u32) -> Result<(), Error> {
        let op = self.op();
        let fx = self.c.claim_prize(&self.all(), id, position, op)?;
        self.run(fx);
        Ok(())
    }
    fn claim_milestone(&mut self, id: u64, recipient: Account, milestone: u32) -> Result<(), Error> {
        let op = self.op();
        let fx = self.c.claim_milestone(&self.all(), id, recipient, milestone, op)?;
        self.run(fx);
        Ok(())
    }
    /// Drives a paged cancel to its end, as the original harness does.
    fn drive_cancel(&mut self, id: u64) {
        let op = self.op();
        let fx = self.c.start_cancel(&self.all(), id, op).unwrap();
        self.run(fx);
        if self.c.get_event(id).unwrap().status == boundless::types::EventStatus::Cancelled {
            return;
        }
        loop {
            let op = self.op();
            let (left, fx) = self.c.process_cancel_batch(id, 25, op).unwrap();
            self.run(fx);
            if left == 0 {
                break;
            }
        }
        let op = self.op();
        let fx = self.c.finalize_cancel(id, op).unwrap();
        self.run(fx);
    }
}

const FEE_BPS: u32 = 250;
const TOTAL_BUDGET: i128 = 1_000_0000000;
const MIN_CONTRIB: i128 = 100_000_000;

fn setup() -> Host {
    Host::with_bps(FEE_BPS)
}

fn create_hackathon(h: &mut Host) -> u64 {
    let p = h.params(Pillar::Hackathon, ReleaseKind::Single, TOTAL_BUDGET, vec![(1, 100)]);
    h.create(p).unwrap()
}

fn contribute(h: &mut Host, id: u64, who: Account, amount: i128) {
    let fee = amount * FEE_BPS as i128 / 10_000;
    h.mint(who, amount + fee);
    h.add_funds(id, who, amount).unwrap();
}

fn stored_non_owner_total(h: &Host, id: u64) -> Option<i128> {
    let i = h.c.find_event(id).unwrap();
    h.c.events[i].non_owner_total
}

fn remove_running_total(h: &mut Host, id: u64) {
    let i = h.c.find_event(id).unwrap();
    h.c.events[i].non_owner_total = None;
}

fn has_cancellation_state(h: &Host, id: u64) -> bool {
    let i = h.c.find_event(id).unwrap();
    h.c.events[i].cancellation.is_some()
}

fn start(h: &mut Host, id: u64) -> Result<(), Error> {
    let op = h.op();
    let fx = h.c.start_cancel(&h.all(), id, op)?;
    h.run(fx);
    Ok(())
}

fn batch(h: &mut Host, id: u64, max: u32) -> Result<u32, Error> {
    let op = h.op();
    let (left, fx) = h.c.process_cancel_batch(id, max, op)?;
    h.run(fx);
    Ok(left)
}

fn finalize(h: &mut Host, id: u64) -> Result<(), Error> {
    let op = h.op();
    let fx = h.c.finalize_cancel(id, op)?;
    h.run(fx);
    Ok(())
}

#[test]
fn owner_only_cancel_settles_inline() {
    let mut h = setup();
    let id = create_hackathon(&mut h);
    let before = h.balance(OWNER);
    start(&mut h, id).unwrap();
    let event = h.c.get_event(id).unwrap();
    assert_eq!(event.status, boundless::types::EventStatus::Cancelled);
    assert_eq!(event.remaining_escrow, 0);
    assert_eq!(h.balance(OWNER) - before, TOTAL_BUDGET);
}

#[test]
fn owner_only_process_and_finalize_rejected_after_inline_settle() {
    let mut h = setup();
    let id = create_hackathon(&mut h);
    start(&mut h, id).unwrap();
    assert!(batch(&mut h, id, 10).is_err());
    assert!(finalize(&mut h, id).is_err());
}

#[test]
fn full_partner_then_residual_pays_partners_and_owner() {
    let mut h = setup();
    let id = create_hackathon(&mut h);
    contribute(&mut h, id, 41, 200_0000000);
    contribute(&mut h, id, 42, 300_0000000);
    let (p1, p2, o, f) = (h.balance(41), h.balance(42), h.balance(OWNER), h.balance(FEE_ACCOUNT));
    h.drive_cancel(id);
    assert_eq!(h.balance(41) - p1, 200_0000000);
    assert_eq!(h.balance(42) - p2, 300_0000000);
    assert_eq!(h.balance(OWNER) - o, TOTAL_BUDGET);
    assert_eq!(h.balance(FEE_ACCOUNT) - f, 0);
    assert_eq!(h.c.get_event(id).unwrap().status, boundless::types::EventStatus::Cancelled);
}

#[test]
fn cancel_refund_paged_cancel_processes_in_batches() {
    let mut h = setup();
    let id = create_hackathon(&mut h);
    let partners: [Account; 5] = [41, 42, 43, 44, 45];
    for p in partners {
        contribute(&mut h, id, p, MIN_CONTRIB);
    }
    let balances: Vec<i128> = partners.iter().map(|p| h.balance(*p)).collect();
    let owner_before = h.balance(OWNER);
    let fee_before = h.balance(FEE_ACCOUNT);
    start(&mut h, id).unwrap();
    assert_eq!(h.c.get_event(id).unwrap().status, boundless::types::EventStatus::Cancelling);
    assert_eq!(batch(&mut h, id, 2), Ok(3));
    assert_eq!(batch(&mut h, id, 2), Ok(1));
    assert!(finalize(&mut h, id).is_err());
    assert_eq!(batch(&mut h, id, 2), Ok(0));
    finalize(&mut h, id).unwrap();
    let event = h.c.get_event(id).unwrap();
    assert_eq!(event.status, boundless::types::EventStatus::Cancelled);
    assert_eq!(event.remaining_escrow, 0);
    for (i, p) in partners.iter().enumerate() {
        assert_eq!(h.balance(*p) - balances[i], MIN_CONTRIB);
    }
    assert_eq!(h.balance(OWNER) - owner_before, TOTAL_BUDGET);
    assert_eq!(h.balance(FEE_ACCOUNT) - fee_before, 0);
}

#[test]
fn running_non_owner_total_tracks_repeated_contributions_but_not_owner_topups() {
    let mut h = setup();
    let id = create_hackathon(&mut h);
    assert_eq!(stored_non_owner_total(&h, id), Some(0));
    h.add_funds(id, OWNER, 200_0000000).unwrap();
    assert_eq!(stored_non_owner_total(&h, id), Some(0), "owner funds are not contributor refund claims");
    contribute(&mut h, id, 41, 300_0000000);
    contribute(&mut h, id, 41, 125_0000000);
    assert_eq!(stored_non_owner_total(&h, id), Some(425_0000000), "every credited non-owner top-up is included exactly once");
}

#[test]
fn non_manager_cranks_and_finalizes_with_exact_payout_deltas() {
    let mut h = setup();
    let id = create_hackathon(&mut h);
    let manager: Account = 30;
    h.c.set_manager(&h.all(), id, manager).unwrap();
    contribute(&mut h, id, 41, 200_0000000);
    contribute(&mut h, id, 42, 300_0000000);
    let (p1, p2, o, f) = (h.balance(41), h.balance(42), h.balance(OWNER), h.balance(FEE_ACCOUNT));
    // Only the manager can start; batches and finalization need no signature.
    let op = h.op();
    assert_eq!(h.c.start_cancel(&h.only(&[OWNER]), id, op).err(), Some(Error::Unauthorized));
    let op = h.op();
    let fx = h.c.start_cancel(&h.only(&[manager]), id, op).unwrap();
    h.run(fx);
    assert_eq!(batch(&mut h, id, 25), Ok(0));
    finalize(&mut h, id).unwrap();
    assert_eq!(h.balance(41) - p1, 200_0000000);
    assert_eq!(h.balance(42) - p2, 300_0000000);
    assert_eq!(h.balance(OWNER) - o, TOTAL_BUDGET);
    assert_eq!(h.balance(FEE_ACCOUNT) - f, 0);
    assert_eq!(h.c.get_event(id).unwrap().status, boundless::types::EventStatus::Cancelled);
    assert!(!has_cancellation_state(&h, id));
    assert_eq!(stored_non_owner_total(&h, id), Some(0));
}

#[test]
fn missing_running_total_initializes_for_an_empty_event() {
    let mut h = setup();
    let id = create_hackathon(&mut h);
    remove_running_total(&mut h, id);
    h.mint(41, 200_0000000);
    h.add_funds(id, 41, 100_0000000).unwrap();
    assert_eq!(stored_non_owner_total(&h, id), Some(100_0000000));
}

#[test]
fn missing_running_total_with_contributors_fails_closed() {
    let mut h = setup();
    let id = create_hackathon(&mut h);
    contribute(&mut h, id, 41, 100_0000000);
    remove_running_total(&mut h, id);
    h.mint(42, 200_0000000);
    assert_eq!(h.add_funds(id, 42, 100_0000000), Err(Error::CancellationTotalMissing));
    assert_eq!(start(&mut h, id), Err(Error::CancellationTotalMissing));
    assert_eq!(h.c.get_event(id).unwrap().status, boundless::types::EventStatus::Active);
}

#[test]
fn cancel_prorata_splits_remaining_across_partners_no_owner_residual() {
    let mut h = setup();
    let p = h.params(Pillar::Hackathon, ReleaseKind::Single, TOTAL_BUDGET, vec![(1, 60), (2, 40)]);
    let id = h.create(p).unwrap();
    contribute(&mut h, id, 41, 500_0000000);
    contribute(&mut h, id, 42, 500_0000000);
    h.select(id, vec![(50, 1)]).unwrap();
    h.claim_prize(id, 1).unwrap();
    let (p1, p2, o, f) = (h.balance(41), h.balance(42), h.balance(OWNER), h.balance(FEE_ACCOUNT));
    h.drive_cancel(id);
    assert_eq!(h.balance(41) - p1, 400_0000000);
    assert_eq!(h.balance(42) - p2, 400_0000000);
    assert_eq!(h.balance(OWNER) - o, 0);
    assert_eq!(h.balance(FEE_ACCOUNT) - f, 0);
}

#[test]
fn start_cancel_on_nonexistent_event_reverts() {
    let mut h = setup();
    assert!(start(&mut h, 999).is_err());
}

#[test]
fn start_cancel_on_already_cancelled_reverts() {
    let mut h = setup();
    let id = create_hackathon(&mut h);
    h.drive_cancel(id);
    assert!(start(&mut h, id).is_err());
}

#[test]
fn process_cancel_batch_without_start_reverts() {
    let mut h = setup();
    let id = create_hackathon(&mut h);
    assert_eq!(batch(&mut h, id, 5), Err(Error::CancellationNotStarted));
}

#[test]
fn finalize_cancel_before_all_batches_reverts() {
    let mut h = setup();
    let id = create_hackathon(&mut h);
    for p in [41, 42, 43] {
        contribute(&mut h, id, p, MIN_CONTRIB);
    }
    start(&mut h, id).unwrap();
    assert_eq!(finalize(&mut h, id), Err(Error::CancellationNotFinished));
}

#[test]
fn contributor_amount_zeroed_after_cancel() {
    let mut h = setup();
    let id = create_hackathon(&mut h);
    contribute(&mut h, id, 41, 250_0000000);
    h.drive_cancel(id);
    assert_eq!(h.c.get_contributor_amount(id, 41), Ok(0));
}

#[test]
fn add_funds_on_cancelling_event_reverts() {
    let mut h = setup();
    let id = create_hackathon(&mut h);
    contribute(&mut h, id, 41, MIN_CONTRIB);
    start(&mut h, id).unwrap();
    let fee = MIN_CONTRIB * FEE_BPS as i128 / 10_000;
    h.mint(42, MIN_CONTRIB + fee);
    assert!(h.add_funds(id, 42, MIN_CONTRIB).is_err());
}
