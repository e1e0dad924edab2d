#![allow(dead_code)]
use std::collections::HashMap;

use boundless::contract::EventsContract;
use boundless::effects::Effect;
use boundless::errors::Error;
use boundless::types::{Account, CreateEventParams, Hash32, Invocation, PercentMap, Pillar, ReleaseKind, WinnerSpec};

const ADMIN: Account = 1;
const FEE_ACCOUNT: Account = 2;
const PROFILE: Account = 3;
const ESCROW: Account = 4;
const TOKEN: Account = 5;
const OWNER: Account = 6;

/// Runs the contract the way the chain would: every effect of a successful
/// call is carried out against simulated token balances and profiles.
struct Host {
    c: EventsContract,
    bal: HashMap<(Account, Account), i128>,
    reputation: HashMap<Account, u32>,
    earnings: HashMap<(Account, Account), i128>,
    bootstrapped: Vec<Account>,
    now: u64,
    seq: u32,
    ops: u128,
}

impl Host {
    fn with_bps(fee_bps: u32) -> Host {
        let mut c = EventsContract::new();
        c.initialize(&Invocation { timestamp: 1_000, sequence: 100, signers: vec![] }, ADMIN, FEE_ACCOUNT, fee_bps, PROFILE).unwrap();
        let mut h = Host {
            c,
            bal: HashMap::new(),
            reputation: HashMap::new(),
            earnings: HashMap::new(),
            bootstrapped: Vec::new(),
            now: 1_000,
            seq: 100,
            ops: 0,
        };
        let fx = h.c.register_supported_token(&h.all(), TOKEN).unwrap();
        h.run(fx);
        h.mint(OWNER, 50_000_0000000);
        h
    }
    /// An invocation that every test address has signed.
    fn all(&self) -> Invocation {
        Invocation { timestamp: self.now, sequence: self.seq, signers: (1..=500).collect() }
    }
    fn only(&self, who: &[Account]) -> Invocation {
        Invocation { timestamp: self.now, sequence: self.seq, signers: who.to_vec() }
    }
    fn op(&mut self) -> Hash32 {
        self.ops += 1;
        Hash32 { hi: self.ops, lo: 7 }
    }
    fn balance(&self, who: Account) -> i128 {
        *self.bal.get(&(TOKEN, who)).unwrap_or(&0)
    }
    fn mint(&mut self, who: Account, amount: i128) {
        *self.bal.entry((TOKEN, who)).or_insert(0) += amount;
    }
    fn transfer(&mut self, token: Account, from: Account, to: Account, amount: i128) {
        let have = *self.bal.get(&(token, from)).unwrap_or(&0);
        assert!(amount >= 0 && have >= amount, "transfer of {} from {} exceeds balance {}", amount, from, have);
        *self.bal.entry((token, from)).or_insert(0) -= amount;
        *self.bal.entry((token, to)).or_insert(0) += amount;
    }
    fn run(&mut self, fx: Vec<Effect>) {
        for e in fx {
            match e {
                Effect::Collect { token, from, amount } => self.transfer(token, from, ESCROW, amount),
                Effect::Pay { token, to, amount } => self.transfer(token, ESCROW, to, amount),
                Effect::Bootstrap { user, .. } => self.bootstrapped.push(user),
                Effect::BumpReputation { user, delta, .. } => *self.reputation.entry(user).or_insert(0) += delta,
                Effect::RegisterEarnings { user, token, amount, .. } => *self.earnings.entry((user, token)).or_insert(0) += amount,
                Effect::UpdateWasm { .. } | Effect::Publish(_) => {},
            }
        }
    }
    fn params(&self, pillar: Pillar, kind: ReleaseKind, budget: i128, dist: Vec<(u32, u32)>) -> CreateEventParams {
        CreateEventParams {
            pillar,
            owner: OWNER,
            token: TOKEN,
            total_budget: budget,
            release_kind: kind,
            content_uri: b"https://api.boundless.fi/test".to_vec(),
            title: b"Test".to_vec(),
            deadline: Some(self.now + 86_400),
            winner_distribution: PercentMap { entries: dist },
            fee_bps_override: None,
            manager: None,
        }
    }
    fn create(&mut self, p: CreateEventParams) -> Result<u64, Error> {
        let op = self.op();
        let (id, fx) = self.c.create_event(&self.all(), p, op)?;
        self.run(fx);
        Ok(id)
    }
    fn add_funds(&mut self, id: u64, from: Account, amount: i128) -> Result<(), Error> {
        let op = self.op();
        let fx = self.c.add_funds(&self.all(), id, from, amount, op)?;
        self.run(fx);
        Ok(())
    }
    fn select(&mut self, id: u64, winners: Vec<(Account, u32)>) -> Result<(), Error> {
        let op = self.op();
        let specs = winners.into_iter().map(|(recipient, position)| WinnerSpec { recipient, position, reputation_bump: 50 }).collect();
        let fx = self.c.select_winners(&self.all(), id, specs, op)?;
        self.run(fx);
        Ok(())
    }
    fn claim_prize(&mut self, id: u64, position: u32) -> Result<(), Error> {
        let op = self.op();
        let fx = self.c.claim_prize(&self.all(), id, position, op)?;
        self.run(fx);
        Ok(())
    }
    fn claim_milestone(&mut self, id: u64, recipient: Account, milestone: u32) -> Result<(), Error> {
        let op = self.op();
        let fx = self.c.claim_milestone(&self.all(), id, recipient, milestone, op)?;
        self.run(fx);
        Ok(())
    }
    /// Drives a paged cancel to its end, as the original harness does.
    fn drive_cancel(&mut self, id: u64) {
        let op = self.op();
        let fx = self.c.start_cancel(&self.all(), id, op).unwrap();
        self.run(fx);
        if self.c.get_event(id).unwrap().status == boundless::types::EventStatus::Cancelled {
            return;
        }
        loop {
            let op = self.op();
            let (left, fx) = self.c.process_cancel_batch(id, 25, op).unwrap();
            self.run(fx);
            if left == 0 {
                break;
            }
        }
        let op = self.op();
        let fx = self.c.finalize_cancel(id, op).unwrap();
        self.run(fx);
    }
}

use boundless::types::EventStatus;

const TOTAL_BUDGET: i128 = 10_000_0000000;
const APPLICANT: Account = 20;

fn setup() -> Host {
    Host::with_bps(250)
}

fn create_bounty_with_deadline(h: &mut Host, deadline: u64) -> u64 {
    let mut p = h.params(Pillar::Bounty, ReleaseKind::Single, TOTAL_BUDGET, vec![(1, 100)]);
    p.deadline = Some(deadline);
    h.create(p).unwrap()
}

fn create_bounty(h: &mut Host) -> u64 {
    let d = h.now + 86_400;
    create_bounty_with_deadline(h, d)
}

fn create_hackathon(h: &mut Host) -> u64 {
    let p = h.params(Pillar::Hackathon, ReleaseKind::Single, TOTAL_BUDGET, vec![(1, 100)]);
    h.create(p).unwrap()
}

fn apply(h: &mut Host, id: u64, who: Account) -> Result<(), Error> {
    let op = h.op();
    let fx = h.c.apply_to_bounty(&h.all(), id, who, op)?;
    h.run(fx);
    Ok(())
}

fn withdraw(h: &mut Host, id: u64, who: Account) -> Result<(), Error> {
    let op = h.op();
    let fx = h.c.withdraw_application(&h.all(), id, who, op)?;
    h.run(fx);
    Ok(())
}

fn pause(h: &mut Host) {
    let fx = h.c.pause(&h.all()).unwrap();
    h.run(fx);
}

#[test]
fn bounty_pillar_create_rejects_multi_release_kind() {
    let mut h = setup();
    let mut p = h.params(Pillar::Bounty, ReleaseKind::Multi(3), TOTAL_BUDGET, vec![(1, 100)]);
    p.title = b"Bad Bounty".to_vec();
    assert_eq!(h.create(p), Err(Error::InvalidReleaseKind));
}

#[test]
fn apply_bootstraps_profile_and_records_applicant() {
    let mut h = setup();
    let id = create_bounty(&mut h);
    assert!(!h.bootstrapped.contains(&APPLICANT));
    apply(&mut h, id, APPLICANT).unwrap();
    assert!(h.bootstrapped.contains(&APPLICANT));
    assert_eq!(h.c.get_applicants(id).unwrap(), vec![APPLICANT]);
}

#[test]
fn duplicate_apply_reverts() {
    let mut h = setup();
    let id = create_bounty(&mut h);
    apply(&mut h, id, APPLICANT).unwrap();
    assert_eq!(apply(&mut h, id, APPLICANT), Err(Error::ApplicantAlreadyApplied));
}

#[test]
fn replayed_apply_reverts_idempotently() {
    let mut h = setup();
    let id = create_bounty(&mut h);
    let op = h.op();
    let fx = h.c.apply_to_bounty(&h.all(), id, APPLICANT, op).unwrap();
    h.run(fx);
    assert_eq!(h.c.apply_to_bounty(&h.all(), id, APPLICANT, op).err(), Some(Error::OpAlreadySeen));
}

#[test]
fn apply_on_nonexistent_event_reverts() {
    let mut h = setup();
    assert_eq!(apply(&mut h, 9999, APPLICANT), Err(Error::EventNotFound));
}

#[test]
fn apply_on_wrong_pillar_reverts() {
    let mut h = setup();
    let id = create_hackathon(&mut h);
    assert_eq!(apply(&mut h, id, APPLICANT), Err(Error::InvalidPillar));
}

#[test]
fn apply_on_cancelled_event_reverts() {
    let mut h = setup();
    let id = create_bounty(&mut h);
    h.drive_cancel(id);
    assert_eq!(apply(&mut h, id, APPLICANT), Err(Error::EventNotActive));
}

#[test]
fn apply_on_completed_event_reverts() {
    let mut h = setup();
    let id = create_bounty(&mut h);
    apply(&mut h, id, APPLICANT).unwrap();
    h.select(id, vec![(APPLICANT, 1)]).unwrap();
    h.claim_prize(id, 1).unwrap();
    assert_eq!(h.c.get_event(id).unwrap().status, EventStatus::Completed);
    assert_eq!(apply(&mut h, id, APPLICANT), Err(Error::EventNotActive));
}

#[test]
fn apply_when_paused_reverts() {
    let mut h = setup();
    let id = create_bounty(&mut h);
    pause(&mut h);
    assert_eq!(apply(&mut h, id, APPLICANT), Err(Error::Paused));
}

#[test]
fn apply_beyond_former_cap_succeeds() {
    let mut h = setup();
    let id = create_bounty(&mut h);
    // Fill the first 5,000 slots directly instead of applying 5,000 times.
    let i = h.c.find_event(id).unwrap();
    for k in 0..5_000u64 {
        h.c.events[i].applicants.push(100_000 + k);
    }
    apply(&mut h, id, APPLICANT).unwrap();
    assert_eq!(h.c.get_applicant_count(id), Ok(5_001), "applications are unbounded; the counter must keep advancing past the former cap");
    assert_eq!(h.c.get_applicant_at(id, 5_000), Ok(Some(APPLICANT)), "the new applicant must land in the next slot");
}

#[test]
fn applicants_page_respects_start_and_limit() {
    let mut h = setup();
    let id = create_bounty(&mut h);
    let (second, third): (Account, Account) = (21, 22);
    for a in [APPLICANT, second, third] {
        apply(&mut h, id, a).unwrap();
    }
    assert_eq!(h.c.get_applicants_page(id, 1, 10), Ok(vec![second, third]));
    assert_eq!(h.c.get_applicants_page(id, 0, 0).unwrap().len(), 0, "limit 0 must return an empty page");
    assert_eq!(h.c.get_applicants_page(id, 10, 5).unwrap().len(), 0, "a start past the end must return an empty page");
    assert_eq!(h.c.get_applicants_page(id, 0, 1_000).unwrap().len(), 3, "an oversized limit is clamped, not an error");
}

#[test]
fn apply_requires_applicant_auth() {
    let mut h = setup();
    let id = create_bounty(&mut h);
    let op = h.op();
    assert_eq!(h.c.apply_to_bounty(&h.only(&[OWNER]), id, APPLICANT, op).err(), Some(Error::Unauthorized));
    let fx = h.c.apply_to_bounty(&h.only(&[APPLICANT]), id, APPLICANT, op).unwrap();
    h.run(fx);
}

#[test]
fn withdraw_removes_the_applicant() {
    let mut h = setup();
    let id = create_bounty(&mut h);
    apply(&mut h, id, APPLICANT).unwrap();
    assert_eq!(h.c.get_applicants(id).unwrap().len(), 1);
    withdraw(&mut h, id, APPLICANT).unwrap();
    assert_eq!(h.c.get_applicants(id).unwrap().len(), 0);
}

#[test]
fn withdraw_without_apply_reverts() {
    let mut h = setup();
    let id = create_bounty(&mut h);
    assert_eq!(withdraw(&mut h, id, APPLICANT), Err(Error::ApplicantNotApplied));
}

#[test]
fn withdraw_after_submit_reverts() {
    let mut h = setup();
    let id = create_bounty(&mut h);
    apply(&mut h, id, APPLICANT).unwrap();
    let op = h.op();
    let fx = h.c.submit(&h.all(), id, APPLICANT, b"ipfs://Qm.../bounty.json".to_vec(), op).unwrap();
    h.run(fx);
    assert_eq!(withdraw(&mut h, id, APPLICANT), Err(Error::SubmissionAlreadyExists));
}

#[test]
fn replayed_withdraw_reverts_idempotently() {
    let mut h = setup();
    let id = create_bounty(&mut h);
    apply(&mut h, id, APPLICANT).unwrap();
    let op = h.op();
    let fx = h.c.withdraw_application(&h.all(), id, APPLICANT, op).unwrap();
    h.run(fx);
    assert_eq!(h.c.withdraw_application(&h.all(), id, APPLICANT, op).err(), Some(Error::OpAlreadySeen));
}

#[test]
fn withdraw_on_nonexistent_event_reverts() {
    let mut h = setup();
    assert_eq!(withdraw(&mut h, 9999, APPLICANT), Err(Error::EventNotFound));
}

#[test]
fn withdraw_when_paused_reverts() {
    let mut h = setup();
    let id = create_bounty(&mut h);
    apply(&mut h, id, APPLICANT).unwrap();
    pause(&mut h);
    assert_eq!(withdraw(&mut h, id, APPLICANT), Err(Error::Paused));
}

#[test]
fn withdraw_requires_applicant_auth() {
    let mut h = setup();
    let id = create_bounty(&mut h);
    apply(&mut h, id, APPLICANT).unwrap();
    let op = h.op();
    assert_eq!(h.c.withdraw_application(&h.only(&[OWNER]), id, APPLICANT, op).err(), Some(Error::Unauthorized));
    let fx = h.c.withdraw_application(&h.only(&[APPLICANT]), id, APPLICANT, op).unwrap();
    h.run(fx);
    assert_eq!(h.c.get_applicants(id).unwrap().len(), 0);
}

#[test]
fn apply_after_deadline_is_refused() {
    let mut h = setup();
    let deadline = h.now + 10;
    let id = create_bounty_with_deadline(&mut h, deadline);
    h.now = deadline + 1;
    assert_eq!(apply(&mut h, id, APPLICANT), Err(Error::DeadlinePassed));
}

#[test]
fn withdrawing_restores_the_applicant_list() {
    let mut h = setup();
    let id = create_bounty(&mut h);
    for a in [30, 31, 32] {
        apply(&mut h, id, a).unwrap();
    }
    let before = h.c.get_applicants(id).unwrap();
    apply(&mut h, id, APPLICANT).unwrap();
    withdraw(&mut h, id, APPLICANT).unwrap();
    assert_eq!(h.c.get_applicants(id).unwrap(), before);
    // Withdrawing from the middle moves the last applicant into the gap.
    withdraw(&mut h, id, 30).unwrap();
    assert_eq!(h.c.get_applicants(id).unwrap(), vec![32, 31]);
}
