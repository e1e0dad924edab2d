#![allow(dead_code)]
use std::collections::HashMap;

use boundless::contract::EventsContract;
use boundless::effects::Effect;
use boundless::errors::Error;
use boundless::types::{Account, CreateEventParams, Hash32, Invocation, PercentMap, Pillar, ReleaseKind, WinnerSpec};

const ADMIN: Account = 1;
const FEE_ACCOUNT: Account = 2;
const PROFILE: Account = 3;
const ESCROW: Account = 4;
const TOKEN: Account = 5;
const OWNER: Account = 6;

/// Runs the contract the way the chain would: every effect of a successful
/// call is carried out against simulated token balances and profiles.
struct Host {
    c: EventsContract,
    bal: HashMap<(Account, Account), i128>,
    reputation: HashMap<Account, u32>,
    earnings: HashMap<(Account, Account), i128>,
    bootstrapped: Vec<Account>,
    now: u64,
    seq: u32,
    ops: u128,
}

impl Host {
    fn with_bps(fee_bps: u32) -> Host {
        let mut c = EventsContract::new();
        c.initialize(&Invocation { timestamp: 1_000, sequence: 100, signers: vec![] }, ADMIN, FEE_ACCOUNT, fee_bps, PROFILE).unwrap();
        let mut h = Host {
            c,
            bal: HashMap::new(),
            reputation: HashMap::new(),
            earnings: HashMap::new(),
            bootstrapped: Vec::new(),
            now: 1_000,
            seq: 100,
            ops: 0,
        };
        let fx = h.c.register_supported_token(&h.all(), TOKEN).unwrap();
        h.run(fx);
        h.mint(OWNER, 50_000_0000000);
        h
    }
    /// An invocation that every test address has signed.
    fn all(&self) -> Invocation {
        Invocation { timestamp: self.now, sequence: self.seq, signers: (1..=500).collect() }
    }
    fn only(&self, who: &[Account]) -> Invocation {
        Invocation { timestamp: self.now, sequence: self.seq, signers: who.to_vec() }
    }
    fn op(&mut self) -> Hash32 {
        self.ops += 1;
        Hash32 { hi: self.ops, lo: 7 }
    }
    fn balance(&self, who: Account) -> i128 {
        *self.bal.get(&(TOKEN, who)).unwrap_or(&0)
    }
    fn mint(&mut self, who: Account, amount: i128) {
        *self.bal.entry((TOKEN, who)).or_insert(0) += amount;
    }
    fn transfer(&mut self, token: Account, from: Account, to: Account, amount: i128) {
        let have = *self.bal.get(&(token, from)).unwrap_or(&0);
        assert!(amount >= 0 && have >= amount, "transfer of {} from {} exceeds balance {}", amount, from, have);
        *self.bal.entry((token, from)).or_insert(0) -= amount;
        *self.bal.entry((token, to)).or_insert(0) += amount;
    }
    fn run(&mut self, fx: Vec<Effect>) {
        for e in fx {
            match e {
                Effect::Collect { token, from, amount } => self.transfer(token, from, ESCROW, amount),
                Effect::Pay { token, to, amount } => self.transfer(token, ESCROW, to, amount),
                Effect::Bootstrap { user, .. } => self.bootstrapped.push(user),
                Effect::BumpReputation { user, delta, .. } => *self.reputation.entry(user).or_insert(0) += delta,
                Effect::RegisterEarnings { user, token, amount, .. } => *self.earnings.entry((user, token)).or_insert(0) += amount,
                Effect::UpdateWasm { .. } | Effect::Publish(_) => {},
            }
        }
    }
    fn params(&self, pillar: Pillar, kind: ReleaseKind, budget: i128, dist: Vec<(u32, u32)>) -> CreateEventParams {
        CreateEventParams {
            pillar,
            owner: OWNER,
            token: TOKEN,
            total_budget: budget,
            release_kind: kind,
            content_uri: b"https://api.boundless.fi/test".to_vec(),
            title: b"Test".to_vec(),
            deadline: Some(self.now + 86_400),
            winner_distribution: PercentMap { entries: dist },
            fee_bps_override: None,
            manager: None,
        }
    }
    fn create(&mut self, p: CreateEventParams) -> Result<u64, Error> {
        let op = self.op();
        let (id, fx) = self.c.create_event(&self.all(), p, op)?;
        self.run(fx);
        Ok(id)
    }
    fn add_funds(&mut self, id: u64, from: Account, amount: i128) -> Result<(), Error> {
        let op = self.op();
        let fx = self.c.add_funds(&self.all(), id, from, amount, op)?;
        self.run(fx);
        Ok(())
    }
    fn select(&mut self, id: u64, winners: Vec<(Account, u32)>) -> Result<(), Error> {
        let op = self.op();
        let specs = winners.into_iter().map(|(recipient, position)| WinnerSpec { recipient, position, reputation_bump: 50 }).collect();
        let fx = self.c.select_winners(&self.all(), id, specs, op)?;
        self.run(fx);
        Ok(())
    }
    fn claim_prize(&mut self, id: u64, position: u32) -> Result<(), Error> {
        let op = self.op();
        let fx = self.c.claim_prize(&self.all(), id, position, op)?;
        self.run(fx);
        Ok(())
    }
    fn claim_milestone(&mut self, id: u64, recipient: Account, milestone: u32) -> Result<(), Error> {
        let op = self.op();
        let fx = self.c.claim_milestone(&self.all(), id, recipient, milestone, op)?;
        self.run(fx);
        Ok(())
    }
    /// Drives a paged cancel to its end, as the original harness does.
    fn drive_cancel(&mut self, id: u64) {
        let op = self.op();
        let fx = self.c.start_cancel(&self.all(), id, op).unwrap();
        self.run(fx);
        if self.c.get_event(id).unwrap().status == boundless::types::EventStatus::Cancelled {
            return;
        }
        loop {
            let op = self.op();
            let (left, fx) = self.c.process_cancel_batch(id, 25, op).unwrap();
            self.run(fx);
            if left == 0 {
                break;
            }
        }
        let op = self.op();
        let fx = self.c.finalize_cancel(id, op).unwrap();
        self.run(fx);
    }
}

const FEE_BPS: u32 = 250;
const TOTAL_BUDGET: i128 = 1_000_0000000;

fn setup() -> Host {
    Host::with_bps(FEE_BPS)
}

fn hackathon(h: &Host) -> CreateEventParams {
    h.params(Pillar::Hackathon, ReleaseKind::Single, TOTAL_BUDGET, vec![(1, 100)])
}

fn with_override(h: &Host, bps: u32) -> CreateEventParams {
    let mut p = hackathon(h);
    p.fee_bps_override = Some(bps);
    p
}

#[test]
fn global_fee_bps_used_when_no_override() {
    let mut h = setup();
    let before = h.balance(OWNER);
    let p = hackathon(&h);
    h.create(p).unwrap();
    let expected_fee = TOTAL_BUDGET * FEE_BPS as i128 / 10_000;
    assert_eq!(before - h.balance(OWNER), TOTAL_BUDGET + expected_fee);
    assert_eq!(h.balance(FEE_ACCOUNT), expected_fee);
}

#[test]
fn override_bps_used_on_create() {
    let mut h = setup();
    let before = h.balance(OWNER);
    let p = with_override(&h, 500);
    h.create(p).unwrap();
    let expected_fee = TOTAL_BUDGET * 500 / 10_000;
    assert_eq!(before - h.balance(OWNER), TOTAL_BUDGET + expected_fee);
    assert_eq!(h.balance(FEE_ACCOUNT), expected_fee);
}

#[test]
fn zero_override_bps_skips_fee() {
    let mut h = setup();
    let before = h.balance(OWNER);
    let p = with_override(&h, 0);
    h.create(p).unwrap();
    assert_eq!(before - h.balance(OWNER), TOTAL_BUDGET);
    assert_eq!(h.balance(FEE_ACCOUNT), 0);
}

#[test]
fn override_bps_above_max_rejected() {
    let mut h = setup();
    let p = with_override(&h, 1001);
    let res = h.create(p);
    assert!(res.is_err(), "fee_bps_override > MAX_FEE_BPS must revert");
    assert_eq!(res, Err(Error::InvalidFeeBps));
}

#[test]
fn override_at_max_bps_boundary_succeeds() {
    let mut h = setup();
    let p = with_override(&h, 1000);
    h.create(p).unwrap();
    assert_eq!(h.balance(FEE_ACCOUNT), TOTAL_BUDGET * 1000 / 10_000);
}

#[test]
fn fee_rounds_down_non_divisible_amount() {
    let mut h = setup();
    let p = h.params(Pillar::Hackathon, ReleaseKind::Single, 1, vec![(1, 100)]);
    let before = h.balance(OWNER);
    h.create(p).unwrap();
    assert_eq!(before - h.balance(OWNER), 1);
    assert_eq!(h.balance(FEE_ACCOUNT), 0);
}

#[test]
fn fee_rounding_on_odd_amounts() {
    let mut h = setup();
    let p = h.params(Pillar::Hackathon, ReleaseKind::Single, 333, vec![(1, 100)]);
    h.create(p).unwrap();
    let expected_fee: i128 = 333 * 250 / 10_000;
    assert_eq!(h.balance(FEE_ACCOUNT), expected_fee);
    assert_eq!(expected_fee, 8);
}

#[test]
fn add_funds_uses_event_override_bps() {
    let mut h = setup();
    let p = with_override(&h, 100);
    let id = h.create(p).unwrap();
    let create_fee = TOTAL_BUDGET * 100 / 10_000;
    assert_eq!(h.balance(FEE_ACCOUNT), create_fee);
    let partner: Account = 40;
    let contrib = 500_0000000_i128;
    let partner_fee = contrib * 100 / 10_000;
    h.mint(partner, contrib + partner_fee);
    h.add_funds(id, partner, contrib).unwrap();
    assert_eq!(h.balance(FEE_ACCOUNT), create_fee + partner_fee);
}

#[test]
fn add_funds_zero_override_bps_charges_no_fee() {
    let mut h = setup();
    let p = with_override(&h, 0);
    let id = h.create(p).unwrap();
    assert_eq!(h.balance(FEE_ACCOUNT), 0);
    let partner: Account = 40;
    let contrib = 500_0000000_i128;
    h.mint(partner, contrib);
    h.add_funds(id, partner, contrib).unwrap();
    assert_eq!(h.balance(FEE_ACCOUNT), 0);
    assert_eq!(h.c.get_event(id).unwrap().remaining_escrow, TOTAL_BUDGET + contrib);
}

#[test]
fn zero_global_bps_no_override_charges_no_fee() {
    let mut h = Host::with_bps(0);
    let before = h.balance(OWNER);
    let p = hackathon(&h);
    h.create(p).unwrap();
    assert_eq!(before - h.balance(OWNER), TOTAL_BUDGET);
    assert_eq!(h.balance(FEE_ACCOUNT), 0);
}

// In this version a Single-release selection records each prize and the
// winner collects it with `claim_prize`.
#[test]
fn single_release_pays_full_escrow_for_100_percent() {
    let mut h = setup();
    let p = hackathon(&h);
    let id = h.create(p).unwrap();
    let winner: Account = 50;
    h.select(id, vec![(winner, 1)]).unwrap();
    h.claim_prize(id, 1).unwrap();
    assert_eq!(h.balance(winner), TOTAL_BUDGET);
    assert_eq!(h.c.get_event(id).unwrap().remaining_escrow, 0);
}

#[test]
fn multi_position_split_pays_correct_amounts() {
    let mut h = setup();
    let p = h.params(Pillar::Hackathon, ReleaseKind::Single, TOTAL_BUDGET, vec![(1, 50), (2, 30), (3, 20)]);
    let id = h.create(p).unwrap();
    h.select(id, vec![(51, 1), (52, 2), (53, 3)]).unwrap();
    for pos in 1..=3 {
        h.claim_prize(id, pos).unwrap();
    }
    assert_eq!(h.balance(51), TOTAL_BUDGET * 50 / 100);
    assert_eq!(h.balance(52), TOTAL_BUDGET * 30 / 100);
    assert_eq!(h.balance(53), TOTAL_BUDGET * 20 / 100);
    assert_eq!(h.c.get_event(id).unwrap().remaining_escrow, 0);
}

#[test]
fn three_way_33_33_34_split_rounding() {
    let mut h = setup();
    let p = h.params(Pillar::Hackathon, ReleaseKind::Single, TOTAL_BUDGET, vec![(1, 33), (2, 33), (3, 34)]);
    let id = h.create(p).unwrap();
    h.select(id, vec![(51, 1), (52, 2), (53, 3)]).unwrap();
    for pos in 1..=3 {
        h.claim_prize(id, pos).unwrap();
    }
    assert_eq!(h.balance(51), TOTAL_BUDGET * 33 / 100);
    assert_eq!(h.balance(52), TOTAL_BUDGET * 33 / 100);
    assert_eq!(h.balance(53), TOTAL_BUDGET * 34 / 100);
    assert_eq!(h.c.get_event(id).unwrap().remaining_escrow, 0);
}

#[test]
fn partial_position_fill_leaves_residual_escrow() {
    let mut h = setup();
    let p = h.params(Pillar::Hackathon, ReleaseKind::Single, TOTAL_BUDGET, vec![(1, 60), (2, 40)]);
    let id = h.create(p).unwrap();
    h.select(id, vec![(51, 1)]).unwrap();
    h.claim_prize(id, 1).unwrap();
    assert_eq!(h.balance(51), TOTAL_BUDGET * 60 / 100);
    assert_eq!(h.c.get_event(id).unwrap().remaining_escrow, TOTAL_BUDGET - TOTAL_BUDGET * 60 / 100);
}

#[test]
fn partner_funds_grow_winner_payout() {
    let mut h = setup();
    let p = hackathon(&h);
    let id = h.create(p).unwrap();
    let partner: Account = 40;
    let contrib = 500_0000000_i128;
    let fee = contrib * FEE_BPS as i128 / 10_000;
    h.mint(partner, contrib + fee);
    h.add_funds(id, partner, contrib).unwrap();
    let escrow_at_select = h.c.get_event(id).unwrap().remaining_escrow;
    assert_eq!(escrow_at_select, TOTAL_BUDGET + contrib);
    h.select(id, vec![(50, 1)]).unwrap();
    h.claim_prize(id, 1).unwrap();
    assert_eq!(h.balance(50), escrow_at_select);
}

#[test]
fn grant_milestone_pays_floored_per_milestone() {
    let mut h = setup();
    let p = h.params(Pillar::Grant, ReleaseKind::Multi(3), TOTAL_BUDGET, vec![(1, 100)]);
    let id = h.create(p).unwrap();
    let recipient: Account = 60;
    h.select(id, vec![(recipient, 1)]).unwrap();
    let per_milestone = TOTAL_BUDGET / 3;
    h.claim_milestone(id, recipient, 0).unwrap();
    assert_eq!(h.balance(recipient), per_milestone);
    h.claim_milestone(id, recipient, 1).unwrap();
    assert_eq!(h.balance(recipient), per_milestone * 2);
    h.claim_milestone(id, recipient, 2).unwrap();
    assert_eq!(h.balance(recipient), TOTAL_BUDGET, "last milestone sweep must pay entire remaining share");
    assert_eq!(h.c.get_event(id).unwrap().remaining_escrow, 0);
}

#[test]
fn grant_milestone_double_claim_rejected() {
    let mut h = setup();
    let p = h.params(Pillar::Grant, ReleaseKind::Multi(2), TOTAL_BUDGET, vec![(1, 100)]);
    let id = h.create(p).unwrap();
    h.select(id, vec![(60, 1)]).unwrap();
    h.claim_milestone(id, 60, 0).unwrap();
    let res = h.claim_milestone(id, 60, 0);
    assert!(res.is_err(), "double claim_milestone must revert");
    assert_eq!(res, Err(Error::MilestoneAlreadyClaimed));
}

#[test]
fn grant_milestone_out_of_range_rejected() {
    let mut h = setup();
    let p = h.params(Pillar::Grant, ReleaseKind::Multi(2), TOTAL_BUDGET, vec![(1, 100)]);
    let id = h.create(p).unwrap();
    h.select(id, vec![(60, 1)]).unwrap();
    let res = h.claim_milestone(id, 60, 2);
    assert!(res.is_err(), "milestone >= total_milestones must revert");
    assert_eq!(res, Err(Error::InvalidMilestone));
}

#[test]
fn crowdfunding_dynamic_milestone_split() {
    let mut h = setup();
    let p = h.params(Pillar::Crowdfunding, ReleaseKind::Multi(3), TOTAL_BUDGET, vec![(1, 100)]);
    let id = h.create(p).unwrap();
    let backer: Account = 70;
    let raised = 900_0000000_i128;
    h.mint(backer, raised);
    h.add_funds(id, backer, raised).unwrap();
    let owner_before = h.balance(OWNER);
    let milestone_amount = raised / 3;
    let milestone_fee = milestone_amount * FEE_BPS as i128 / 10_000;
    let net = milestone_amount - milestone_fee;
    h.claim_milestone(id, OWNER, 0).unwrap();
    assert_eq!(h.balance(OWNER) - owner_before, net);
    h.claim_milestone(id, OWNER, 1).unwrap();
    assert_eq!(h.balance(OWNER) - owner_before, net * 2);
    h.claim_milestone(id, OWNER, 2).unwrap();
    assert_eq!(h.balance(OWNER) - owner_before, net * 3);
    assert_eq!(h.c.get_event(id).unwrap().remaining_escrow, 0);
}

#[test]
fn crowdfunding_dynamic_rounding_no_dust() {
    let mut h = setup();
    let p = h.params(Pillar::Crowdfunding, ReleaseKind::Multi(3), 1_000_0000001, vec![(1, 100)]);
    let id = h.create(p).unwrap();
    let raised: i128 = 1_000_0000001;
    h.mint(70, raised);
    h.add_funds(id, 70, raised).unwrap();
    h.claim_milestone(id, OWNER, 0).unwrap();
    assert_eq!(h.c.get_event(id).unwrap().remaining_escrow, 666_6666668);
    h.claim_milestone(id, OWNER, 1).unwrap();
    assert_eq!(h.c.get_event(id).unwrap().remaining_escrow, 333_3333334);
    h.claim_milestone(id, OWNER, 2).unwrap();
    assert_eq!(h.c.get_event(id).unwrap().remaining_escrow, 0);
}

#[test]
fn fee_account_accumulates_across_create_and_add_funds() {
    let mut h = setup();
    let p = hackathon(&h);
    let id = h.create(p).unwrap();
    let create_fee = TOTAL_BUDGET * FEE_BPS as i128 / 10_000;
    assert_eq!(h.balance(FEE_ACCOUNT), create_fee);
    let contrib = 200_0000000_i128;
    let contrib_fee = contrib * FEE_BPS as i128 / 10_000;
    h.mint(40, contrib + contrib_fee);
    h.add_funds(id, 40, contrib).unwrap();
    assert_eq!(h.balance(FEE_ACCOUNT), create_fee + contrib_fee);
}

#[test]
fn replayed_create_event_reverts() {
    let mut h = setup();
    let op = h.op();
    let p = hackathon(&h);
    let (_, fx) = h.c.create_event(&h.all(), p, op).unwrap();
    h.run(fx);
    let p = hackathon(&h);
    let res = h.c.create_event(&h.all(), p, op);
    assert!(res.is_err(), "replayed create_event must revert");
    assert_eq!(res.err(), Some(Error::OpAlreadySeen));
}

#[test]
fn replayed_select_winners_reverts() {
    let mut h = setup();
    let p = hackathon(&h);
    let id = h.create(p).unwrap();
    let op = h.op();
    let spec = vec![WinnerSpec { recipient: 50, position: 1, reputation_bump: 50 }];
    let fx = h.c.select_winners(&h.all(), id, spec, op).unwrap();
    h.run(fx);
    let spec = vec![WinnerSpec { recipient: 50, position: 1, reputation_bump: 50 }];
    let res = h.c.select_winners(&h.all(), id, spec, op);
    assert!(res.is_err(), "replayed select_winners must revert");
}

#[test]
fn select_winners_on_nonexistent_event_reverts() {
    let mut h = setup();
    let res = h.select(999, vec![(50, 1)]);
    assert!(res.is_err());
    assert_eq!(res, Err(Error::EventNotFound));
}

#[test]
fn escrow_fee_math_select_winners_duplicate_position_reverts() {
    let mut h = setup();
    let p = h.params(Pillar::Hackathon, ReleaseKind::Single, TOTAL_BUDGET, vec![(1, 50), (2, 50)]);
    let id = h.create(p).unwrap();
    let res = h.select(id, vec![(51, 1), (52, 1)]);
    assert!(res.is_err(), "duplicate winner position must revert");
    assert_eq!(res, Err(Error::DuplicateWinnerPosition));
}

#[test]
fn select_winners_invalid_position_reverts() {
    let mut h = setup();
    let p = hackathon(&h);
    let id = h.create(p).unwrap();
    let res = h.select(id, vec![(51, 99)]);
    assert!(res.is_err(), "position not in distribution must revert");
    assert_eq!(res, Err(Error::InvalidWinnerPosition));
}

#[test]
fn select_winners_empty_list_reverts() {
    let mut h = setup();
    let p = hackathon(&h);
    let id = h.create(p).unwrap();
    let res = h.select(id, vec![]);
    assert!(res.is_err(), "empty winners list must revert");
    assert_eq!(res, Err(Error::NoSubmissions));
}

// Single-release selection is batchable in this version: a second batch is
// refused only for a position already awarded.
#[test]
fn select_winners_twice_reverts() {
    let mut h = setup();
    let p = hackathon(&h);
    let id = h.create(p).unwrap();
    h.select(id, vec![(50, 1)]).unwrap();
    let res = h.select(id, vec![(50, 1)]);
    assert!(res.is_err(), "second select_winners on same event must revert");
}

#[test]
fn large_budget_fee_does_not_overflow() {
    let mut h = setup();
    let big_budget: i128 = i128::MAX / 20_000;
    h.mint(OWNER, big_budget * 2);
    let p = h.params(Pillar::Hackathon, ReleaseKind::Single, big_budget, vec![(1, 100)]);
    h.create(p).unwrap();
    assert_eq!(h.balance(FEE_ACCOUNT), big_budget * FEE_BPS as i128 / 10_000);
}

#[test]
fn mid_flight_global_bps_change_does_not_affect_override_event() {
    let mut h = setup();
    let p = with_override(&h, 100);
    let id = h.create(p).unwrap();
    let fx = h.c.set_fee_bps(&h.all(), 500).unwrap();
    h.run(fx);
    let contrib = 500_0000000_i128;
    let partner_fee = contrib * 100 / 10_000;
    h.mint(40, contrib + partner_fee);
    let fee_before = h.balance(FEE_ACCOUNT);
    h.add_funds(id, 40, contrib).unwrap();
    assert_eq!(h.balance(FEE_ACCOUNT) - fee_before, partner_fee, "event with override must ignore global bps change");
}

#[test]
fn select_winners_on_cancelled_event_reverts() {
    let mut h = setup();
    let p = hackathon(&h);
    let id = h.create(p).unwrap();
    h.drive_cancel(id);
    let res = h.select(id, vec![(50, 1)]);
    assert!(res.is_err(), "select_winners on cancelled event must revert");
    assert_eq!(res, Err(Error::EventNotActive));
}

#[test]
fn fee_and_winner_balances_consistent() {
    let mut h = setup();
    let p = hackathon(&h);
    let id = h.create(p).unwrap();
    let create_fee = TOTAL_BUDGET * FEE_BPS as i128 / 10_000;
    let contrib = 400_0000000_i128;
    let contrib_fee = contrib * FEE_BPS as i128 / 10_000;
    h.mint(40, contrib + contrib_fee);
    h.add_funds(id, 40, contrib).unwrap();
    h.select(id, vec![(50, 1)]).unwrap();
    h.claim_prize(id, 1).unwrap();
    assert_eq!(h.balance(50), TOTAL_BUDGET + contrib);
    assert_eq!(h.balance(FEE_ACCOUNT), create_fee + contrib_fee);
    assert_eq!(h.c.get_event(id).unwrap().remaining_escrow, 0);
}

#[test]
fn compute_fee_at_exact_values() {
    assert_eq!(boundless::escrow::compute_fee_at(10_000, 250), 250);
    assert_eq!(boundless::escrow::compute_fee_at(333, 250), 8);
    assert_eq!(boundless::escrow::compute_fee_at(-333, 250), -8);
    assert_eq!(boundless::escrow::compute_fee_at(i128::MAX, 10), i128::MAX / 10_000);
    assert_eq!(boundless::escrow::effective_fee_bps(Some(7), 250), 7);
    assert_eq!(boundless::escrow::effective_fee_bps(None, 250), 250);
}
