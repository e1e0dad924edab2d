use vstd::prelude::*;

use crate::admin::{sat_add_u32, PENDING_ADMIN_TTL_LEDGERS, PENDING_UPGRADE_TTL_LEDGERS, UPGRADE_TIMELOCK_LEDGERS};
use crate::errors::Error;
use crate::types::{
    keys_unique, value_sum, Account, CreateEventParams, Contribution, EventStatus, ReleaseKind, Invocation, Pillar, lookup, MilestoneClaim, OpId, PendingAdmin, SeenOp,
    WinnerSpec,
};
use crate::contract::{contributors_unique, EventEntry, EventsContract};
use crate::event_ops::{
    contribution_of, contributors_after_credit, has_submission, is_contributor, lemma_contribution_absent, lemma_contribution_at,
    submission_index,
};
use crate::arith::{clamp_i128, div_toward_zero};
use crate::grant::{
    anchor_of, claims_of, escrow_after_claims, grant_milestone_amount, lemma_crowdfunding_drains, grant_share, lemma_grant_milestones_total_share, milestone_claimed, paid_to,
    total_milestones,
};
use crate::whitelist::swap_remove_spec;
use crate::event_ops::PRIZE_CLAIM_WINDOW_SECS;
use crate::idempotency::sat_add_u64;
use crate::winners::{award_index, prize_amount, selection_recorded};

verus! {

/// Once a call with operation id `op` has succeeded for `domain`, the id
/// counts as seen for that domain: every later call that `domain` makes
/// with it is refused (`OpAlreadySeen` unless an earlier check fails).
pub proof fn law_used_op_ids_are_seen(c: EventsContract, domain: Account, op: OpId)
    requires
        c.seen_ops@.contains(SeenOp { domain, op }),
    ensures
        c.op_seen(domain, op),
{
}

/// A replayed creation is refused: with the contract not paused and the
/// owner's operation id already used, `create_event` answers `OpAlreadySeen`.
pub proof fn law_create_replay_refused(c: EventsContract, inv: Invocation, params: CreateEventParams, op: OpId)
    requires
        !c.paused,
        c.seen_ops@.contains(SeenOp { domain: params.owner, op }),
    ensures
        c.create_event_error(&inv, &params, op) == Some(Error::OpAlreadySeen),
{
}

/// Replayed contributions and submissions are refused the same way.
pub proof fn law_funding_and_submission_replay_refused(
    c: EventsContract,
    inv: Invocation,
    event_id: u64,
    who: Account,
    amount: i128,
    op: OpId,
)
    requires
        !c.paused,
        c.seen_ops@.contains(SeenOp { domain: who, op }),
    ensures
        c.add_funds_error(&inv, event_id, who, amount, op) == Some(Error::OpAlreadySeen),
        c.submit_error(&inv, event_id, who, op) == Some(Error::OpAlreadySeen),
        c.withdraw_submission_error(&inv, event_id, who, op) == Some(Error::OpAlreadySeen),
{
}

/// While the contract is paused, every state-changing event operation is
/// refused with `Paused`.
pub proof fn law_pause_stops_event_operations(
    c: EventsContract,
    inv: Invocation,
    event_id: u64,
    who: Account,
    amount: i128,
    position: u32,
    milestone: u32,
    max_refunds: u32,
    specs: Seq<WinnerSpec>,
    params: CreateEventParams,
    op: OpId,
)
    requires
        c.paused,
    ensures
        c.create_event_error(&inv, &params, op) == Some(Error::Paused),
        c.add_funds_error(&inv, event_id, who, amount, op) == Some(Error::Paused),
        c.submit_error(&inv, event_id, who, op) == Some(Error::Paused),
        c.withdraw_submission_error(&inv, event_id, who, op) == Some(Error::Paused),
        c.apply_error(&inv, event_id, who, op) == Some(Error::Paused),
        c.withdraw_application_error(&inv, event_id, who, op) == Some(Error::Paused),
        c.start_cancel_error(&inv, event_id, op) == Some(Error::Paused),
        c.process_cancel_error(event_id, op) == Some(Error::Paused),
        c.finalize_cancel_error(event_id, op) == Some(Error::Paused),
        c.select_winners_error(&inv, event_id, specs, op) == Some(Error::Paused),
        c.claim_prize_error(&inv, event_id, position, op) == Some(Error::Paused),
        c.claim_milestone_error(&inv, event_id, who, milestone, op) == Some(Error::Paused),
        c.set_manager_error(&inv, event_id) == Some(Error::Paused),
{
}

/// A cancelled or completed event is closed for good: no operation that
/// funds, enters, pays out or cancels it is accepted.
pub proof fn law_closed_events_are_frozen(
    c: EventsContract,
    inv: Invocation,
    event_id: u64,
    who: Account,
    amount: i128,
    position: u32,
    milestone: u32,
    specs: Seq<WinnerSpec>,
    op: OpId,
)
    requires
        c.has_event(event_id),
        c.entry(event_id).record.status == EventStatus::Cancelled || c.entry(event_id).record.status
            == EventStatus::Completed,
    ensures
        c.add_funds_error(&inv, event_id, who, amount, op) is Some,
        c.submit_error(&inv, event_id, who, op) is Some,
        c.withdraw_submission_error(&inv, event_id, who, op) is Some,
        c.apply_error(&inv, event_id, who, op) is Some,
        c.withdraw_application_error(&inv, event_id, who, op) is Some,
        c.start_cancel_error(&inv, event_id, op) is Some,
        c.process_cancel_error(event_id, op) is Some,
        c.finalize_cancel_error(event_id, op) is Some,
        c.select_winners_error(&inv, event_id, specs, op) is Some,
        c.claim_prize_error(&inv, event_id, position, op) is Some,
        c.claim_milestone_error(&inv, event_id, who, milestone, op) is Some,
{
}

/// Withdrawing undoes applying: an applicant appended to a slot list and
/// then removed leaves the list exactly as it was (the same holds for a
/// token registered and then deregistered).
pub proof fn law_withdraw_undoes_apply(s: Seq<Account>, who: Account)
    requires
        s.no_duplicates(),
        !s.contains(who),
    ensures
        swap_remove_spec(s.push(who), s.push(who).index_of(who)) == s,
{
    let t = s.push(who);
    let n = s.len() as int;
    assert(t[n] == who);
    assert(t.contains(who));
    let k = t.index_of(who);
    assert(t[k] == who);
    if k != n {
        assert(s[k] == who);
        assert(s.contains(who));
    }
    assert(swap_remove_spec(t, k) =~= s);
}

/// Sum of the prizes of every position of a distribution.
pub open spec fn prize_sum(dist: Seq<(u32, u32)>, base: i128) -> int
    decreases dist.len(),
{
    if dist.len() == 0 {
        0
    } else {
        prize_sum(dist.drop_last(), base) + prize_amount(base, dist.last().1)
    }
}

proof fn lemma_prize_sum_scaled(dist: Seq<(u32, u32)>, base: i128)
    requires
        base >= 0,
        forall|i: int| 0 <= i < dist.len() ==> base * dist[i].1 <= i128::MAX,
    ensures
        prize_sum(dist, base) * 100 <= base * value_sum(dist),
        prize_sum(dist, base) >= 0,
    decreases dist.len(),
{
    if dist.len() > 0 {
        let d = dist.drop_last();
        assert forall|i: int| 0 <= i < d.len() implies base * d[i].1 <= i128::MAX by {
            assert(d[i] == dist[i]);
        }
        lemma_prize_sum_scaled(d, base);
        let p = dist.last().1;
        assert(base * p >= 0) by (nonlinear_arith)
            requires
                base >= 0,
                p >= 0,
        ;
        assert(base * p <= i128::MAX);
        assert(prize_amount(base, p) == (base * p) / 100);
        assert(((base * p) / 100) * 100 <= base * p) by (nonlinear_arith)
            requires
                base * p >= 0,
        ;
        assert(((base * p) / 100) >= 0) by (nonlinear_arith)
            requires
                base * p >= 0,
        ;
        assert(base * (value_sum(d) + p) == base * value_sum(d) + base * p) by (nonlinear_arith);
    }
}

/// The prizes of a distribution whose percentages add up to 100 never add
/// up to more than the escrow they are shares of.
pub proof fn law_prizes_within_escrow(dist: Seq<(u32, u32)>, base: i128)
    requires
        keys_unique(dist),
        value_sum(dist) == 100,
        base >= 0,
        forall|i: int| 0 <= i < dist.len() ==> base * dist[i].1 <= i128::MAX,
    ensures
        0 <= prize_sum(dist, base) <= base,
{
    lemma_prize_sum_scaled(dist, base);
}

/// Two-step admin rotation: a proposed admin that signs before the proposal
/// lapses is accepted.
pub proof fn law_rotation_accepted_in_time(c: EventsContract, inv: Invocation, target: Account, proposed_at: u32)
    requires
        c.pending_admin == Some(
            PendingAdmin { target, expires_at_ledger: sat_add_u32(proposed_at, PENDING_ADMIN_TTL_LEDGERS) },
        ),
        inv.sequence <= sat_add_u32(proposed_at, PENDING_ADMIN_TTL_LEDGERS),
        inv.authorizes(target),
    ensures
        c.accept_admin_error(&inv) is None,
{
}

/// An upgrade applies only inside its window: before the timelock has
/// passed it is refused as too early, after the proposal lapsed as
/// expired.
pub proof fn law_upgrade_window(c: EventsContract, inv: Invocation, proposed_at: u32)
    requires
        c.admin_error(&inv) is None,
        c.pending_upgrade is Some,
        c.pending_upgrade->0.available_at_ledger == sat_add_u32(proposed_at, UPGRADE_TIMELOCK_LEDGERS),
        c.pending_upgrade->0.expires_at_ledger == sat_add_u32(proposed_at, PENDING_UPGRADE_TTL_LEDGERS),
    ensures
        c.apply_upgrade_error(&inv) is None <==> sat_add_u32(proposed_at, UPGRADE_TIMELOCK_LEDGERS) <= inv.sequence
            <= sat_add_u32(proposed_at, PENDING_UPGRADE_TTL_LEDGERS),
        inv.sequence < sat_add_u32(proposed_at, UPGRADE_TIMELOCK_LEDGERS) ==> c.apply_upgrade_error(&inv) == Some(
            Error::UpgradeTimelockNotElapsed,
        ),
        inv.sequence > sat_add_u32(proposed_at, PENDING_UPGRADE_TTL_LEDGERS) ==> c.apply_upgrade_error(&inv) == Some(
            Error::UpgradeProposalExpired,
        ),
{
}

/// A prize is paid once: after `claim_prize` paid the prize of `position`,
/// every later claim of that position is refused, whoever signs it and
/// whatever operation id it carries.
pub proof fn law_prize_paid_once(
    c0: EventsContract,
    c1: EventsContract,
    inv: Invocation,
    event_id: u64,
    position: u32,
    op: OpId,
    inv2: Invocation,
    op2: OpId,
)
    requires
        c0.wf(),
        c1.wf(),
        c0.claim_prize_error(&inv, event_id, position, op) is None,
        EventsContract::prize_claim_recorded(&c0, &c1, &inv, event_id, position, op),
    ensures
        c1.claim_prize_error(&inv2, event_id, position, op2) is Some,
{
    let k = c0.event_index(event_id);
    let e1 = c1.entry(event_id);
    assert(c1.events@[k] == e1);
    c1.lemma_index_of(event_id, k);
    let e0 = c0.entry(event_id);
    let award = e0.prize_awards@[award_index(e0.prize_awards@, position)];
    assert(e1.prize_awards == e0.prize_awards);
    let a = award.anchor_idx as int;
    assert(e1.winners@[a].paid_at is Some);
}

/// A grant milestone is paid once per recipient: after `claim_milestone`
/// paid milestone `milestone` to `recipient`, every later claim of it is
/// refused, whoever signs it and whatever operation id it carries.
pub proof fn law_milestone_paid_once(
    c0: EventsContract,
    c1: EventsContract,
    inv: Invocation,
    event_id: u64,
    recipient: Account,
    milestone: u32,
    op: OpId,
    inv2: Invocation,
    op2: OpId,
)
    requires
        c0.wf(),
        c1.wf(),
        c0.claim_milestone_error(&inv, event_id, recipient, milestone, op) is None,
        EventsContract::milestone_claim_recorded(&c0, &c1, &inv, event_id, recipient, milestone, op),
    ensures
        c1.claim_milestone_error(&inv2, event_id, recipient, milestone, op2) is Some,
{
    let k = c0.event_index(event_id);
    let e1 = c1.entry(event_id);
    assert(c1.events@[k] == e1);
    c1.lemma_index_of(event_id, k);
    let e0 = c0.entry(event_id);
    let claim = MilestoneClaim { recipient, milestone };
    assert(e1.claimed_milestones@[e0.claimed_milestones@.len() as int] == claim);
    assert(milestone_claimed(e1.claimed_milestones@, recipient, milestone));
}

/// The ids handed out by creations follow the counter: at step `k` of a run
/// of creations on a fresh deployment the counter stands at `base + 1 + k`.
proof fn lemma_ids_follow_counter(cs: Seq<EventsContract>, ids: Seq<u64>, k: int)
    requires
        cs.len() == ids.len() + 1,
        cs[0].next_event_id is None,
        forall|j: int| 0 <= j < ids.len() ==> EventsContract::id_issued(&cs[j], &cs[j + 1], #[trigger] ids[j]),
        0 <= k <= ids.len(),
    ensures
        cs[k].deployment_seq == cs[0].deployment_seq,
        cs[k].next_id_spec() == cs[0].id_base_spec() + 1 + k,
    decreases k,
{
    let s = cs[0].deployment_seq as int;
    assert(s * 0x1_0000_0000 <= 0xFFFF_FFFF * 0x1_0000_0000) by (nonlinear_arith)
        requires
            0 <= s <= 0xFFFF_FFFF,
    ;
    if k > 0 {
        lemma_ids_follow_counter(cs, ids, k - 1);
        assert(EventsContract::id_issued(&cs[k - 1], &cs[k], ids[k - 1]));
    }
}

/// Successive creations on a fresh deployment hand out the ids
/// `base + 1, base + 2, …` in call order, where `base` is the deployment
/// ledger in the high 32 bits: distinct and strictly increasing.
pub proof fn law_ids_issued_in_order(cs: Seq<EventsContract>, ids: Seq<u64>)
    requires
        cs.len() == ids.len() + 1,
        cs[0].next_event_id is None,
        forall|j: int| 0 <= j < ids.len() ==> EventsContract::id_issued(&cs[j], &cs[j + 1], #[trigger] ids[j]),
    ensures
        forall|j: int| 0 <= j < ids.len() ==> #[trigger] ids[j] == cs[0].id_base_spec() + 1 + j,
        forall|i: int, j: int| 0 <= i < j < ids.len() ==> ids[i] < ids[j],
        cs[0].id_base_spec() % 0x1_0000_0000 == 0,
{
    assert forall|j: int| 0 <= j < ids.len() implies #[trigger] ids[j] == cs[0].id_base_spec() + 1 + j by {
        lemma_ids_follow_counter(cs, ids, j);
        assert(EventsContract::id_issued(&cs[j], &cs[j + 1], ids[j]));
    }
    let s = cs[0].deployment_seq as int;
    assert((s * 0x1_0000_0000) % 0x1_0000_0000 == 0) by (nonlinear_arith);
    assert(s * 0x1_0000_0000 <= 0xFFFF_FFFF * 0x1_0000_0000) by (nonlinear_arith)
        requires
            0 <= s <= 0xFFFF_FFFF,
    ;
}

/// A resubmission replaces the content and keeps the time of the first
/// submission: `applicant` submits `uri1` at `inv1.timestamp`, then `uri2`;
/// the stored submission holds `uri2` stamped `inv1.timestamp`.
pub proof fn law_resubmission_keeps_first_time(
    c0: EventsContract,
    c1: EventsContract,
    c2: EventsContract,
    inv1: Invocation,
    inv2: Invocation,
    event_id: u64,
    applicant: Account,
    uri1: Vec<u8>,
    uri2: Vec<u8>,
    op1: OpId,
    op2: OpId,
)
    requires
        c0.has_event(event_id),
        !has_submission(c0.entry(event_id).submissions@, applicant),
        EventsContract::submission_recorded(&c0, &c1, &inv1, event_id, applicant, uri1, op1),
        EventsContract::submission_recorded(&c1, &c2, &inv2, event_id, applicant, uri2, op2),
    ensures
        has_submission(c2.entry(event_id).submissions@, applicant),
        c2.entry(event_id).submissions@[submission_index(c2.entry(event_id).submissions@, applicant)].content_uri@ == uri2@,
        c2.entry(event_id).submissions@[submission_index(c2.entry(event_id).submissions@, applicant)].submitted_at
            == inv1.timestamp,
{
}

/// Sum of the amounts of a run of top-ups `(from, amount)`.
pub open spec fn topup_total(calls: Seq<(Account, i128)>) -> int
    decreases calls.len(),
{
    if calls.len() == 0 {
        0
    } else {
        topup_total(calls.drop_last()) + calls.last().1
    }
}

/// Sum of the top-ups made by `who`.
pub open spec fn topup_by(calls: Seq<(Account, i128)>, who: Account) -> int
    decreases calls.len(),
{
    if calls.len() == 0 {
        0
    } else {
        topup_by(calls.drop_last(), who) + if calls.last().0 == who { calls.last().1 as int } else { 0 }
    }
}

/// Sum of the top-ups made by anyone but `owner`.
pub open spec fn topup_by_partners(calls: Seq<(Account, i128)>, owner: Account) -> int
    decreases calls.len(),
{
    if calls.len() == 0 {
        0
    } else {
        topup_by_partners(calls.drop_last(), owner) + if calls.last().0 != owner { calls.last().1 as int } else { 0 }
    }
}

/// The partner total of an entry, counting an unset total as zero.
pub open spec fn partner_total(e: EventEntry) -> int {
    match e.non_owner_total {
        Some(t) => t as int,
        None => 0,
    }
}

/// With positive amounts, a prefix of a run sums to no more than the run.
proof fn lemma_topup_prefix(calls: Seq<(Account, i128)>, k: int, who: Account, owner: Account)
    requires
        forall|j: int| 0 <= j < calls.len() ==> (#[trigger] calls[j]).1 > 0,
        0 <= k <= calls.len(),
    ensures
        topup_total(calls.subrange(0, k)) <= topup_total(calls),
        topup_by(calls.subrange(0, k), who) <= topup_by(calls, who),
        topup_by_partners(calls.subrange(0, k), owner) <= topup_by_partners(calls, owner),
    decreases calls.len(),
{
    if k == calls.len() {
        assert(calls.subrange(0, k) =~= calls);
    } else {
        let d = calls.drop_last();
        assert(d.subrange(0, k) =~= calls.subrange(0, k));
        assert(calls.last() == calls[calls.len() - 1]);
        lemma_topup_prefix(d, k, who, owner);
    }
}

/// Crediting a partner adds the amount to that partner's running
/// contribution and lists it; every other contribution stays.
proof fn lemma_credit_contribution(s: Seq<Contribution>, w: Account, a: i128, who: Account)
    requires
        contributors_unique(s),
        contributors_unique(contributors_after_credit(s, w, a)),
        a > 0,
        contribution_of(s, w) + a <= i128::MAX,
    ensures
        contribution_of(contributors_after_credit(s, w, a), who) == contribution_of(s, who) + if who == w { a as int } else { 0 },
        is_contributor(contributors_after_credit(s, w, a), who) <==> (is_contributor(s, who) || who == w),
{
    let r = contributors_after_credit(s, w, a);
    if is_contributor(s, w) {
        let k = choose|k: int| 0 <= k < s.len() && s[k].contributor == w;
        lemma_contribution_at(s, w, k);
        assert(r[k].contributor == w);
        if who == w {
            lemma_contribution_at(r, w, k);
        } else if is_contributor(s, who) {
            let i = choose|i: int| 0 <= i < s.len() && s[i].contributor == who;
            assert(r[i] == s[i]);
            lemma_contribution_at(s, who, i);
            lemma_contribution_at(r, who, i);
        } else {
            assert forall|i: int| 0 <= i < r.len() implies r[i].contributor != who by {
                if i != k {
                    assert(r[i] == s[i]);
                }
            }
            lemma_contribution_absent(s, who);
            lemma_contribution_absent(r, who);
        }
    } else {
        let n = s.len() as int;
        assert(r.drop_last() =~= s);
        assert(r[n].contributor == w);
        if who == w {
            lemma_contribution_at(r, w, n);
            lemma_contribution_absent(s, w);
        } else if is_contributor(s, who) {
            let i = choose|i: int| 0 <= i < s.len() && s[i].contributor == who;
            assert(r[i] == s[i]);
        } else {
            assert forall|i: int| 0 <= i < r.len() implies r[i].contributor != who by {
                if i < n {
                    assert(r[i] == s[i]);
                }
            }
        }
    }
}

/// The first `k` top-ups of a run, as the law states them.
#[verifier::rlimit(40)]
proof fn lemma_topup_run(cs: Seq<EventsContract>, id: u64, calls: Seq<(Account, i128)>, ops: Seq<OpId>, k: int)
    requires
        cs.len() == calls.len() + 1,
        ops.len() == calls.len(),
        forall|j: int| 0 <= j < cs.len() ==> (#[trigger] cs[j]).wf(),
        forall|j: int| 0 <= j < calls.len() ==> (#[trigger] calls[j]).1 > 0,
        forall|j: int| 0 <= j < calls.len() ==> EventsContract::funds_added(#[trigger] &cs[j], &cs[j + 1], id, calls[j].0, calls[j].1, ops[j]),
        cs[0].has_event(id),
        cs[0].entry(id).record.remaining_escrow + topup_total(calls) <= i128::MAX,
        partner_total(cs[0].entry(id)) + topup_by_partners(calls, cs[0].entry(id).record.owner) <= i128::MAX,
        forall|who: Account| contribution_of(cs[0].entry(id).contributors@, who) + #[trigger] topup_by(calls, who) <= i128::MAX,
        0 <= k <= calls.len(),
    ensures
        cs[k].has_event(id),
        cs[k].entry(id).record.owner == cs[0].entry(id).record.owner,
        cs[k].entry(id).record.remaining_escrow == cs[0].entry(id).record.remaining_escrow + topup_total(calls.subrange(0, k)),
        partner_total(cs[k].entry(id)) == partner_total(cs[0].entry(id)) + topup_by_partners(calls.subrange(0, k),
            cs[0].entry(id).record.owner),
        forall|who: Account| who != cs[0].entry(id).record.owner ==> #[trigger] contribution_of(cs[k].entry(id).contributors@, who)
            == contribution_of(cs[0].entry(id).contributors@, who) + topup_by(calls.subrange(0, k), who),
        forall|who: Account| #[trigger] is_contributor(cs[k].entry(id).contributors@, who) <==> (is_contributor(
            cs[0].entry(id).contributors@, who) || (who != cs[0].entry(id).record.owner && topup_by(calls.subrange(0, k), who) > 0)),
        contribution_of(cs[k].entry(id).contributors@, cs[0].entry(id).record.owner) == contribution_of(cs[0].entry(id).contributors@,
            cs[0].entry(id).record.owner),
    decreases k,
{
    if k > 0 {
        let j = k - 1;
        lemma_topup_run(cs, id, calls, ops, j);
        let owner = cs[0].entry(id).record.owner;
        let (w, a) = (calls[j].0, calls[j].1);
        assert(calls[j].1 > 0);
        assert(EventsContract::funds_added(&cs[j], &cs[j + 1], id, w, a, ops[j]));
        assert(cs[j].wf());
        assert(cs[k].wf());
        let pre = calls.subrange(0, k);
        let sub = calls.subrange(0, j);
        assert(pre.drop_last() =~= sub);
        assert(pre.last() == calls[j]);
        lemma_topup_prefix(calls, k, w, owner);
        assert(topup_total(pre) == topup_total(sub) + a);
        assert(topup_by_partners(pre, owner) == topup_by_partners(sub, owner) + if w != owner { a as int } else { 0 });
        assert(topup_by(pre, w) == topup_by(sub, w) + a);
        assert(contribution_of(cs[0].entry(id).contributors@, w) + topup_by(calls, w) <= i128::MAX);
        lemma_topup_step(cs[j], cs[k], id, w, a, ops[j]);
        assert forall|who: Account| who != owner implies #[trigger] contribution_of(cs[k].entry(id).contributors@, who)
            == contribution_of(cs[0].entry(id).contributors@, who) + topup_by(pre, who) by {
            assert(topup_by(pre, who) == topup_by(sub, who) + if w == who { a as int } else { 0 });
        }
        assert forall|who: Account| #[trigger] is_contributor(cs[k].entry(id).contributors@, who) <==> (is_contributor(
            cs[0].entry(id).contributors@, who) || (who != owner && topup_by(pre, who) > 0)) by {
            assert(topup_by(pre, who) == topup_by(sub, who) + if w == who { a as int } else { 0 });
            lemma_topup_nonneg(sub, who);
        }
    }
}

/// With positive amounts, the top-ups of anyone sum to a non-negative amount.
proof fn lemma_topup_nonneg(calls: Seq<(Account, i128)>, who: Account)
    requires
        forall|j: int| 0 <= j < calls.len() ==> (#[trigger] calls[j]).1 > 0,
    ensures
        topup_by(calls, who) >= 0,
    decreases calls.len(),
{
    if calls.len() > 0 {
        assert(calls.last() == calls[calls.len() - 1]);
        lemma_topup_nonneg(calls.drop_last(), who);
    }
}

/// One top-up by `w` of `a`, not saturating: the escrow grows by `a`, and a
/// partner's contribution and the partner total grow by `a`.
proof fn lemma_topup_step(c0: EventsContract, c1: EventsContract, id: u64, w: Account, a: i128, op: OpId)
    requires
        c0.wf(),
        c1.wf(),
        c0.has_event(id),
        a > 0,
        EventsContract::funds_added(&c0, &c1, id, w, a, op),
        c0.entry(id).record.remaining_escrow + a <= i128::MAX,
        w != c0.entry(id).record.owner ==> partner_total(c0.entry(id)) + a <= i128::MAX,
        w != c0.entry(id).record.owner ==> contribution_of(c0.entry(id).contributors@, w) + a <= i128::MAX,
    ensures
        c1.has_event(id),
        c1.entry(id).record.owner == c0.entry(id).record.owner,
        c1.entry(id).record.remaining_escrow == c0.entry(id).record.remaining_escrow + a,
        partner_total(c1.entry(id)) == partner_total(c0.entry(id)) + if w != c0.entry(id).record.owner { a as int } else { 0 },
        forall|who: Account| #[trigger] contribution_of(c1.entry(id).contributors@, who) == contribution_of(c0.entry(id).contributors@, who)
            + if who == w && w != c0.entry(id).record.owner { a as int } else { 0 },
        forall|who: Account| #[trigger] is_contributor(c1.entry(id).contributors@, who) <==> (is_contributor(c0.entry(id).contributors@, who)
            || (who == w && w != c0.entry(id).record.owner)),
        contributors_unique(c1.entry(id).contributors@),
{
    let e0 = c0.entry(id);
    let e1 = c1.entry(id);
    let p = c0.event_index(id);
    c0.lemma_index_of(id, p);
    assert(c0.events@[p].wf());
    assert(c1.events@[p] == e1) by {
        assert(c1.events@[p].record.id == id);
        c1.lemma_index_of(id, p);
    }
    assert(c1.events@[p].wf());
    if w != e0.record.owner {
        assert forall|who: Account| #[trigger] contribution_of(e1.contributors@, who)
            == contribution_of(e0.contributors@, who) + if who == w { a as int } else { 0 } by {
            lemma_credit_contribution(e0.contributors@, w, a, who);
        }
        assert forall|who: Account| #[trigger] is_contributor(e1.contributors@, who)
            <==> (is_contributor(e0.contributors@, who) || who == w) by {
            lemma_credit_contribution(e0.contributors@, w, a, who);
        }
    }
}

/// A run of top-ups adds up: the escrow grows by every amount, the partner
/// total by the partners' amounts, and each partner is listed once with the
/// sum of its own top-ups, while the owner's top-ups add no contributor
/// entry. Stated for runs whose running totals fit in an `i128`.
pub proof fn law_topups_add_up(cs: Seq<EventsContract>, invs: Seq<Invocation>, id: u64, calls: Seq<(Account, i128)>, ops: Seq<OpId>)
    requires
        cs.len() == calls.len() + 1,
        ops.len() == calls.len(),
        invs.len() == calls.len(),
        forall|j: int| 0 <= j < cs.len() ==> (#[trigger] cs[j]).wf(),
        forall|j: int| 0 <= j < calls.len() ==> (#[trigger] cs[j]).add_funds_error(&invs[j], id, calls[j].0, calls[j].1, ops[j]) is None,
        forall|j: int| 0 <= j < calls.len() ==> EventsContract::funds_added(#[trigger] &cs[j], &cs[j + 1], id, calls[j].0, calls[j].1, ops[j]),
        cs[0].has_event(id),
        cs[0].entry(id).record.remaining_escrow + topup_total(calls) <= i128::MAX,
        partner_total(cs[0].entry(id)) + topup_by_partners(calls, cs[0].entry(id).record.owner) <= i128::MAX,
        forall|who: Account| contribution_of(cs[0].entry(id).contributors@, who) + #[trigger] topup_by(calls, who) <= i128::MAX,
    ensures
        ({
            let n = calls.len() as int;
            let e0 = cs[0].entry(id);
            let e = cs[n].entry(id);
            let owner = e0.record.owner;
            &&& e.record.remaining_escrow == e0.record.remaining_escrow + topup_total(calls)
            &&& partner_total(e) == partner_total(e0) + topup_by_partners(calls, owner)
            &&& contributors_unique(e.contributors@)
            &&& forall|who: Account| who != owner ==> #[trigger] contribution_of(e.contributors@, who)
                == contribution_of(e0.contributors@, who) + topup_by(calls, who)
            &&& forall|who: Account| #[trigger] is_contributor(e.contributors@, who) <==> (is_contributor(e0.contributors@, who) || (who
                != owner && topup_by(calls, who) > 0))
            &&& contribution_of(e.contributors@, owner) == contribution_of(e0.contributors@, owner)
        }),
{
    let n = calls.len() as int;
    assert forall|j: int| 0 <= j < calls.len() implies (#[trigger] calls[j]).1 > 0 by {
        assert(cs[j].add_funds_error(&invs[j], id, calls[j].0, calls[j].1, ops[j]) is None);
    }
    lemma_topup_run(cs, id, calls, ops, n);
    assert(calls.subrange(0, n) =~= calls);
    let p = cs[n].event_index(id);
    cs[n].lemma_index_of(id, p);
    assert(cs[n].events@[p].wf());
}

/// The claim expiry of an entry, zero when none was set.
pub open spec fn expiry_of(e: EventEntry) -> u64 {
    match e.prize_claim_expiry {
        Some(t) => t,
        None => 0,
    }
}

/// The claim expiry after selection batches at `times`, starting from
/// `cur`: each batch pushes it to its own time plus the claim window when
/// that is later.
pub open spec fn window_after(cur: u64, times: Seq<u64>) -> u64
    decreases times.len(),
{
    if times.len() == 0 {
        cur
    } else {
        let c = window_after(cur, times.drop_last());
        let x = sat_add_u64(times.last(), PRIZE_CLAIM_WINDOW_SECS);
        if x > c {
            x
        } else {
            c
        }
    }
}

proof fn lemma_window_run(es: Seq<EventEntry>, specs: Seq<Seq<WinnerSpec>>, times: Seq<u64>, k: int)
    requires
        es.len() == times.len() + 1,
        specs.len() == times.len(),
        es[0].record.release_kind == ReleaseKind::Single,
        forall|j: int| 0 <= j < times.len() ==> selection_recorded(#[trigger] es[j], es[j + 1], specs[j], times[j]),
        0 <= k <= times.len(),
    ensures
        es[k].record.release_kind == ReleaseKind::Single,
        expiry_of(es[k]) == window_after(expiry_of(es[0]), times.subrange(0, k)),
        es[k].unclaimed_prizes >= es[0].unclaimed_prizes,
        forall|j: int| 0 <= j < k ==> expiry_of(es[k]) >= sat_add_u64(#[trigger] times[j], PRIZE_CLAIM_WINDOW_SECS),
    decreases k,
{
    if k > 0 {
        let j = k - 1;
        lemma_window_run(es, specs, times, j);
        assert(selection_recorded(es[j], es[j + 1], specs[j], times[j]));
        let pre = times.subrange(0, k);
        assert(pre.drop_last() =~= times.subrange(0, j));
        assert(pre.last() == times[j]);
    }
}

/// The claim window follows the latest batch: after a run of selection
/// batches on a single-release event, the claim expiry is the latest of its
/// earlier value and each batch's time plus the claim window, so a later
/// batch keeps cancellation blocked past an earlier batch's expiry.
pub proof fn law_claim_window_follows_latest_batch(es: Seq<EventEntry>, specs: Seq<Seq<WinnerSpec>>, times: Seq<u64>)
    requires
        es.len() == times.len() + 1,
        specs.len() == times.len(),
        es[0].record.release_kind == ReleaseKind::Single,
        forall|j: int| 0 <= j < times.len() ==> selection_recorded(#[trigger] es[j], es[j + 1], specs[j], times[j]),
    ensures
        expiry_of(es[times.len() as int]) == window_after(expiry_of(es[0]), times),
        forall|j: int| 0 <= j < times.len() ==> expiry_of(es[times.len() as int]) >= sat_add_u64(
            #[trigger] times[j],
            PRIZE_CLAIM_WINDOW_SECS,
        ),
        es[times.len() as int].unclaimed_prizes >= es[0].unclaimed_prizes,
{
    let n = times.len() as int;
    lemma_window_run(es, specs, times, n);
    assert(times.subrange(0, n) =~= times);
}

/// Cancellation waits for the claim window: on an active single-release
/// event with unclaimed prizes, whose cancellation would otherwise pass the
/// earlier checks, `start_cancel` is refused with `WinnersAlreadySelected`
/// exactly while the ledger time has not passed the claim expiry.
pub proof fn law_cancel_waits_for_claim_window(c: EventsContract, inv: Invocation, event_id: u64, op: OpId)
    requires
        !c.paused,
        c.has_event(event_id),
        !c.op_seen(EventsContract::manager_of(&c.entry(event_id)), op),
        c.entry(event_id).record.status == EventStatus::Active,
        c.entry(event_id).cancellation is None,
        c.entry(event_id).record.release_kind == ReleaseKind::Single,
        c.entry(event_id).unclaimed_prizes > 0,
    ensures
        c.start_cancel_error(&inv, event_id, op) == Some(Error::WinnersAlreadySelected) <==> inv.timestamp <= expiry_of(
            c.entry(event_id),
        ),
{
}

/// A recipient's share of a grant, as its anchor row and the distribution
/// give it.
pub open spec fn recipient_share(e: EventEntry, r: Account) -> i128 {
    let pos = (anchor_of(e.winners@, r)->0).0;
    grant_share(e.record.total_budget, lookup(e.record.winner_distribution.entries@, pos)->0)
}

/// One accepted grant claim appends a paid row for `r`: its claim count
/// grows by one, the amount is added to what it was paid, and its anchor,
/// the record's budget, distribution, pillar and release kind stay.
proof fn lemma_grant_claim_step(c0: EventsContract, c1: EventsContract, inv: Invocation, id: u64, r: Account, m: u32, op: OpId)
    requires
        EventsContract::milestone_claim_recorded(&c0, &c1, &inv, id, r, m, op),
        c0.entry(id).record.pillar != Pillar::Crowdfunding,
    ensures
        claims_of(c1.entry(id).winners@, r) == claims_of(c0.entry(id).winners@, r) + 1,
        paid_to(c1.entry(id).winners@, r) == clamp_i128(paid_to(c0.entry(id).winners@, r) + EventsContract::milestone_amount(
            &c0.entry(id),
            r,
        )),
        anchor_of(c1.entry(id).winners@, r) == anchor_of(c0.entry(id).winners@, r),
        c1.entry(id).record.total_budget == c0.entry(id).record.total_budget,
        c1.entry(id).record.winner_distribution == c0.entry(id).record.winner_distribution,
        c1.entry(id).record.pillar == c0.entry(id).record.pillar,
        c1.entry(id).record.release_kind == c0.entry(id).record.release_kind,
        recipient_share(c1.entry(id), r) == recipient_share(c0.entry(id), r),
{
    let w0 = c0.entry(id).winners@;
    let w1 = c1.entry(id).winners@;
    assert(w1.drop_last() =~= w0);
}

proof fn lemma_grant_run(cs: Seq<EventsContract>, invs: Seq<Invocation>, id: u64, r: Account, ms: Seq<u32>, ops: Seq<OpId>, k: int)
    requires
        cs.len() == ms.len() + 1,
        invs.len() == ms.len(),
        ops.len() == ms.len(),
        cs[0].entry(id).record.pillar != Pillar::Crowdfunding,
        claims_of(cs[0].entry(id).winners@, r) == 0,
        paid_to(cs[0].entry(id).winners@, r) == 0,
        recipient_share(cs[0].entry(id), r) >= 0,
        total_milestones(cs[0].entry(id).record.release_kind) > 0,
        ms.len() <= total_milestones(cs[0].entry(id).record.release_kind),
        forall|j: int| 0 <= j < ms.len() ==> EventsContract::milestone_claim_recorded(#[trigger] &cs[j], &cs[j + 1], &invs[j], id, r, ms[j], ops[j]),
        0 <= k <= ms.len(),
    ensures
        ({
            let e0 = cs[0].entry(id);
            let n = total_milestones(e0.record.release_kind);
            let share = recipient_share(e0, r);
            let per = div_toward_zero(share as int, n as int);
            &&& cs[k].entry(id).record.pillar == e0.record.pillar
            &&& cs[k].entry(id).record.release_kind == e0.record.release_kind
            &&& recipient_share(cs[k].entry(id), r) == share
            &&& claims_of(cs[k].entry(id).winners@, r) == k
            &&& paid_to(cs[k].entry(id).winners@, r) == if k == n { share as int } else { k * per }
            &&& forall|j: int| 0 <= j < k ==> #[trigger] EventsContract::milestone_amount(&cs[j].entry(id), r) == if j == n - 1 {
                share - (n - 1) * per
            } else {
                per
            }
        }),
    decreases k,
{
    let e0 = cs[0].entry(id);
    let n = total_milestones(e0.record.release_kind);
    let share = recipient_share(e0, r);
    let per = div_toward_zero(share as int, n as int);
    lemma_grant_milestones_total_share(share, n);
    if k > 0 {
        let j = k - 1;
        lemma_grant_run(cs, invs, id, r, ms, ops, j);
        assert(EventsContract::milestone_claim_recorded(&cs[j], &cs[j + 1], &invs[j], id, r, ms[j], ops[j]));
        lemma_grant_claim_step(cs[j], cs[k], invs[j], id, r, ms[j], ops[j]);
        assert(0 <= j * per <= (n - 1) * per) by (nonlinear_arith)
            requires
                0 <= j <= n - 1,
                per >= 0,
        ;
        assert(j * per + per == (j + 1) * per) by (nonlinear_arith);
        assert(grant_milestone_amount(share, n, j, (j * per) as i128) == if j == n - 1 { share - (n - 1) * per } else { per });
    }
}

/// Grant milestones pay exactly the share: a recipient claiming the
/// milestones of a grant one after another is paid `share / n` per
/// milestone, and the last of the `n` milestones pays the rest, so it
/// receives exactly its share. Stated for a recipient with nothing claimed
/// yet and runs of at most `n` claims.
pub proof fn law_grant_milestones_pay_the_share(
    cs: Seq<EventsContract>,
    invs: Seq<Invocation>,
    id: u64,
    r: Account,
    ms: Seq<u32>,
    ops: Seq<OpId>,
)
    requires
        cs.len() == ms.len() + 1,
        invs.len() == ms.len(),
        ops.len() == ms.len(),
        ms.len() > 0,
        cs[0].entry(id).record.pillar != Pillar::Crowdfunding,
        claims_of(cs[0].entry(id).winners@, r) == 0,
        paid_to(cs[0].entry(id).winners@, r) == 0,
        ms.len() <= total_milestones(cs[0].entry(id).record.release_kind),
        forall|j: int| 0 <= j < ms.len() ==> (#[trigger] cs[j]).claim_milestone_error(&invs[j], id, r, ms[j], ops[j]) is None,
        forall|j: int| 0 <= j < ms.len() ==> EventsContract::milestone_claim_recorded(#[trigger] &cs[j], &cs[j + 1], &invs[j], id, r, ms[j], ops[j]),
    ensures
        ({
            let e0 = cs[0].entry(id);
            let n = total_milestones(e0.record.release_kind);
            let share = recipient_share(e0, r);
            let per = div_toward_zero(share as int, n as int);
            let k = ms.len() as int;
            &&& forall|j: int| 0 <= j < k ==> #[trigger] EventsContract::milestone_amount(&cs[j].entry(id), r) == if j == n - 1 {
                share - (n - 1) * per
            } else {
                per
            }
            &&& paid_to(cs[k].entry(id).winners@, r) == if k == n { share as int } else { k * per }
        }),
{
    let e0 = cs[0].entry(id);
    let n = total_milestones(e0.record.release_kind);
    let share = recipient_share(e0, r);
    assert(cs[0].claim_milestone_error(&invs[0], id, r, ms[0], ops[0]) is None);
    assert(n > 0);
    let per = div_toward_zero(share as int, n as int);
    // The first claim pays a positive amount, so the share is not negative.
    assert(EventsContract::milestone_amount(&e0, r) > 0);
    assert(share >= 0) by {
        if share < 0 {
            assert(per <= 0);
        }
    }
    lemma_grant_run(cs, invs, id, r, ms, ops, ms.len() as int);
}

/// Gross amount paid by the first `k` claims of a run.
pub open spec fn claims_paid(cs: Seq<EventsContract>, id: u64, rs: Seq<Account>, k: int) -> int
    decreases k,
{
    if k <= 0 {
        0
    } else {
        claims_paid(cs, id, rs, k - 1) + EventsContract::milestone_amount(&cs[k - 1].entry(id), rs[k - 1])
    }
}

proof fn lemma_crowdfunding_run(
    cs: Seq<EventsContract>,
    invs: Seq<Invocation>,
    id: u64,
    rs: Seq<Account>,
    ms: Seq<u32>,
    ops: Seq<OpId>,
    k: int,
)
    requires
        cs.len() == ms.len() + 1,
        invs.len() == ms.len(),
        ops.len() == ms.len(),
        rs.len() == ms.len(),
        cs[0].entry(id).record.pillar == Pillar::Crowdfunding,
        forall|j: int| 0 <= j < ms.len() ==> (#[trigger] cs[j]).claim_milestone_error(&invs[j], id, rs[j], ms[j], ops[j]) is None,
        forall|j: int| 0 <= j < ms.len() ==> EventsContract::milestone_claim_recorded(#[trigger] &cs[j], &cs[j + 1], &invs[j], id, rs[j], ms[j], ops[j]),
        0 <= k <= ms.len(),
    ensures
        ({
            let e0 = cs[0].entry(id);
            let n = total_milestones(e0.record.release_kind);
            let left = n - e0.crowdfunding_claimed;
            let e = cs[k].entry(id);
            &&& e.record.pillar == Pillar::Crowdfunding
            &&& e.record.release_kind == e0.record.release_kind
            &&& e.crowdfunding_claimed == e0.crowdfunding_claimed + k
            &&& k > 0 ==> k <= left
            &&& e.record.remaining_escrow == escrow_after_claims(e0.record.remaining_escrow, left, k as nat)
            &&& claims_paid(cs, id, rs, k) == e0.record.remaining_escrow - e.record.remaining_escrow
        }),
    decreases k,
{
    if k > 0 {
        let j = k - 1;
        lemma_crowdfunding_run(cs, invs, id, rs, ms, ops, j);
        assert(cs[j].claim_milestone_error(&invs[j], id, rs[j], ms[j], ops[j]) is None);
        assert(EventsContract::milestone_claim_recorded(&cs[j], &cs[j + 1], &invs[j], id, rs[j], ms[j], ops[j]));
    }
}

/// Crowdfunding milestones drain the escrow exactly: claimed one after
/// another with no top-ups between them, each pays an equal part of what is
/// left for the milestones left (the last one everything), so the gross
/// amounts paid add up to the escrow held before the first claim, which is
/// empty once every milestone is paid.
pub proof fn law_crowdfunding_milestones_drain_escrow(
    cs: Seq<EventsContract>,
    invs: Seq<Invocation>,
    id: u64,
    rs: Seq<Account>,
    ms: Seq<u32>,
    ops: Seq<OpId>,
)
    requires
        cs.len() == ms.len() + 1,
        invs.len() == ms.len(),
        ops.len() == ms.len(),
        rs.len() == ms.len(),
        cs[0].entry(id).record.pillar == Pillar::Crowdfunding,
        forall|j: int| 0 <= j < ms.len() ==> (#[trigger] cs[j]).claim_milestone_error(&invs[j], id, rs[j], ms[j], ops[j]) is None,
        forall|j: int| 0 <= j < ms.len() ==> EventsContract::milestone_claim_recorded(#[trigger] &cs[j], &cs[j + 1], &invs[j], id, rs[j], ms[j], ops[j]),
    ensures
        ({
            let e0 = cs[0].entry(id);
            let n = total_milestones(e0.record.release_kind);
            let left = n - e0.crowdfunding_claimed;
            let k = ms.len() as int;
            let e = cs[k].entry(id);
            &&& k > 0 ==> k <= left
            &&& claims_paid(cs, id, rs, k) == e0.record.remaining_escrow - e.record.remaining_escrow
            &&& k > 0 && k == left ==> e.record.remaining_escrow == 0 && claims_paid(cs, id, rs, k) == e0.record.remaining_escrow
        }),
{
    let k = ms.len() as int;
    lemma_crowdfunding_run(cs, invs, id, rs, ms, ops, k);
    if k > 0 {
        let e0 = cs[0].entry(id);
        let n = total_milestones(e0.record.release_kind);
        assert(cs[0].claim_milestone_error(&invs[0], id, rs[0], ms[0], ops[0]) is None);
        lemma_crowdfunding_drains(e0.record.remaining_escrow, n - e0.crowdfunding_claimed, k as nat);
    }
}

/// A grant claim by one recipient changes nothing another recipient is
/// owed: after `w` is paid a milestone, every other recipient `v` has the
/// same number of paid milestones, has been paid the same, keeps its anchor,
/// and its next milestone pays the same as before. So, with claims of
/// several recipients interleaved, each is still paid its share in `n`
/// parts.
pub proof fn law_grant_claim_leaves_other_recipients(
    c0: EventsContract,
    c1: EventsContract,
    inv: Invocation,
    id: u64,
    w: Account,
    m: u32,
    op: OpId,
    v: Account,
)
    requires
        EventsContract::milestone_claim_recorded(&c0, &c1, &inv, id, w, m, op),
        c0.entry(id).record.pillar != Pillar::Crowdfunding,
        v != w,
    ensures
        claims_of(c1.entry(id).winners@, v) == claims_of(c0.entry(id).winners@, v),
        paid_to(c1.entry(id).winners@, v) == paid_to(c0.entry(id).winners@, v),
        anchor_of(c1.entry(id).winners@, v) == anchor_of(c0.entry(id).winners@, v),
        EventsContract::milestone_amount(&c1.entry(id), v) == EventsContract::milestone_amount(&c0.entry(id), v),
        claims_of(c1.entry(id).winners@, w) == claims_of(c0.entry(id).winners@, w) + 1,
{
    let w0 = c0.entry(id).winners@;
    let w1 = c1.entry(id).winners@;
    assert(w1.drop_last() =~= w0);
    assert(w1.last().recipient == w);
}

} // verus!
