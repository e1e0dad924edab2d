use vstd::prelude::*;

use crate::campaigns::{first_milestone, has_milestone, released_milestones, Milestone, MilestoneStatus, Status};
use crate::project_funding::{backer_row_index, credit_backer, has_backer_row, lemma_row_le_sum, payout_sum, refund_payouts};
use crate::project_votes::{has_vote, vote_index};
use crate::projects::{
    backer_rows_sum, backer_rows_unique, contribution_sum, token_sum, BackerContribution, BoundlessContract, Project, ProjectEntry,
    ProjectStatus,
};
use crate::types::{Account, Invocation};

verus! {

/// Withdrawing a vote undoes casting it: a project voted on and then
/// withdrawn from by the same voter has its votes, and every other field,
/// exactly as before the vote.
pub proof fn law_withdraw_vote_undoes_vote(
    c0: BoundlessContract,
    c1: BoundlessContract,
    c2: BoundlessContract,
    id: Seq<u8>,
    voter: Account,
    value: i32,
)
    requires
        c0.wf(),
        c1.wf(),
        c0.has_project(id),
        !has_vote(c0.entry(id).project.votes@, voter),
        BoundlessContract::vote_recorded(&c0, &c1, id, voter, value),
        BoundlessContract::vote_withdrawn(&c1, &c2, id, voter),
    ensures
        c2.entry(id).project.votes@ == c0.entry(id).project.votes@,
        c2.entry(id) == (ProjectEntry {
            project: Project { votes: c2.entry(id).project.votes, ..c0.entry(id).project },
            ..c0.entry(id)
        }),
        c2.projects@.len() == c0.projects@.len(),
        c2.whitelists == c0.whitelists,
        c2.admin == c0.admin,
        c2.version == c0.version,
        c2.initialized == c0.initialized,
{
    let k = c0.project_index(id);
    c0.lemma_project_index(id, k);
    let e1 = c1.entry(id);
    c1.lemma_project_index(id, k);
    let s = c0.entry(id).project.votes@;
    let t = e1.project.votes@;
    assert(t == s.push((voter, value)));
    let n = s.len() as int;
    assert(t[n].0 == voter);
    let q = vote_index(t, voter);
    assert(0 <= q < t.len() && t[q].0 == voter);
    if q != n {
        assert(s[q] == t[q]);
    }
    assert(q == n);
    assert(t.remove(q) =~= s);
    assert(c2.projects@[k] == c2.entry(id)) by {
        assert(c2.projects@[k].project.project_id@ == id);
    }
}

/// A refund pays back, in total, exactly what was contributed in the
/// refunded token.
pub proof fn law_refund_pays_token_total(s: Seq<BackerContribution>, token: Account)
    ensures
        payout_sum(refund_payouts(s, token)) == token_sum(s, token),
    decreases s.len(),
{
    if s.len() > 0 {
        law_refund_pays_token_total(s.drop_last(), token);
        let rest = refund_payouts(s.drop_last(), token);
        if s.last().token == token {
            assert(rest.push((s.last().backer, s.last().amount as i128)).drop_last() =~= rest);
        }
    }
}

/// A token is refunded at most once: after a successful refund of `token`,
/// every further refund of it on the same project is refused, whatever
/// balance the host reports.
pub proof fn law_token_refunded_once(
    c0: BoundlessContract,
    c1: BoundlessContract,
    id: Seq<u8>,
    token: Account,
    balance: Option<i128>,
    later_balance: Option<i128>,
)
    requires
        c0.wf(),
        c0.refund_error(id, token, balance) is None,
        BoundlessContract::refund_recorded(&c0, &c1, id, token),
    ensures
        c1.refund_error(id, token, later_balance) is Some,
{
    let e = c1.entry(id);
    assert(e.refunded_tokens@.last() == token);
    assert(e.refunded_tokens@.contains(token));
    assert(c1.tokens_for(id) == c0.tokens_for(id));
}

/// The amount a project records as funded is always the sum of its
/// fundings, and the sum of its per-backer rows.
pub proof fn law_total_funded_is_sum_of_fundings(c: BoundlessContract, id: Seq<u8>)
    requires
        c.wf(),
        c.has_project(id),
    ensures
        c.entry(id).project.total_funded == contribution_sum(c.entry(id).contributions@),
        c.entry(id).project.total_funded == backer_rows_sum(c.entry(id).project.backers@),
{
    let k = c.project_index(id);
    assert(c.projects@[k].wf());
}

/// After a release, the first milestone with the released id is the one
/// found before, now `Released`.
proof fn lemma_first_released(s: Seq<Milestone>, id: u64, r: Seq<Milestone>)
    requires
        released_milestones(s, id, r),
        has_milestone(s, id),
    ensures
        first_milestone(r, id) == (Milestone { status: MilestoneStatus::Released, ..first_milestone(s, id) }),
    decreases s.len(),
{
    assert(r[0] == if s[0].id == id { Milestone { status: MilestoneStatus::Released, ..s[0] } } else { s[0] });
    if s[0].id != id {
        let j = choose|j: int| 0 <= j < s.len() && s[j].id == id;
        assert(s.drop_first()[j - 1] == s[j]);
        assert forall|q: int| 0 <= q < s.drop_first().len() implies (#[trigger] r.drop_first()[q]) == if s.drop_first()[q].id == id {
            Milestone { status: MilestoneStatus::Released, ..s.drop_first()[q] }
        } else {
            s.drop_first()[q]
        } by {
            assert(r[q + 1] == if s[q + 1].id == id { Milestone { status: MilestoneStatus::Released, ..s[q + 1] } } else { s[q + 1] });
        }
        lemma_first_released(s.drop_first(), id, r.drop_first());
    }
}

/// A campaign milestone is released at most once: once `release_funds`
/// succeeded for a milestone, releasing it again is refused.
pub proof fn law_milestone_released_once(c0: BoundlessContract, c1: BoundlessContract, campaign_id: u64, milestone_id: u64)
    requires
        c0.wf(),
        c0.release_funds_error(campaign_id, milestone_id) is None,
        BoundlessContract::release_recorded(&c0, &c1, campaign_id, milestone_id),
    ensures
        c1.release_funds_error(campaign_id, milestone_id) == Some(crate::campaigns::BoundlessError::InvalidOperation),
{
    let s = c0.campaign(campaign_id).milestones@;
    let r = c1.campaign(campaign_id).milestones@;
    lemma_first_released(s, milestone_id, r);
    let j = choose|j: int| 0 <= j < s.len() && s[j].id == milestone_id;
    assert(r[j].id == milestone_id);
}

/// Cancelling a campaign is final: a cancelled campaign can be neither
/// cancelled again nor have funds released.
pub proof fn law_cancelled_campaign_is_final(
    c0: BoundlessContract,
    c1: BoundlessContract,
    inv: crate::types::Invocation,
    campaign_id: u64,
    admin: Account,
    milestone_id: u64,
)
    requires
        c0.wf(),
        c0.cancel_campaign_error(&inv, campaign_id, admin) is None,
        c1.wf(),
        c1.campaign(campaign_id) == (crate::campaigns::Campaign { status: Status::Failed, ..c0.campaign(campaign_id) }),
        BoundlessContract::only_campaign_changed(&c0, &c1, campaign_id, c1.campaign(campaign_id)),
    ensures
        c1.cancel_campaign_error(&inv, campaign_id, admin) == Some(crate::campaigns::BoundlessError::InvalidOperation),
        c1.release_funds_error(campaign_id, milestone_id) == Some(crate::campaigns::BoundlessError::InvalidOperation),
{
    let k = c0.campaign_index(campaign_id);
    c0.lemma_campaign_index(campaign_id, k);
    assert(c1.campaigns@[k].id == campaign_id);
    c1.lemma_campaign_index(campaign_id, k);
}

/// A recorded vote reads back: after `vote_project` recorded `value` for
/// `voter`, the voter has voted, the vote read for the voter is `value`, and
/// a second vote by the same voter is refused.
pub proof fn law_vote_read_back(
    c0: BoundlessContract,
    c1: BoundlessContract,
    now: u64,
    id: Seq<u8>,
    voter: Account,
    value: i32,
    now2: u64,
    value2: i32,
)
    requires
        c0.wf(),
        c1.wf(),
        c0.vote_error(now, id, voter, value) is None,
        BoundlessContract::vote_recorded(&c0, &c1, id, voter, value),
    ensures
        has_vote(c1.entry(id).project.votes@, voter),
        c1.entry(id).project.votes@[vote_index(c1.entry(id).project.votes@, voter)].1 == value,
        c1.vote_error(now2, id, voter, value2) is Some,
{
    let k = c0.project_index(id);
    c0.lemma_project_index(id, k);
    c1.lemma_project_index(id, k);
    let s = c0.entry(id).project.votes@;
    let t = c1.entry(id).project.votes@;
    let n = s.len() as int;
    assert(t[n].0 == voter);
    let q = vote_index(t, voter);
    assert(0 <= q < t.len() && t[q].0 == voter);
    if q != n {
        assert(s[q] == t[q]);
    }
    assert(q == n);
}

/// Amount held by the row of `who` for `token`; 0 without one.
pub open spec fn row_amount(s: Seq<(Account, u64, Account)>, who: Account, token: Account) -> int {
    if has_backer_row(s, who, token) {
        s[backer_row_index(s, who, token)].1 as int
    } else {
        0
    }
}

/// Sum of the recorded amounts (`amount as u64`) of a run of fundings
/// `(amount, funder, token)`.
pub open spec fn credited_total(calls: Seq<(i128, Account, Account)>) -> int
    decreases calls.len(),
{
    if calls.len() == 0 {
        0
    } else {
        credited_total(calls.drop_last()) + (calls.last().0 as u64)
    }
}

/// Sum of the recorded amounts of the fundings by `who` in `token`.
pub open spec fn pair_total(calls: Seq<(i128, Account, Account)>, who: Account, token: Account) -> int
    decreases calls.len(),
{
    if calls.len() == 0 {
        0
    } else {
        pair_total(calls.drop_last(), who, token) + if calls.last().1 == who && calls.last().2 == token {
            (calls.last().0 as u64) as int
        } else {
            0
        }
    }
}

/// The contribution log a run of fundings appends, one entry per call.
pub open spec fn funding_log(calls: Seq<(i128, Account, Account)>, invs: Seq<Invocation>) -> Seq<BackerContribution> {
    Seq::new(
        calls.len(),
        |j: int| BackerContribution { backer: calls[j].1, amount: calls[j].0 as u64, token: calls[j].2, timestamp: invs[j].timestamp },
    )
}

proof fn lemma_row_index_unique(s: Seq<(Account, u64, Account)>, who: Account, token: Account, j: int)
    requires
        backer_rows_unique(s),
        0 <= j < s.len(),
        s[j].0 == who && s[j].2 == token,
    ensures
        has_backer_row(s, who, token),
        backer_row_index(s, who, token) == j,
{
    let k = backer_row_index(s, who, token);
    assert(0 <= k < s.len() && s[k].0 == who && s[k].2 == token);
    if k < j {
        assert(!(s[k].0 == s[j].0 && s[k].2 == s[j].2));
    } else if j < k {
        assert(!(s[j].0 == s[k].0 && s[j].2 == s[k].2));
    }
}

/// Crediting a row adds the credited amount to that pair's row and leaves
/// every other pair's row as it was.
proof fn lemma_credit_row(s: Seq<(Account, u64, Account)>, w: Account, t: Account, a: u64, who: Account, token: Account)
    requires
        backer_rows_unique(s),
        backer_rows_unique(credit_backer(s, w, t, a)),
        has_backer_row(s, w, t) ==> s[backer_row_index(s, w, t)].1 + a <= u64::MAX,
    ensures
        row_amount(credit_backer(s, w, t, a), who, token) == row_amount(s, who, token) + if who == w && token == t {
            a as int
        } else {
            0
        },
{
    let r = credit_backer(s, w, t, a);
    if has_backer_row(s, w, t) {
        let k = backer_row_index(s, w, t);
        if who == w && token == t {
            lemma_row_index_unique(r, who, token, k);
        } else if has_backer_row(s, who, token) {
            let i = backer_row_index(s, who, token);
            assert(i != k);
            lemma_row_index_unique(r, who, token, i);
        } else if has_backer_row(r, who, token) {
            let i = backer_row_index(r, who, token);
            if i != k {
                assert(s[i] == r[i]);
            }
        }
    } else {
        let n = s.len() as int;
        if who == w && token == t {
            lemma_row_index_unique(r, who, token, n);
        } else if has_backer_row(s, who, token) {
            let i = backer_row_index(s, who, token);
            lemma_row_index_unique(r, who, token, i);
        } else if has_backer_row(r, who, token) {
            let i = backer_row_index(r, who, token);
            if i < n {
                assert(s[i] == r[i]);
            }
        }
    }
}

/// The first `k` fundings of a run: totals, per-pair rows, the log and the
/// status as the law states them.
proof fn lemma_funding_run(
    cs: Seq<BoundlessContract>,
    invs: Seq<Invocation>,
    id: Seq<u8>,
    calls: Seq<(i128, Account, Account)>,
    k: int,
)
    requires
        cs.len() == calls.len() + 1,
        invs.len() == calls.len(),
        forall|j: int| 0 <= j < cs.len() ==> (#[trigger] cs[j]).wf(),
        forall|j: int| 0 <= j < calls.len() ==> (#[trigger] cs[j]).funding_error(&invs[j], id, calls[j].0, calls[j].1, calls[j].2) is None,
        forall|j: int| 0 <= j < calls.len() ==> BoundlessContract::funding_recorded(#[trigger] &cs[j], &cs[j + 1], &invs[j], id, calls[j].0,
            calls[j].1, calls[j].2),
        0 <= k <= calls.len(),
    ensures
        cs[k].entry(id).project.total_funded == cs[0].entry(id).project.total_funded + credited_total(calls.subrange(0, k)),
        cs[k].entry(id).contributions@ == cs[0].entry(id).contributions@ + funding_log(calls.subrange(0, k), invs.subrange(0, k)),
        cs[k].entry(id).project.funding_target == cs[0].entry(id).project.funding_target,
        forall|who: Account, token: Account| #[trigger] row_amount(cs[k].entry(id).project.backers@, who, token)
            == row_amount(cs[0].entry(id).project.backers@, who, token) + pair_total(calls.subrange(0, k), who, token),
    decreases k,
{
    if k > 0 {
        let j = k - 1;
        lemma_funding_run(cs, invs, id, calls, j);
        assert(cs[j].funding_error(&invs[j], id, calls[j].0, calls[j].1, calls[j].2) is None);
        assert(BoundlessContract::funding_recorded(&cs[j], &cs[j + 1], &invs[j], id, calls[j].0, calls[j].1, calls[j].2));
        assert(cs[j].wf());
        assert(cs[k].wf());
        let pre = calls.subrange(0, k);
        assert(pre.drop_last() =~= calls.subrange(0, j));
        assert(pre.last() == calls[j]);
        assert(funding_log(pre, invs.subrange(0, k)) =~= funding_log(calls.subrange(0, j), invs.subrange(0, j)).push(
            BackerContribution { backer: calls[j].1, amount: calls[j].0 as u64, token: calls[j].2, timestamp: invs[j].timestamp }));
        lemma_funding_step(cs[j], cs[k], invs[j], id, calls[j].0, calls[j].1, calls[j].2);
    }
}

/// One funding: the total grows by the recorded amount, the funder's row for
/// the token grows by it, every other row stays.
proof fn lemma_funding_step(c0: BoundlessContract, c1: BoundlessContract, inv: Invocation, id: Seq<u8>, amount: i128, w: Account, t: Account)
    requires
        c0.wf(),
        c1.wf(),
        c0.funding_error(&inv, id, amount, w, t) is None,
        BoundlessContract::funding_recorded(&c0, &c1, &inv, id, amount, w, t),
    ensures
        forall|who: Account, token: Account| #[trigger] row_amount(c1.entry(id).project.backers@, who, token)
            == row_amount(c0.entry(id).project.backers@, who, token) + if who == w && token == t { (amount as u64) as int } else { 0 },
{
    let e0 = c0.entry(id);
    let p = c0.project_index(id);
    c0.lemma_project_index(id, p);
    assert(c0.projects@[p].wf());
    assert(c1.projects@[p] == c1.entry(id)) by {
        assert(c1.projects@[p].project.project_id@ == id);
        c1.lemma_project_index(id, p);
    }
    assert(c1.projects@[p].wf());
    let a = amount as u64;
    if has_backer_row(e0.project.backers@, w, t) {
        lemma_row_le_sum(e0.project.backers@, backer_row_index(e0.project.backers@, w, t));
    }
    assert forall|who: Account, token: Account| #[trigger] row_amount(c1.entry(id).project.backers@, who, token)
        == row_amount(c0.entry(id).project.backers@, who, token) + if who == w && token == t { a as int } else { 0 } by {
        lemma_credit_row(e0.project.backers@, w, t, a, who, token);
    }
}

/// A run of successful fundings of one project adds up: the total grows by
/// the sum of the recorded amounts, each (backer, token) pair keeps one row
/// holding what it funded, the log gets one entry per call in order, and the
/// project is `Funded` exactly when the total has reached the target.
pub proof fn law_funding_run_adds_up(
    cs: Seq<BoundlessContract>,
    invs: Seq<Invocation>,
    id: Seq<u8>,
    calls: Seq<(i128, Account, Account)>,
)
    requires
        cs.len() == calls.len() + 1,
        invs.len() == calls.len(),
        calls.len() > 0,
        forall|j: int| 0 <= j < cs.len() ==> (#[trigger] cs[j]).wf(),
        forall|j: int| 0 <= j < calls.len() ==> (#[trigger] cs[j]).funding_error(&invs[j], id, calls[j].0, calls[j].1, calls[j].2) is None,
        forall|j: int| 0 <= j < calls.len() ==> BoundlessContract::funding_recorded(#[trigger] &cs[j], &cs[j + 1], &invs[j], id, calls[j].0,
            calls[j].1, calls[j].2),
    ensures
        ({
            let n = calls.len() as int;
            let e0 = cs[0].entry(id);
            let e = cs[n].entry(id);
            &&& e.project.total_funded == e0.project.total_funded + credited_total(calls)
            &&& e.contributions@ == e0.contributions@ + funding_log(calls, invs)
            &&& forall|who: Account, token: Account| #[trigger] row_amount(e.project.backers@, who, token)
                == row_amount(e0.project.backers@, who, token) + pair_total(calls, who, token)
            &&& (e.project.status == ProjectStatus::Funded <==> e.project.total_funded >= e.project.funding_target)
        }),
{
    let n = calls.len() as int;
    lemma_funding_run(cs, invs, id, calls, n);
    assert(calls.subrange(0, n) =~= calls);
    assert(invs.subrange(0, n) =~= invs);
    let j = n - 1;
    assert(cs[j].funding_error(&invs[j], id, calls[j].0, calls[j].1, calls[j].2) is None);
    assert(BoundlessContract::funding_recorded(&cs[j], &cs[j + 1], &invs[j], id, calls[j].0, calls[j].1, calls[j].2));
}

} // verus!
