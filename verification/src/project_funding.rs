use vstd::prelude::*;

use crate::projects::{
    backer_rows_sum, backer_rows_unique, contribution_sum, token_sum, AdminSlot, BackerContribution,
    BoundlessContract, BoundlessError, Project, ProjectEntry, ProjectStatus, TokenWhitelist,
    whitelist_ids_unique,
};
use crate::effects::Effect;
use crate::types::{copy_vec, Account, Invocation};

verus! {

pub open spec fn has_backer_row(s: Seq<(Account, u64, Account)>, who: Account, token: Account) -> bool {
    exists|i: int| 0 <= i < s.len() && s[i].0 == who && s[i].2 == token
}

pub open spec fn backer_row_index(s: Seq<(Account, u64, Account)>, who: Account, token: Account) -> int {
    choose|i: int| 0 <= i < s.len() && s[i].0 == who && s[i].2 == token
}

/// Backer rows after `who` funds `amount` of `token`: its row for that token
/// grows, or a new row is appended.
pub open spec fn credit_backer(s: Seq<(Account, u64, Account)>, who: Account, token: Account, amount: u64) -> Seq<(Account, u64, Account)> {
    if has_backer_row(s, who, token) {
        let k = backer_row_index(s, who, token);
        s.update(k, (who, (s[k].1 + amount) as u64, token))
    } else {
        s.push((who, amount, token))
    }
}

/// The payments a refund of `token` makes: one per contribution in that
/// token, in the order of the contributions.
pub open spec fn refund_payouts(s: Seq<BackerContribution>, token: Account) -> Seq<(Account, i128)>
    decreases s.len(),
{
    if s.len() == 0 {
        Seq::empty()
    } else if s.last().token == token {
        refund_payouts(s.drop_last(), token).push((s.last().backer, s.last().amount as i128))
    } else {
        refund_payouts(s.drop_last(), token)
    }
}

pub open spec fn payout_sum(s: Seq<(Account, i128)>) -> int
    decreases s.len(),
{
    if s.len() == 0 {
        0
    } else {
        payout_sum(s.drop_last()) + s.last().1
    }
}

/// Amount of the first row of `who`, whatever its token; 0 without one.
pub open spec fn first_row_amount(s: Seq<(Account, u64, Account)>, who: Account) -> u64
    decreases s.len(),
{
    if s.len() == 0 {
        0
    } else if s[0].0 == who {
        s[0].1
    } else {
        first_row_amount(s.drop_first(), who)
    }
}

pub proof fn lemma_rows_sum_update(s: Seq<(Account, u64, Account)>, k: int, x: (Account, u64, Account))
    requires
        0 <= k < s.len(),
    ensures
        backer_rows_sum(s.update(k, x)) == backer_rows_sum(s) - s[k].1 + x.1,
    decreases s.len(),
{
    let t = s.update(k, x);
    if k == s.len() - 1 {
        assert(t.drop_last() =~= s.drop_last());
    } else {
        assert(t.drop_last() =~= s.drop_last().update(k, x));
        lemma_rows_sum_update(s.drop_last(), k, x);
    }
}

pub proof fn lemma_row_le_sum(s: Seq<(Account, u64, Account)>, k: int)
    requires
        0 <= k < s.len(),
    ensures
        s[k].1 <= backer_rows_sum(s),
        backer_rows_sum(s) >= 0,
    decreases s.len(),
{
    lemma_rows_sum_nonneg(s.drop_last());
    if k < s.len() - 1 {
        assert(s.drop_last()[k] == s[k]);
        lemma_row_le_sum(s.drop_last(), k);
    }
}

pub proof fn lemma_rows_sum_nonneg(s: Seq<(Account, u64, Account)>)
    ensures
        backer_rows_sum(s) >= 0,
    decreases s.len(),
{
    if s.len() > 0 {
        lemma_rows_sum_nonneg(s.drop_last());
    }
}

/// Refunding one token returns no more than was contributed in it, which is
/// no more than the total contributed.
pub proof fn lemma_token_sum_bounds(s: Seq<BackerContribution>, token: Account)
    ensures
        0 <= token_sum(s, token) <= contribution_sum(s),
    decreases s.len(),
{
    if s.len() > 0 {
        lemma_token_sum_bounds(s.drop_last(), token);
    }
}

/// A prefix contributed no more in `token` than the whole list.
pub proof fn lemma_token_sum_prefix(s: Seq<BackerContribution>, token: Account, i: int)
    requires
        0 <= i <= s.len(),
    ensures
        token_sum(s.subrange(0, i), token) <= token_sum(s, token),
    decreases s.len() - i,
{
    if i < s.len() {
        let t = s.subrange(0, i + 1);
        assert(t.drop_last() =~= s.subrange(0, i));
        lemma_token_sum_prefix(s, token, i + 1);
    } else {
        assert(s.subrange(0, i) =~= s);
    }
}

/// Position of the row of `who` for `token`.
pub fn find_backer_row(v: &Vec<(Account, u64, Account)>, who: Account, token: Account) -> (r: Option<usize>)
    requires
        backer_rows_unique(v@),
    ensures
        r is None <==> !has_backer_row(v@, who, token),
        r matches Some(k) ==> k < v@.len() && v@[k as int].0 == who && v@[k as int].2 == token
            && k == backer_row_index(v@, who, token),
{
    let mut i: usize = 0;
    while i < v.len()
        invariant
            i <= v@.len(),
            forall|j: int| 0 <= j < i ==> !(v@[j].0 == who && v@[j].2 == token),
        decreases v@.len() - i,
    {
        if v[i].0 == who && v[i].2 == token {
            proof {
                let c = backer_row_index(v@, who, token);
                assert(0 <= c < v@.len() && v@[c].0 == who && v@[c].2 == token);
                if c != i as int {
                    if c < i {
                        assert(!(v@[c].0 == v@[i as int].0 && v@[c].2 == v@[i as int].2));
                    } else {
                        assert(!(v@[i as int].0 == v@[c].0 && v@[i as int].2 == v@[c].2));
                    }
                }
            }
            return Some(i);
        }
        i += 1;
    }
    None
}

impl BoundlessContract {
    pub open spec fn funding_error(&self, inv: &Invocation, id: Seq<u8>, amount: i128, funder: Account, token: Account) -> Option<BoundlessError> {
        if !inv.authorizes(funder) {
            Some(BoundlessError::Unauthorized)
        } else if amount <= 0 {
            Some(BoundlessError::InsufficientFunds)
        } else if !self.has_project(id) {
            Some(BoundlessError::NotFound)
        } else {
            let p = self.entry(id).project;
            if p.status != ProjectStatus::Funding {
                Some(BoundlessError::InvalidOperation)
            } else if p.is_closed {
                Some(BoundlessError::ProjectClosed)
            } else if inv.timestamp > p.funding_deadline {
                Some(BoundlessError::FundingPeriodEnded)
            } else if !self.tokens_for(id).contains(token) {
                Some(BoundlessError::InvalidTokenContract)
            } else {
                None
            }
        }
    }

    /// The checks a funding passes before any token moves. On `Ok` it gives
    /// the project's position and the transfer the host makes next:
    /// `amount` of `token` from `funder` into the contract, whose outcome
    /// the host reports to `fund_project`.
    pub fn check_funding(&self, inv: &Invocation, project_id: &Vec<u8>, amount: i128, funder: Account, token_contract: Account) -> (r: Result<(usize, Effect), BoundlessError>)
        requires
            self.wf(),
        ensures
            r is Err <==> self.funding_error(inv, project_id@, amount, funder, token_contract) is Some,
            r matches Err(e) ==> Some(e) == self.funding_error(inv, project_id@, amount, funder, token_contract),
            r matches Ok((i, t)) ==> i < self.projects@.len() && i == self.project_index(project_id@) && self.has_project(project_id@)
                && t == (Effect::Collect { token: token_contract, from: funder, amount }),
    {
        if !inv.is_authorized(funder) {
            return Err(BoundlessError::Unauthorized);
        }
        if amount <= 0 {
            return Err(BoundlessError::InsufficientFunds);
        }
        let i = match self.find_project(project_id) {
            Some(i) => i,
            None => return Err(BoundlessError::NotFound),
        };
        let p = &self.projects[i].project;
        if p.status != ProjectStatus::Funding {
            return Err(BoundlessError::InvalidOperation);
        }
        if p.is_closed {
            return Err(BoundlessError::ProjectClosed);
        }
        if inv.timestamp > p.funding_deadline {
            return Err(BoundlessError::FundingPeriodEnded);
        }
        if !self.is_token_whitelisted(project_id, token_contract) {
            return Err(BoundlessError::InvalidTokenContract);
        }
        Ok((i, Effect::Collect { token: token_contract, from: funder, amount }))
    }

    /// `new` is `old` after `funder` funded project `id` with `amount` of
    /// `token` (recorded as `amount as u64`): the total and the funder's row
    /// for that token grow by it, a contribution is logged, the project
    /// becomes `Funded` once the total reaches the target, and nothing else
    /// changes.
    pub open spec fn funding_recorded(
        old: &BoundlessContract,
        new: &BoundlessContract,
        inv: &Invocation,
        id: Seq<u8>,
        amount: i128,
        funder: Account,
        token: Account,
    ) -> bool {
        let e0 = old.entry(id);
        let e = new.entry(id);
        let credited = amount as u64;
        &&& e.project.total_funded == e0.project.total_funded + credited
        &&& e.project.backers@ == credit_backer(e0.project.backers@, funder, token, credited)
        &&& e.contributions@ == e0.contributions@.push(BackerContribution {
            backer: funder,
            amount: credited,
            token,
            timestamp: inv.timestamp,
        })
        &&& e.project.status == if e.project.total_funded >= e0.project.funding_target {
            ProjectStatus::Funded
        } else {
            e0.project.status
        }
        &&& e.project == (Project {
            total_funded: e.project.total_funded,
            backers: e.project.backers,
            status: e.project.status,
            ..e0.project
        })
        &&& e == (ProjectEntry { project: e.project, contributions: e.contributions, ..e0 })
        &&& BoundlessContract::only_project_changed(old, new, id, e)
    }

    /// Records a funding whose token transfer the host attempted after
    /// `check_funding` passed; `transfer_ok` is that transfer's outcome. The
    /// amount is recorded as `amount as u64`. The project becomes `Funded`
    /// once the total reaches the target.
    pub fn fund_project(
        &mut self,
        inv: &Invocation,
        project_id: &Vec<u8>,
        amount: i128,
        funder: Account,
        token_contract: Account,
        transfer_ok: bool,
    ) -> (r: Result<u64, BoundlessError>)
        requires
            old(self).wf(),
            old(self).funding_error(inv, project_id@, amount, funder, token_contract) is None && transfer_ok
                ==> old(self).entry(project_id@).project.total_funded + (amount as u64) <= u64::MAX,
        ensures
            final(self).wf(),
            r is Err <==> old(self).funding_error(inv, project_id@, amount, funder, token_contract) is Some || !transfer_ok,
            r matches Err(e) ==> e == match old(self).funding_error(inv, project_id@, amount, funder, token_contract) {
                Some(e0) => e0,
                None => BoundlessError::TransferFailed,
            },
            r is Err ==> *final(self) == *old(self),
            r matches Ok(total) ==> {
                &&& total == final(self).entry(project_id@).project.total_funded
                &&& BoundlessContract::funding_recorded(old(self), final(self), inv, project_id@, amount, funder, token_contract)
            },
    {
        let (i, _) = self.check_funding(inv, project_id, amount, funder, token_contract)?;
        if !transfer_ok {
            return Err(BoundlessError::TransferFailed);
        }
        let credited = amount as u64;
        let ghost before = *self;
        let ghost e0 = self.projects@[i as int];
        proof {
            assert(e0.wf());
        }
        let total = self.projects[i].project.total_funded + credited;
        let found = find_backer_row(&self.projects[i].project.backers, funder, token_contract);
        let ghost rows = e0.project.backers@;
        if let Some(k) = found {
            proof {
                lemma_row_le_sum(rows, k as int);
            }
            let old_amount = self.projects[i].project.backers[k].1;
            self.projects[i].project.backers.set(k, (funder, old_amount + credited, token_contract));
            proof {
                lemma_rows_sum_update(rows, k as int, (funder, (old_amount + credited) as u64, token_contract));
                assert(self.projects@[i as int].project.backers@ =~= rows.update(k as int, (funder, (old_amount + credited) as u64, token_contract)));
            }
        } else {
            self.projects[i].project.backers.push((funder, credited, token_contract));
            proof {
                assert(self.projects@[i as int].project.backers@.drop_last() =~= rows);
            }
        }
        self.projects[i].project.total_funded = total;
        self.projects[i].contributions.push(BackerContribution {
            backer: funder,
            amount: credited,
            token: token_contract,
            timestamp: inv.timestamp,
        });
        if total >= self.projects[i].project.funding_target {
            self.projects[i].project.status = ProjectStatus::Funded;
        }
        proof {
            let e = self.projects@[i as int];
            let new_rows = e.project.backers@;
            assert(new_rows == credit_backer(rows, funder, token_contract, credited));
            assert(e.contributions@.drop_last() =~= e0.contributions@);
            assert(backer_rows_unique(new_rows)) by {
                assert forall|a: int, b: int| 0 <= a < b < new_rows.len() implies !(new_rows[a].0 == new_rows[b].0
                    && new_rows[a].2 == new_rows[b].2) by {
                    if b < rows.len() {
                        assert(!(rows[a].0 == rows[b].0 && rows[a].2 == rows[b].2));
                    }
                }
            }
            assert(e.wf());
            assert(self.projects@ =~= before.projects@.update(i as int, e));
            BoundlessContract::lemma_project_update(&before, self, project_id@, e);
        }
        Ok(total)
    }

    pub open spec fn refund_error(&self, id: Seq<u8>, token: Account, balance: Option<i128>) -> Option<BoundlessError> {
        if !self.has_project(id) {
            Some(BoundlessError::NotFound)
        } else {
            let e = self.entry(id);
            let p = e.project;
            if p.status != ProjectStatus::Failed && !p.is_closed {
                Some(BoundlessError::InvalidOperation)
            } else if p.backers@.len() == 0 {
                Some(BoundlessError::NoBackerContributions)
            } else if p.refund_processed {
                Some(BoundlessError::RefundAlreadyProcessed)
            } else if !self.tokens_for(id).contains(token) {
                Some(BoundlessError::InvalidTokenContract)
            } else if e.refunded_tokens@.contains(token) {
                Some(BoundlessError::RefundAlreadyProcessed)
            } else if balance is None {
                Some(BoundlessError::BalanceCheckFailed)
            } else if balance.unwrap() < token_sum(e.contributions@, token) {
                Some(BoundlessError::InsufficientFunds)
            } else {
                None
            }
        }
    }

    /// `new` is `old` after the refund of `token` on project `id`: the token
    /// is marked refunded, and the project is marked fully refunded once
    /// every whitelisted token was.
    pub open spec fn refund_recorded(old: &BoundlessContract, new: &BoundlessContract, id: Seq<u8>, token: Account) -> bool {
        let e0 = old.entry(id);
        let e = new.entry(id);
        &&& new.has_project(id)
        &&& e.refunded_tokens@ == e0.refunded_tokens@.push(token)
        &&& e.project.refund_processed == (e.refunded_tokens@.len() == old.tokens_for(id).len())
        &&& e.project == (Project { refund_processed: e.project.refund_processed, ..e0.project })
        &&& e == (ProjectEntry { project: e.project, refunded_tokens: e.refunded_tokens, ..e0 })
        &&& BoundlessContract::only_project_changed(old, new, id, e)
    }

    /// Refunds, in `token`, every contribution made in it to a failed or
    /// closed project. `balance` is the contract's balance of `token` as the
    /// host read it (`None` when the read failed). On success the returned
    /// payments, one per contribution in that token, are for the host to
    /// make; a payment that fails is reported, not undone.
    pub fn refund(&mut self, project_id: &Vec<u8>, token_contract: Account, balance: Option<i128>) -> (r: Result<Vec<(Account, i128)>, BoundlessError>)
        requires
            old(self).wf(),
        ensures
            final(self).wf(),
            r is Err <==> old(self).refund_error(project_id@, token_contract, balance) is Some,
            r matches Err(e) ==> Some(e) == old(self).refund_error(project_id@, token_contract, balance),
            r is Err ==> *final(self) == *old(self),
            r matches Ok(pays) ==> pays@ == refund_payouts(old(self).entry(project_id@).contributions@, token_contract)
                && BoundlessContract::refund_recorded(old(self), final(self), project_id@, token_contract),
    {
        let i = match self.find_project(project_id) {
            Some(i) => i,
            None => return Err(BoundlessError::NotFound),
        };
        let ghost e0 = self.projects@[i as int];
        proof {
            assert(e0.wf());
        }
        if self.projects[i].project.status != ProjectStatus::Failed && !self.projects[i].project.is_closed {
            return Err(BoundlessError::InvalidOperation);
        }
        if self.projects[i].project.backers.len() == 0 {
            return Err(BoundlessError::NoBackerContributions);
        }
        if self.projects[i].project.refund_processed {
            return Err(BoundlessError::RefundAlreadyProcessed);
        }
        let w = match self.find_whitelist(project_id) {
            Some(w) => w,
            None => return Err(BoundlessError::InvalidTokenContract),
        };
        if !self.is_token_whitelisted(project_id, token_contract) {
            return Err(BoundlessError::InvalidTokenContract);
        }
        let mut j: usize = 0;
        while j < self.projects[i].refunded_tokens.len()
            invariant
                j <= e0.refunded_tokens@.len(),
                forall|q: int| 0 <= q < j ==> e0.refunded_tokens@[q] != token_contract,
            decreases e0.refunded_tokens@.len() - j,
        {
            if self.projects[i].refunded_tokens[j] == token_contract {
                return Err(BoundlessError::RefundAlreadyProcessed);
            }
            j += 1;
        }
        let available = match balance {
            Some(b) => b,
            None => return Err(BoundlessError::BalanceCheckFailed),
        };
        let contribs = &self.projects[i].contributions;
        let ghost s = contribs@;
        proof {
            lemma_token_sum_bounds(s, token_contract);
        }
        let mut due: u64 = 0;
        let mut pays: Vec<(Account, i128)> = Vec::new();
        let mut k: usize = 0;
        while k < contribs.len()
            invariant
                contribs@ == s,
                s == e0.contributions@,
                contribution_sum(s) <= u64::MAX,
                token_sum(s, token_contract) <= contribution_sum(s),
                k <= s.len(),
                due == token_sum(s.subrange(0, k as int), token_contract),
                pays@ == refund_payouts(s.subrange(0, k as int), token_contract),
            decreases s.len() - k,
        {
            let c = contribs[k];
            proof {
                let t = s.subrange(0, k + 1);
                assert(t.drop_last() =~= s.subrange(0, k as int));
                lemma_token_sum_prefix(s, token_contract, k + 1);
            }
            if c.token == token_contract {
                due = due + c.amount;
                pays.push((c.backer, c.amount as i128));
            }
            k += 1;
        }
        proof {
            assert(s.subrange(0, s.len() as int) =~= s);
        }
        if available < due as i128 {
            return Err(BoundlessError::InsufficientFunds);
        }
        let ghost before = *self;
        let listed = self.whitelists[w].tokens.len();
        self.projects[i].refunded_tokens.push(token_contract);
        if self.projects[i].refunded_tokens.len() == listed {
            self.projects[i].project.refund_processed = true;
        }
        proof {
            let e = self.projects@[i as int];
            assert(e.refunded_tokens@.drop_last() =~= e0.refunded_tokens@);
            assert(!e0.refunded_tokens@.contains(token_contract));
            assert(e.wf());
            assert(self.projects@ =~= before.projects@.update(i as int, e));
            BoundlessContract::lemma_project_update(&before, self, project_id@, e);
        }
        Ok(pays)
    }

    /// Amount funded so far and the funding target of `project_id`.
    pub fn get_project_funding(&self, project_id: &Vec<u8>) -> (r: Result<(u64, u64), BoundlessError>)
        requires
            self.wf(),
        ensures
            r is Err <==> !self.has_project(project_id@),
            r matches Err(e) ==> e == BoundlessError::NotFound,
            r matches Ok(t) ==> t == (self.entry(project_id@).project.total_funded, self.entry(project_id@).project.funding_target),
    {
        match self.find_project(project_id) {
            Some(i) => Ok((self.projects[i].project.total_funded, self.projects[i].project.funding_target)),
            None => Err(BoundlessError::NotFound),
        }
    }

    /// The amount in `backer`'s first row (whatever its token), 0 when the
    /// backer has none.
    pub fn get_backer_contribution(&self, project_id: &Vec<u8>, backer: Account) -> (r: Result<u64, BoundlessError>)
        requires
            self.wf(),
        ensures
            r is Err <==> !self.has_project(project_id@),
            r matches Err(e) ==> e == BoundlessError::NotFound,
            r matches Ok(a) ==> a == first_row_amount(self.entry(project_id@).project.backers@, backer),
    {
        let i = match self.find_project(project_id) {
            Some(i) => i,
            None => return Err(BoundlessError::NotFound),
        };
        let rows = &self.projects[i].project.backers;
        let ghost s = rows@;
        let mut k: usize = 0;
        proof {
            assert(s.subrange(0, s.len() as int) =~= s);
        }
        while k < rows.len()
            invariant
                rows@ == s,
                k <= s.len(),
                first_row_amount(s, backer) == first_row_amount(s.subrange(k as int, s.len() as int), backer),
            decreases s.len() - k,
        {
            let ghost rest = s.subrange(k as int, s.len() as int);
            proof {
                assert(rest[0] == s[k as int]);
                assert(rest.drop_first() =~= s.subrange(k + 1, s.len() as int));
            }
            if rows[k].0 == backer {
                return Ok(rows[k].1);
            }
            k += 1;
        }
        proof {
            assert(s.subrange(k as int, s.len() as int).len() == 0);
        }
        Ok(0)
    }

    pub open spec fn whitelist_error(&self, inv: &Invocation, admin: Account, id: Seq<u8>, token: Account) -> Option<BoundlessError> {
        if !inv.authorizes(admin) {
            Some(BoundlessError::Unauthorized)
        } else if self.admin is Unset {
            Some(BoundlessError::NotFound)
        } else if self.admin != AdminSlot::Single(admin) {
            Some(BoundlessError::Unauthorized)
        } else if self.tokens_for(id).contains(token) {
            Some(BoundlessError::AlreadyWhitelisted)
        } else {
            None
        }
    }

    /// The admin accepts `token_contract` for funding project `project_id`
    /// (the project need not exist yet).
    pub fn whitelist_token_contract(&mut self, inv: &Invocation, admin: Account, project_id: &Vec<u8>, token_contract: Account) -> (r: Result<(), BoundlessError>)
        requires
            old(self).wf(),
            inv.authorizes(admin) ==> !(old(self).admin is Listed),
        ensures
            final(self).wf(),
            r is Err <==> old(self).whitelist_error(inv, admin, project_id@, token_contract) is Some,
            r matches Err(e) ==> Some(e) == old(self).whitelist_error(inv, admin, project_id@, token_contract),
            r is Err ==> *final(self) == *old(self),
            r is Ok ==> {
                &&& final(self).tokens_for(project_id@) == old(self).tokens_for(project_id@).push(token_contract)
                &&& forall|id2: Seq<u8>| id2 != project_id@ ==> final(self).tokens_for(id2) == old(self).tokens_for(id2)
                &&& final(self).projects == old(self).projects
                &&& final(self).initialized == old(self).initialized
                &&& final(self).admin == old(self).admin
                &&& final(self).version == old(self).version
                &&& final(self).campaigns == old(self).campaigns
            },
    {
        if !inv.is_authorized(admin) {
            return Err(BoundlessError::Unauthorized);
        }
        match &self.admin {
            AdminSlot::Unset => return Err(BoundlessError::NotFound),
            AdminSlot::Single(a) => {
                if *a != admin {
                    return Err(BoundlessError::Unauthorized);
                }
            },
            AdminSlot::Listed(_) => return Err(BoundlessError::Unauthorized),
        }
        if self.is_token_whitelisted(project_id, token_contract) {
            return Err(BoundlessError::AlreadyWhitelisted);
        }
        let ghost before = *self;
        let ghost id = project_id@;
        match self.find_whitelist(project_id) {
            Some(w) => {
                self.whitelists[w].tokens.push(token_contract);
                proof {
                    let ws = self.whitelists@;
                    assert(whitelist_ids_unique(ws)) by {
                        assert forall|a: int, b: int| 0 <= a < b < ws.len() implies ws[a].project_id@ != ws[b].project_id@ by {
                            assert(before.whitelists@[a].project_id@ != before.whitelists@[b].project_id@);
                        }
                    }
                    assert forall|q: int| 0 <= q < ws.len() implies (#[trigger] ws[q]).tokens@.no_duplicates() by {
                        assert(before.whitelists@[q].tokens@.no_duplicates());
                        if q == w as int {
                            assert(ws[q].tokens@.drop_last() =~= before.whitelists@[q].tokens@);
                        }
                    }
                    self.lemma_whitelist_index(id, w as int);
                    assert forall|id2: Seq<u8>| id2 != id implies self.tokens_for(id2) == before.tokens_for(id2) by {
                        if before.has_whitelist(id2) {
                            let q = before.whitelist_index(id2);
                            assert(ws[q].project_id@ == id2);
                            self.lemma_whitelist_index(id2, q);
                        }
                        if self.has_whitelist(id2) {
                            let q = self.whitelist_index(id2);
                            assert(before.whitelists@[q].project_id@ == id2);
                        }
                    }
                }
            },
            None => {
                let mut tokens: Vec<Account> = Vec::new();
                tokens.push(token_contract);
                let key = copy_vec(project_id);
                self.whitelists.push(TokenWhitelist { project_id: key, tokens });
                proof {
                    let ws = self.whitelists@;
                    let n = before.whitelists@.len() as int;
                    assert(whitelist_ids_unique(ws)) by {
                        assert forall|a: int, b: int| 0 <= a < b < ws.len() implies ws[a].project_id@ != ws[b].project_id@ by {
                            if b < n {
                                assert(before.whitelists@[a].project_id@ != before.whitelists@[b].project_id@);
                            } else {
                                assert(ws[a] == before.whitelists@[a]);
                            }
                        }
                    }
                    assert forall|q: int| 0 <= q < ws.len() implies (#[trigger] ws[q]).tokens@.no_duplicates() by {
                        if q < n {
                            assert(before.whitelists@[q].tokens@.no_duplicates());
                        }
                    }
                    self.lemma_whitelist_index(id, n);
                    assert(before.tokens_for(id) =~= Seq::<Account>::empty());
                    assert(self.tokens_for(id) =~= seq![token_contract]);
                    assert forall|id2: Seq<u8>| id2 != id implies self.tokens_for(id2) == before.tokens_for(id2) by {
                        if before.has_whitelist(id2) {
                            let q = before.whitelist_index(id2);
                            assert(ws[q].project_id@ == id2);
                            self.lemma_whitelist_index(id2, q);
                        }
                        if self.has_whitelist(id2) {
                            let q = self.whitelist_index(id2);
                            assert(q < n);
                            assert(before.whitelists@[q].project_id@ == id2);
                        }
                    }
                }
            },
        }
        Ok(())
    }
}

} // verus!
