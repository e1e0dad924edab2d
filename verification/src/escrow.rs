use vstd::prelude::*;

use crate::arith::{clamp_i128, div_pos, div_toward_zero, sat_add, sat_mul, sat_sub};
use crate::effects::Effect;
use crate::types::Account;

verus! {

/// Basis points in one whole.
pub const BPS_DENOMINATOR: i128 = 10_000;

/// The fee the contract takes on `amount` at `bps` basis points:
/// `amount * bps / 10_000`, saturating the product and rounding toward zero.
pub open spec fn fee_at(amount: i128, bps: u32) -> i128 {
    div_toward_zero(clamp_i128(amount * bps) as int, 10_000) as i128
}

/// The per-event override when there is one, else the global rate.
pub open spec fn effective_bps(override_bps: Option<u32>, global_bps: u32) -> u32 {
    match override_bps {
        Some(b) => b,
        None => global_bps,
    }
}

/// The fee on `amount` at `bps` basis points.
pub fn compute_fee_at(amount: i128, bps: u32) -> (fee: i128)
    ensures
        fee == fee_at(amount, bps),
{
    let p = sat_mul(amount, bps as i128);
    div_pos(p, BPS_DENOMINATOR)
}

/// The fee rate that applies to an event: its override, else the global rate.
pub fn effective_fee_bps(override_bps: Option<u32>, global_bps: u32) -> (b: u32)
    ensures
        b == effective_bps(override_bps, global_bps),
{
    match override_bps {
        Some(b) => b,
        None => global_bps,
    }
}

/// Transfers for a deposit that carries a fee on top: the payer sends
/// `amount + fee` into escrow, and the fee, when positive, goes on to the
/// fee account.
pub open spec fn deposit_with_fee_effects(
    token: Account,
    from: Account,
    amount: i128,
    bps: u32,
    fee_account: Account,
    fx: Seq<Effect>,
) -> bool {
    let fee = fee_at(amount, bps);
    &&& fx.len() == if fee > 0 { 2int } else { 1int }
    &&& fx[0] == Effect::Collect { token, from, amount: clamp_i128(amount + fee) }
    &&& fee > 0 ==> fx[1] == Effect::Pay { token, to: fee_account, amount: fee }
}

/// Collects `amount` plus the fee from `from`; the escrow is credited with
/// `amount`, which is returned.
pub fn deposit_with_fee_at(
    token: Account,
    from: Account,
    amount: i128,
    bps: u32,
    fee_account: Account,
    fx: &mut Vec<Effect>,
) -> (credited: i128)
    ensures
        credited == amount,
        final(fx)@.len() >= old(fx)@.len(),
        final(fx)@.subrange(0, old(fx)@.len() as int) == old(fx)@,
        deposit_with_fee_effects(
            token,
            from,
            amount,
            bps,
            fee_account,
            final(fx)@.subrange(old(fx)@.len() as int, final(fx)@.len() as int),
        ),
{
    let ghost start = fx@;
    let fee = compute_fee_at(amount, bps);
    let total = sat_add(amount, fee);
    fx.push(Effect::Collect { token, from, amount: total });
    if fee > 0 {
        fx.push(Effect::Pay { token, to: fee_account, amount: fee });
    }
    assert(fx@.subrange(0, start.len() as int) =~= start);
    amount
}

/// Collects exactly `amount` from `from` into escrow.
pub fn deposit_no_fee(token: Account, from: Account, amount: i128, fx: &mut Vec<Effect>) -> (credited: i128)
    ensures
        credited == amount,
        final(fx)@ == old(fx)@.push(Effect::Collect { token, from, amount }),
{
    fx.push(Effect::Collect { token, from, amount });
    amount
}

/// Pays `amount` out of escrow to `recipient`.
pub fn release(token: Account, recipient: Account, amount: i128, fx: &mut Vec<Effect>)
    ensures
        final(fx)@ == old(fx)@.push(Effect::Pay { token, to: recipient, amount }),
{
    fx.push(Effect::Pay { token, to: recipient, amount });
}

/// Transfers for a release that carries a fee: the recipient gets
/// `amount - fee` and the fee account the fee, when positive.
pub open spec fn release_with_fee_effects(
    token: Account,
    recipient: Account,
    amount: i128,
    bps: u32,
    fee_account: Account,
    fx: Seq<Effect>,
) -> bool {
    let fee = fee_at(amount, bps);
    &&& fx.len() == if fee > 0 { 2int } else { 1int }
    &&& fx[0] == Effect::Pay { token, to: recipient, amount: clamp_i128(amount - fee) }
    &&& fee > 0 ==> fx[1] == Effect::Pay { token, to: fee_account, amount: fee }
}

/// Pays `amount` out of escrow, the fee to the fee account and the rest to
/// `recipient`.
pub fn release_with_fee_at(
    token: Account,
    recipient: Account,
    amount: i128,
    bps: u32,
    fee_account: Account,
    fx: &mut Vec<Effect>,
)
    ensures
        final(fx)@.len() >= old(fx)@.len(),
        final(fx)@.subrange(0, old(fx)@.len() as int) == old(fx)@,
        release_with_fee_effects(
            token,
            recipient,
            amount,
            bps,
            fee_account,
            final(fx)@.subrange(old(fx)@.len() as int, final(fx)@.len() as int),
        ),
{
    let ghost start = fx@;
    let fee = compute_fee_at(amount, bps);
    let net = sat_sub(amount, fee);
    fx.push(Effect::Pay { token, to: recipient, amount: net });
    if fee > 0 {
        fx.push(Effect::Pay { token, to: fee_account, amount: fee });
    }
    assert(fx@.subrange(0, start.len() as int) =~= start);
}

/// For a non-negative amount whose product with the rate fits, the fee is
/// `amount * bps / 10_000` rounded down, and at a rate of at most 10_000
/// basis points it never exceeds the amount.
pub proof fn lemma_fee_exact(amount: i128, bps: u32)
    requires
        amount >= 0,
        amount * bps <= i128::MAX,
    ensures
        fee_at(amount, bps) == (amount * bps) / 10_000,
        0 <= fee_at(amount, bps),
        bps <= 10_000 ==> fee_at(amount, bps) <= amount,
{
    assert(amount * bps >= 0) by (nonlinear_arith)
        requires
            amount >= 0,
            bps >= 0,
    ;
    if bps <= 10_000 {
        assert((amount * bps) / 10_000 <= amount) by (nonlinear_arith)
            requires
                amount >= 0,
                0 <= bps <= 10_000,
        ;
    }
}

/// A fee taken out of a release leaves the recipient `amount - fee`, and
/// recipient and fee account together receive exactly `amount`.
pub proof fn lemma_release_splits_amount(amount: i128, bps: u32)
    requires
        amount >= 0,
        amount * bps <= i128::MAX,
        bps <= 10_000,
    ensures
        clamp_i128(amount - fee_at(amount, bps)) + fee_at(amount, bps) == amount,
        clamp_i128(amount - fee_at(amount, bps)) >= 0,
{
    lemma_fee_exact(amount, bps);
}

/// Raising the rate never lowers the fee.
pub proof fn lemma_fee_monotone_in_bps(amount: i128, b1: u32, b2: u32)
    requires
        amount >= 0,
        b1 <= b2,
        amount * b2 <= i128::MAX,
    ensures
        fee_at(amount, b1) <= fee_at(amount, b2),
{
    assert(amount * b1 <= amount * b2) by (nonlinear_arith)
        requires
            amount >= 0,
            b1 <= b2,
    ;
    lemma_fee_exact(amount, b1);
    lemma_fee_exact(amount, b2);
    assert((amount * b1) / 10_000 <= (amount * b2) / 10_000) by (nonlinear_arith)
        requires
            0 <= amount * b1 <= amount * b2,
    ;
}

impl crate::contract::EventsContract {
    /// The fee on `amount` at the contract-wide rate.
    pub fn compute_fee(&self, amount: i128) -> (fee: i128)
        ensures
            fee == fee_at(amount, self.fee_bps),
    {
        compute_fee_at(amount, self.fee_bps)
    }

    /// Collects `amount` plus the fee at the contract-wide rate from `from`;
    /// the escrow is credited with `amount`, which is returned.
    pub fn deposit_with_fee(&self, token: Account, from: Account, amount: i128, fx: &mut Vec<Effect>) -> (credited: i128)
        ensures
            credited == amount,
            final(fx)@.len() >= old(fx)@.len(),
            final(fx)@.subrange(0, old(fx)@.len() as int) == old(fx)@,
            deposit_with_fee_effects(
                token,
                from,
                amount,
                self.fee_bps,
                self.fee_account,
                final(fx)@.subrange(old(fx)@.len() as int, final(fx)@.len() as int),
            ),
    {
        deposit_with_fee_at(token, from, amount, self.fee_bps, self.fee_account, fx)
    }
}

} // verus!
