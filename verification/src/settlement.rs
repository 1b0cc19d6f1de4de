//! Settlement: the one-time distribution of a vault's pot.

use vstd::prelude::*;
use crate::error::ErrorCode;
use crate::identity::Identity;
use crate::split::{
    amount_of, amount_total, distinct_recipients, lemma_amount_of, lemma_amount_total,
    lemma_paid_total_of_split, lemma_percent_total_prefix, lemma_percent_within_total, paid_total,
    payouts_of, percent_total, Payout, Share,
};
use crate::vault::Vault;

verus! {

/// A request to settle a vault.
#[derive(Debug, PartialEq, Eq)]
pub struct DistributePrizes {
    /// Who asks, as the host has verified it.
    pub caller: Identity,
    /// The host's clock at the time of the request.
    pub now: i64,
    /// The winners from first place down, each with its percentage of the pot.
    pub winners: Vec<Share>,
    /// The percentage of the pot that goes to the vault's fee recipient.
    pub fee_percent: u8,
    /// What the vault's escrow balance holds at the time of the request.
    pub escrow_balance: u64,
}

impl DistributePrizes {
    /// The whole split that the request asks for: the winners in their
    /// order, then the protocol fee.
    pub open spec fn split(self, fee_recipient: Identity) -> Seq<Share> {
        self.winners@.push(Share { recipient: fee_recipient, percent: self.fee_percent })
    }
}

/// The transfers that settling `vault` on request `ctx` asks for.
pub open spec fn settlement_payouts(vault: Vault, ctx: DistributePrizes) -> Seq<Payout> {
    payouts_of(vault.total_pot, ctx.split(vault.fee_recipient))
}

/// Why a request to settle is rejected, if it is: the first check that fails,
/// in the order in which they are made.
pub open spec fn settlement_rejection(vault: Vault, ctx: DistributePrizes) -> Option<ErrorCode> {
    if ctx.caller != vault.authority {
        Some(ErrorCode::Unauthorized)
    } else if vault.distributed {
        Some(ErrorCode::AlreadyDistributed)
    } else if ctx.now <= vault.closes_at {
        Some(ErrorCode::SettlementTooEarly)
    } else if !distinct_recipients(ctx.winners@) {
        Some(ErrorCode::DuplicateWinner)
    } else if percent_total(ctx.split(vault.fee_recipient)) > 100 {
        Some(ErrorCode::InvalidSplit)
    } else if ctx.escrow_balance < paid_total(settlement_payouts(vault, ctx)) {
        Some(ErrorCode::InsufficientEscrow)
    } else {
        None
    }
}

/// The vault once settled: marked as distributed and retired, the pot left
/// in place as a record.
pub open spec fn after_settlement(vault: Vault) -> Vault {
    Vault { distributed: true, active: false, ..vault }
}

/// Whether no identity occurs twice among the winners.
fn winners_are_distinct(winners: &Vec<Share>) -> (distinct: bool)
    ensures
        distinct == distinct_recipients(winners@),
{
    let n = winners.len();
    let mut j: usize = 0;
    while j < n
        invariant
            j <= n,
            n == winners.len(),
            forall|a: int, b: int|
                0 <= a < b < j ==> (#[trigger] winners@[a]).recipient != (
                #[trigger] winners@[b]).recipient,
        decreases n - j,
    {
        let mut i: usize = 0;
        while i < j
            invariant
                i <= j < n,
                n == winners.len(),
                forall|a: int|
                    0 <= a < i ==> (#[trigger] winners@[a]).recipient != winners@[j as int].recipient,
            decreases j - i,
        {
            if winners[i].recipient == winners[j].recipient {
                return false;
            }
            i = i + 1;
        }
        j = j + 1;
    }
    true
}

/// Whether the percentages of the winners and of the fee add up to at most
/// 100.
fn split_is_within_whole(winners: &Vec<Share>, fee: Share) -> (valid: bool)
    ensures
        valid == (percent_total(winners@.push(fee)) <= 100),
{
    let n = winners.len();
    assert(winners@.push(fee).drop_last() =~= winners@);
    if fee.percent > 100 {
        return false;
    }
    let mut sum: u32 = fee.percent as u32;
    let mut i: usize = 0;
    while i < n
        invariant
            i <= n,
            n == winners.len(),
            percent_total(winners@.push(fee)) == percent_total(winners@) + fee.percent,
            sum == fee.percent + percent_total(winners@.take(i as int)),
            sum <= 100,
        decreases n - i,
    {
        assert(winners@.take(i + 1).drop_last() =~= winners@.take(i as int));
        sum = sum + winners[i].percent as u32;
        if sum > 100 {
            proof {
                lemma_percent_total_prefix(winners@, i + 1);
            }
            return false;
        }
        i = i + 1;
    }
    assert(winners@.take(n as int) =~= winners@);
    true
}

/// What a share of `percent` hundredths of `pot` amounts to.
fn share_amount(pot: u64, percent: u8) -> (amount: u64)
    requires
        percent <= 100,
    ensures
        amount == amount_of(pot, percent),
{
    proof {
        lemma_amount_of(pot, percent);
        assert(pot * percent <= 0xffff_ffff_ffff_ffff * 100) by (nonlinear_arith)
            requires
                percent <= 100,
        ;
    }
    let product: u128 = (pot as u128) * (percent as u128);
    (product / 100) as u64
}

/// Computes the transfers of a settlement and what they add up to.
fn plan_payouts(pot: u64, winners: &Vec<Share>, fee: Share) -> (plan: (Vec<Payout>, u64))
    requires
        percent_total(winners@.push(fee)) <= 100,
    ensures
        plan.0@ == payouts_of(pot, winners@.push(fee)),
        plan.1 == paid_total(plan.0@),
        plan.1 <= pot,
        forall|k: int| 0 <= k < plan.0@.len() ==> (#[trigger] plan.0@[k]).amount > 0,
{
    let n = winners.len();
    let ghost split = winners@.push(fee);
    let mut payouts: Vec<Payout> = Vec::new();
    let mut paid: u64 = 0;
    let mut i: usize = 0;
    proof {
        assert(split.drop_last() =~= winners@);
        lemma_amount_total(pot, split);
    }
    while i < n
        invariant
            i <= n,
            n == winners.len(),
            split == winners@.push(fee),
            percent_total(split) <= 100,
            payouts@ == payouts_of(pot, winners@.take(i as int)),
            paid == amount_total(pot, winners@.take(i as int)),
        decreases n - i,
    {
        let share = winners[i];
        proof {
            let next = winners@.take(i + 1);
            assert(next.drop_last() =~= winners@.take(i as int));
            assert(split.take(i + 1) =~= next);
            lemma_percent_total_prefix(split, i + 1);
            lemma_amount_total(pot, next);
            lemma_percent_within_total(next, i as int);
        }
        let amount = share_amount(pot, share.percent);
        if amount > 0 {
            payouts.push(Payout { to: share.recipient, amount });
        }
        paid = paid + amount;
        i = i + 1;
    }
    proof {
        assert(winners@.take(n as int) =~= winners@);
        lemma_percent_within_total(split, n as int);
    }
    let amount = share_amount(pot, fee.percent);
    if amount > 0 {
        payouts.push(Payout { to: fee.recipient, amount });
    }
    paid = paid + amount;
    proof {
        lemma_paid_total_of_split(pot, split);
    }
    (payouts, paid)
}

/// Settles the vault: splits the pot among the winners and the fee
/// recipient and marks the vault as distributed.
///
/// The checks are made in this order, and the first that fails decides the
/// rejection: the caller is the vault's authority; the vault has not been
/// settled; the entry window has closed; no winner occurs twice; the
/// percentages add up to at most 100; the escrow balance covers the shares.
///
/// On success the result lists the transfers that the host is to make out
/// of the escrow balance, in the order of the winners and with the fee
/// last; a share that amounts to nothing asks for no transfer. A rejected
/// request leaves the vault as it was.
///
/// The transfers and the vault's new state belong together: a host that
/// cannot make every one of the transfers keeps the vault as it was before
/// the call, so that the settlement can be asked for again.
pub fn distribute_prizes(vault: &mut Vault, ctx: &DistributePrizes) -> (result: Result<
    Vec<Payout>,
    ErrorCode,
>)
    ensures
        match result {
            Ok(payouts) => {
                &&& settlement_rejection(*old(vault), *ctx) is None
                &&& payouts@ == settlement_payouts(*old(vault), *ctx)
                &&& *final(vault) == after_settlement(*old(vault))
            },
            Err(code) => {
                &&& settlement_rejection(*old(vault), *ctx) == Some(code)
                &&& *final(vault) == *old(vault)
            },
        },
        ctx.caller != old(vault).authority ==> result matches Err(ErrorCode::Unauthorized),
        ctx.caller == old(vault).authority && old(vault).distributed ==> result matches Err(
            ErrorCode::AlreadyDistributed,
        ),
        ctx.now <= old(vault).closes_at ==> result is Err,
        result matches Ok(payouts) ==> paid_total(payouts@) <= old(vault).total_pot,
        result matches Ok(payouts) ==> paid_total(payouts@) <= ctx.escrow_balance,
        result matches Ok(payouts) ==> forall|k: int|
            0 <= k < payouts@.len() ==> (#[trigger] payouts@[k]).amount > 0,
        old(vault).wf() ==> final(vault).wf(),
{
    if ctx.caller != vault.authority {
        return Err(ErrorCode::Unauthorized);
    }
    if vault.distributed {
        return Err(ErrorCode::AlreadyDistributed);
    }
    if ctx.now <= vault.closes_at {
        return Err(ErrorCode::SettlementTooEarly);
    }
    if !winners_are_distinct(&ctx.winners) {
        return Err(ErrorCode::DuplicateWinner);
    }
    let fee = Share { recipient: vault.fee_recipient, percent: ctx.fee_percent };
    if !split_is_within_whole(&ctx.winners, fee) {
        return Err(ErrorCode::InvalidSplit);
    }
    let (payouts, paid) = plan_payouts(vault.total_pot, &ctx.winners, fee);
    if ctx.escrow_balance < paid {
        return Err(ErrorCode::InsufficientEscrow);
    }
    vault.distributed = true;
    vault.active = false;
    Ok(payouts)
}

} // verus!
