//! The split of a pot by integer percentages.
//!
//! A split is an ordered list of shares, each naming a recipient and a
//! percentage. Every share is computed on its own against the same pot, as
//! `floor(pot * percent / 100)`; what the rounding leaves over stays where
//! the pot is held.

use vstd::prelude::*;
use crate::identity::Identity;

verus! {

/// One line of a split: who receives, and which percentage of the pot.
#[derive(Clone, Copy, Debug, PartialEq, Eq)]
pub struct Share {
    pub recipient: Identity,
    pub percent: u8,
}

/// One transfer out of the escrow balance.
#[derive(Clone, Copy, Debug, PartialEq, Eq)]
pub struct Payout {
    pub to: Identity,
    pub amount: u64,
}

/// What a share of `percent` hundredths of `pot` amounts to, rounded down.
pub open spec fn amount_of(pot: u64, percent: u8) -> nat {
    (pot as nat * percent as nat) / 100
}

/// What the rounding of that share leaves over, in hundredths of a unit.
pub open spec fn remainder_of(pot: u64, percent: u8) -> nat {
    (pot as nat * percent as nat) % 100
}

/// The sum of the percentages of a split.
pub open spec fn percent_total(split: Seq<Share>) -> nat
    decreases split.len(),
{
    if split.len() == 0 {
        0
    } else {
        percent_total(split.drop_last()) + split.last().percent as nat
    }
}

/// The sum of the amounts of a split, each share rounded down on its own.
pub open spec fn amount_total(pot: u64, split: Seq<Share>) -> nat
    decreases split.len(),
{
    if split.len() == 0 {
        0
    } else {
        amount_total(pot, split.drop_last()) + amount_of(pot, split.last().percent)
    }
}

/// The sum of what the rounding leaves over, in hundredths of a unit.
pub open spec fn remainder_total(pot: u64, split: Seq<Share>) -> nat
    decreases split.len(),
{
    if split.len() == 0 {
        0
    } else {
        remainder_total(pot, split.drop_last()) + remainder_of(pot, split.last().percent)
    }
}

/// The transfers that a split of `pot` asks for: one per share, in the order
/// of the split, a share that amounts to nothing left out.
pub open spec fn payouts_of(pot: u64, split: Seq<Share>) -> Seq<Payout>
    decreases split.len(),
{
    if split.len() == 0 {
        Seq::empty()
    } else {
        let before = payouts_of(pot, split.drop_last());
        let amount = amount_of(pot, split.last().percent);
        if amount > 0 {
            before.push(Payout { to: split.last().recipient, amount: amount as u64 })
        } else {
            before
        }
    }
}

/// The sum of the amounts of a list of transfers.
pub open spec fn paid_total(payouts: Seq<Payout>) -> nat
    decreases payouts.len(),
{
    if payouts.len() == 0 {
        0
    } else {
        paid_total(payouts.drop_last()) + payouts.last().amount as nat
    }
}

/// No recipient occurs twice.
pub open spec fn distinct_recipients(split: Seq<Share>) -> bool {
    forall|i: int, j: int|
        0 <= i < j < split.len() ==> (#[trigger] split[i]).recipient != (#[trigger] split[j]).recipient
}

/// A share of at most 100 percent is at most the pot, and the pot's
/// percentage is the share plus what the rounding left over.
pub proof fn lemma_amount_of(pot: u64, percent: u8)
    ensures
        pot as nat * percent as nat == 100 * amount_of(pot, percent) + remainder_of(pot, percent),
        remainder_of(pot, percent) < 100,
        percent <= 100 ==> amount_of(pot, percent) <= pot,
{
    let product = pot as nat * percent as nat;
    assert(product == 100 * (product / 100) + product % 100);
    if percent <= 100 {
        assert(pot as nat * percent as nat <= pot as nat * 100) by (nonlinear_arith)
            requires
                percent <= 100,
        ;
    }
}

/// The percentages of a part of a split add up to no more than those of the
/// whole.
pub proof fn lemma_percent_total_prefix(split: Seq<Share>, n: int)
    requires
        0 <= n <= split.len(),
    ensures
        percent_total(split.take(n)) <= percent_total(split),
    decreases split.len(),
{
    if n == split.len() {
        assert(split.take(n) =~= split);
    } else {
        assert(split.drop_last().take(n) =~= split.take(n));
        lemma_percent_total_prefix(split.drop_last(), n);
    }
}

/// No share of a split has a larger percentage than the split's total.
pub proof fn lemma_percent_within_total(split: Seq<Share>, i: int)
    requires
        0 <= i < split.len(),
    ensures
        split[i].percent <= percent_total(split),
    decreases split.len(),
{
    if i < split.len() - 1 {
        lemma_percent_within_total(split.drop_last(), i);
    }
}

/// What the percentages promise is what the shares amount to plus what the
/// rounding leaves over; so the shares of a split of at most 100 percent add
/// up to no more than the pot.
pub proof fn lemma_amount_total(pot: u64, split: Seq<Share>)
    ensures
        pot as nat * percent_total(split) == 100 * amount_total(pot, split) + remainder_total(
            pot,
            split,
        ),
        remainder_total(pot, split) <= 99 * split.len(),
        percent_total(split) <= 100 ==> amount_total(pot, split) <= pot,
    decreases split.len(),
{
    if split.len() > 0 {
        let before = split.drop_last();
        let percent = split.last().percent;
        lemma_amount_total(pot, before);
        lemma_amount_of(pot, percent);
        assert(pot as nat * (percent_total(before) + percent as nat) == pot as nat * percent_total(
            before,
        ) + pot as nat * percent as nat) by (nonlinear_arith);
        if percent_total(split) <= 100 {
            assert(pot as nat * percent_total(split) <= pot as nat * 100) by (nonlinear_arith)
                requires
                    percent_total(split) <= 100,
            ;
        }
    } else {
        assert(pot as nat * 0 == 0) by (nonlinear_arith);
    }
}

/// The transfers of a split pay out exactly what its shares amount to,
/// provided no share exceeds the pot.
pub proof fn lemma_paid_total_of_split(pot: u64, split: Seq<Share>)
    requires
        percent_total(split) <= 100,
    ensures
        paid_total(payouts_of(pot, split)) == amount_total(pot, split),
        payouts_of(pot, split).len() <= split.len(),
        forall|k: int|
            0 <= k < payouts_of(pot, split).len() ==> (#[trigger] payouts_of(pot, split)[k]).amount
                > 0,
    decreases split.len(),
{
    if split.len() > 0 {
        let before = split.drop_last();
        let percent = split.last().percent;
        lemma_percent_within_total(split, split.len() - 1);
        lemma_amount_of(pot, percent);
        lemma_paid_total_of_split(pot, before);
        let amount = amount_of(pot, percent);
        if amount > 0 {
            let paid = payouts_of(pot, before).push(
                Payout { to: split.last().recipient, amount: amount as u64 },
            );
            assert(paid.drop_last() =~= payouts_of(pot, before));
        }
    }
}

} // verus!
