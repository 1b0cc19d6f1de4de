//! What holds of the vault across its operations.

use vstd::prelude::*;
use crate::creation::{new_vault, InitializeVault};
use crate::entry::{accepted_entries, after_entries, after_entry, entry_rejection};
use crate::error::{ErrorCode, ErrorKind};
use crate::settlement::{
    after_settlement, settlement_payouts, settlement_rejection, DistributePrizes,
};
use crate::split::{
    amount_total, lemma_amount_total, lemma_paid_total_of_split, paid_total, percent_total,
    remainder_total, Share,
};
use crate::vault::Vault;

verus! {

/// One accepted entry keeps the invariant of the vault.
pub proof fn lemma_entry_keeps_invariant(vault: Vault, now: i64)
    requires
        vault.wf(),
        entry_rejection(vault, now) is None,
    ensures
        after_entry(vault).wf(),
        after_entry(vault).current_participants == vault.current_participants + 1,
        after_entry(vault).total_pot == vault.total_pot + vault.entry_fee,
{
    let fee = vault.entry_fee as int;
    let count = vault.current_participants as int;
    assert(fee * (count + 1) == fee * count + fee) by (nonlinear_arith);
}

/// Whatever requests to enter reach a well-formed vault, and in whatever
/// order, the vault stays well-formed: its pot is the entry fee times the
/// number of its participants, and a bound on the participants is kept.
/// Its configuration stays as it was, and it counts one more participant
/// for each request that was accepted.
pub proof fn lemma_entries_keep_invariant(vault: Vault, times: Seq<i64>)
    requires
        vault.wf(),
    ensures
        after_entries(vault, times).wf(),
        after_entries(vault, times).total_pot == vault.entry_fee * after_entries(
            vault,
            times,
        ).current_participants,
        vault.max_participants matches Some(max) ==> after_entries(
            vault,
            times,
        ).current_participants <= max,
        after_entries(vault, times).current_participants == vault.current_participants
            + accepted_entries(vault, times),
        after_entries(vault, times) == (Vault {
            current_participants: after_entries(vault, times).current_participants,
            total_pot: after_entries(vault, times).total_pot,
            ..vault
        }),
    decreases times.len(),
{
    if times.len() > 0 {
        lemma_entries_keep_invariant(vault, times.drop_last());
        let before = after_entries(vault, times.drop_last());
        if entry_rejection(before, times.last()) is None {
            lemma_entry_keeps_invariant(before, times.last());
        }
    }
}

/// From its creation on, through any run of requests to enter, the pot of a
/// vault is its entry fee times the number of its participants, which is
/// the number of requests accepted and within the vault's bound.
pub proof fn lemma_pot_matches_participants(ctx: InitializeVault, times: Seq<i64>)
    ensures
        after_entries(new_vault(ctx), times).total_pot == ctx.entry_fee * accepted_entries(
            new_vault(ctx),
            times,
        ),
        after_entries(new_vault(ctx), times).current_participants == accepted_entries(
            new_vault(ctx),
            times,
        ),
        ctx.max_participants matches Some(max) ==> accepted_entries(new_vault(ctx), times) <= max,
{
    assert(ctx.entry_fee * 0 == 0) by (nonlinear_arith);
    lemma_entries_keep_invariant(new_vault(ctx), times);
}

/// A vault that has been settled rejects every further request to settle
/// it, whoever asks and whatever is asked for: with a conflict of state
/// where its authority asks, as unauthorized where another does.
pub proof fn lemma_settles_once(vault: Vault, first: DistributePrizes, second: DistributePrizes)
    requires
        settlement_rejection(vault, first) is None,
    ensures
        settlement_rejection(after_settlement(vault), second) is Some,
        second.caller == vault.authority ==> settlement_rejection(
            after_settlement(vault),
            second,
        ) == Some(ErrorCode::AlreadyDistributed),
        second.caller != vault.authority ==> settlement_rejection(
            after_settlement(vault),
            second,
        ) == Some(ErrorCode::Unauthorized),
        ErrorCode::AlreadyDistributed.spec_kind() == ErrorKind::StateConflict,
        ErrorCode::Unauthorized.spec_kind() == ErrorKind::Authorization,
{
}

/// A vault that has been settled rejects every request to enter it.
pub proof fn lemma_no_entry_after_settlement(vault: Vault, now: i64)
    ensures
        entry_rejection(after_settlement(vault), now) == Some(ErrorCode::VaultInactive),
{
}

/// The transfers of a settlement add up to no more than the pot, and to no
/// more than the escrow balance holds. What they fall short of the pot's
/// share that the percentages promise is what the rounding of the shares
/// leaves over: less than one unit for each share.
pub proof fn lemma_settlement_conserves(vault: Vault, ctx: DistributePrizes)
    requires
        settlement_rejection(vault, ctx) is None,
    ensures
        paid_total(settlement_payouts(vault, ctx)) <= vault.total_pot,
        paid_total(settlement_payouts(vault, ctx)) <= ctx.escrow_balance,
        100 * paid_total(settlement_payouts(vault, ctx)) + remainder_total(
            vault.total_pot,
            ctx.split(vault.fee_recipient),
        ) == vault.total_pot * percent_total(ctx.split(vault.fee_recipient)),
        remainder_total(vault.total_pot, ctx.split(vault.fee_recipient)) <= 99 * (ctx.winners@.len()
            + 1),
{
    let split = ctx.split(vault.fee_recipient);
    lemma_amount_total(vault.total_pot, split);
    lemma_paid_total_of_split(vault.total_pot, split);
}

/// Where the percentages of a split add up to 100, the shares fall short
/// of the pot by less than one unit for each share: by at most the number
/// of shares less one.
pub proof fn lemma_dust_of_whole_split(pot: u64, split: Seq<Share>)
    requires
        percent_total(split) == 100,
    ensures
        amount_total(pot, split) <= pot,
        pot - amount_total(pot, split) <= split.len() - 1,
{
    lemma_amount_total(pot, split);
    assert(pot as nat * 100 == 100 * pot as nat) by (nonlinear_arith);
}

/// A settlement that gives the whole pot away leaves in escrow, of the
/// pot, at most one unit less than it has shares: at most as many units as
/// there are winners where a fee is taken, and one less where none is.
pub proof fn lemma_settlement_dust(vault: Vault, ctx: DistributePrizes)
    requires
        settlement_rejection(vault, ctx) is None,
        percent_total(ctx.split(vault.fee_recipient)) == 100,
    ensures
        vault.total_pot - paid_total(settlement_payouts(vault, ctx)) <= ctx.winners@.len(),
        ctx.fee_percent == 0 ==> vault.total_pot - paid_total(settlement_payouts(vault, ctx))
            <= ctx.winners@.len() - 1,
{
    let split = ctx.split(vault.fee_recipient);
    lemma_paid_total_of_split(vault.total_pot, split);
    lemma_dust_of_whole_split(vault.total_pot, split);
    assert(split.drop_last() =~= ctx.winners@);
    if ctx.fee_percent == 0 {
        assert(vault.total_pot as nat * 0 == 0) by (nonlinear_arith);
        lemma_dust_of_whole_split(vault.total_pot, ctx.winners@);
    }
}

} // verus!
