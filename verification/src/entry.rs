//! Entry: a participant pays the fee and joins the vault.

use vstd::prelude::*;
use crate::error::ErrorCode;
use crate::identity::Identity;
use crate::vault::Vault;

verus! {

/// A request to enter a vault.
#[derive(Clone, Copy, Debug, PartialEq, Eq)]
pub struct DepositEntryFee {
    /// Who enters and pays, as the host has verified it.
    pub user: Identity,
    /// The host's clock at the time of the request.
    pub now: i64,
}

/// One transfer into the escrow balance.
#[derive(Clone, Copy, Debug, PartialEq, Eq)]
pub struct Deposit {
    pub from: Identity,
    pub amount: u64,
}

/// Why an entry at time `now` is rejected, if it is: the first check that
/// fails, in the order in which they are made.
pub open spec fn entry_rejection(vault: Vault, now: i64) -> Option<ErrorCode> {
    if !vault.active {
        Some(ErrorCode::VaultInactive)
    } else if now < vault.opens_at {
        Some(ErrorCode::EntryNotOpen)
    } else if now >= vault.closes_at {
        Some(ErrorCode::EntryClosed)
    } else if vault.max_participants matches Some(max) && vault.current_participants >= max {
        Some(ErrorCode::VaultFull)
    } else if vault.current_participants + 1 > u16::MAX || vault.total_pot + vault.entry_fee
        > u64::MAX {
        Some(ErrorCode::Overflow)
    } else {
        None
    }
}

/// The vault after one more accepted entry: one more participant, and the
/// entry fee added to the pot.
pub open spec fn after_entry(vault: Vault) -> Vault {
    Vault {
        current_participants: (vault.current_participants + 1) as u16,
        total_pot: (vault.total_pot + vault.entry_fee) as u64,
        ..vault
    }
}

/// The vault after a run of entry requests, one at each of the given times
/// in their order: an accepted request changes the vault, a rejected one
/// leaves it as it was.
pub open spec fn after_entries(vault: Vault, times: Seq<i64>) -> Vault
    decreases times.len(),
{
    if times.len() == 0 {
        vault
    } else {
        let before = after_entries(vault, times.drop_last());
        if entry_rejection(before, times.last()) is None {
            after_entry(before)
        } else {
            before
        }
    }
}

/// How many requests of such a run are accepted.
pub open spec fn accepted_entries(vault: Vault, times: Seq<i64>) -> nat
    decreases times.len(),
{
    if times.len() == 0 {
        0
    } else {
        let before = after_entries(vault, times.drop_last());
        let earlier = accepted_entries(vault, times.drop_last());
        if entry_rejection(before, times.last()) is None {
            earlier + 1
        } else {
            earlier
        }
    }
}

/// Admits one participant to the vault.
///
/// The checks are made in this order, and the first that fails decides the
/// rejection: the vault is active; the entry window has opened; it has not
/// closed; the vault is not full; neither the number of participants nor
/// the pot would overflow.
///
/// On success the vault counts one more participant and its pot has grown
/// by the entry fee; the result is the transfer of the fee from the
/// participant into the escrow balance, which the host is to make. A
/// rejected request leaves the vault as it was.
///
/// The transfer and the vault's new state belong together: a host whose
/// transfer fails keeps the vault as it was before the call.
pub fn deposit_entry_fee(vault: &mut Vault, ctx: &DepositEntryFee) -> (result: Result<
    Deposit,
    ErrorCode,
>)
    ensures
        match result {
            Ok(deposit) => {
                &&& entry_rejection(*old(vault), ctx.now) is None
                &&& deposit == (Deposit { from: ctx.user, amount: old(vault).entry_fee })
                &&& *final(vault) == after_entry(*old(vault))
            },
            Err(code) => {
                &&& entry_rejection(*old(vault), ctx.now) == Some(code)
                &&& *final(vault) == *old(vault)
            },
        },
        ctx.now >= old(vault).closes_at || ctx.now < old(vault).opens_at ==> result is Err,
        old(vault).wf() ==> final(vault).wf(),
{
    if !vault.active {
        return Err(ErrorCode::VaultInactive);
    }
    if ctx.now < vault.opens_at {
        return Err(ErrorCode::EntryNotOpen);
    }
    if ctx.now >= vault.closes_at {
        return Err(ErrorCode::EntryClosed);
    }
    if let Some(max) = vault.max_participants {
        if vault.current_participants >= max {
            return Err(ErrorCode::VaultFull);
        }
    }
    let participants = match vault.current_participants.checked_add(1) {
        Some(n) => n,
        None => {
            return Err(ErrorCode::Overflow);
        },
    };
    let pot = match vault.total_pot.checked_add(vault.entry_fee) {
        Some(sum) => sum,
        None => {
            return Err(ErrorCode::Overflow);
        },
    };
    proof {
        let fee = vault.entry_fee as int;
        let count = vault.current_participants as int;
        assert(fee * (count + 1) == fee * count + fee) by (nonlinear_arith);
    }
    vault.current_participants = participants;
    vault.total_pot = pot;
    Ok(Deposit { from: ctx.user, amount: vault.entry_fee })
}

} // verus!
