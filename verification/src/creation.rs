//! Creation: a vault is set up once, by its authority.

use vstd::prelude::*;
use crate::error::ErrorCode;
use crate::identity::Identity;
use crate::vault::Vault;

verus! {

/// A request to create a vault.
#[derive(Clone, Copy, Debug, PartialEq, Eq)]
pub struct InitializeVault {
    /// Who creates the vault, as the host has verified it.
    pub authority: Identity,
    /// Who is to receive the protocol fee at settlement.
    pub fee_recipient: Identity,
    /// What each participant is to pay.
    pub entry_fee: u64,
    /// How many participants the vault is to admit; `None` sets no bound.
    pub max_participants: Option<u16>,
    /// When the entry window opens.
    pub opens_at: i64,
    /// When the entry window closes.
    pub closes_at: i64,
    /// The bump byte of the derived address of the vault's escrow.
    pub bump: u8,
    /// The host's clock at the time of the request.
    pub now: i64,
}

/// The vault that a request creates: the configuration as it was given, no
/// participants, an empty pot, active and not settled.
pub open spec fn new_vault(ctx: InitializeVault) -> Vault {
    Vault {
        authority: ctx.authority,
        fee_recipient: ctx.fee_recipient,
        entry_fee: ctx.entry_fee,
        max_participants: ctx.max_participants,
        current_participants: 0,
        opens_at: ctx.opens_at,
        closes_at: ctx.closes_at,
        active: true,
        total_pot: 0,
        distributed: false,
        created_at: ctx.now,
        bump: ctx.bump,
    }
}

/// Creates a vault in the storage slot that the host keeps for it.
///
/// An empty slot is filled with a fresh vault that holds the request's
/// configuration. A slot that already holds a vault is left as it is and
/// the request is rejected: a vault is never overwritten.
pub fn initialize_vault(slot: &mut Option<Vault>, ctx: &InitializeVault) -> (result: Result<
    (),
    ErrorCode,
>)
    ensures
        *old(slot) is None ==> result is Ok && *final(slot) == Some(new_vault(*ctx)),
        *old(slot) is None ==> final(slot)->0.wf(),
        *old(slot) is Some ==> result matches Err(ErrorCode::AlreadyInitialized),
        *old(slot) is Some ==> *final(slot) == *old(slot),
{
    if slot.is_some() {
        return Err(ErrorCode::AlreadyInitialized);
    }
    assert(ctx.entry_fee * 0 == 0) by (nonlinear_arith);
    *slot = Some(
        Vault {
            authority: ctx.authority,
            fee_recipient: ctx.fee_recipient,
            entry_fee: ctx.entry_fee,
            max_participants: ctx.max_participants,
            current_participants: 0,
            opens_at: ctx.opens_at,
            closes_at: ctx.closes_at,
            active: true,
            total_pot: 0,
            distributed: false,
            created_at: ctx.now,
            bump: ctx.bump,
        },
    );
    Ok(())
}

} // verus!
