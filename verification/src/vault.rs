//! The vault: the record of one competition's configuration and totals.

use vstd::prelude::*;
use crate::identity::Identity;

verus! {

/// The persistent record of one pool. The funds themselves rest in an escrow
/// balance that the host keeps for the vault; the record tracks what has been
/// paid in and whether it has been paid out.
#[derive(Clone, Copy, Debug, PartialEq, Eq)]
pub struct Vault {
    /// Who created the vault and alone may settle it. Never changes.
    pub authority: Identity,
    /// Who receives the protocol fee at settlement. Never changes.
    pub fee_recipient: Identity,
    /// What each participant pays to enter. Never changes.
    pub entry_fee: u64,
    /// How many participants the vault admits; `None` admits any number.
    pub max_participants: Option<u16>,
    /// How many entries have been accepted.
    pub current_participants: u16,
    /// The first moment at which entries are accepted.
    pub opens_at: i64,
    /// The moment from which entries are refused; settlement comes after it.
    pub closes_at: i64,
    /// Whether the vault accepts entries. Set at creation, cleared by
    /// settlement.
    pub active: bool,
    /// The sum of the entry fees collected. Settlement reads it as the basis
    /// of the split and leaves it in place as a record.
    pub total_pot: u64,
    /// Whether the vault has been settled. Once set it stays set.
    pub distributed: bool,
    /// When the vault was created.
    pub created_at: i64,
    /// The bump byte of the derived address of the vault's escrow.
    pub bump: u8,
}

impl Vault {
    /// The invariant of a vault: the pot is the entry fee times the number
    /// of participants, a bound on the participants is kept, and a settled
    /// vault is inactive.
    pub open spec fn wf(self) -> bool {
        &&& self.total_pot == self.entry_fee * self.current_participants
        &&& (self.max_participants matches Some(max) ==> self.current_participants <= max)
        &&& (self.distributed ==> !self.active)
    }

    /// Tests the invariant, for a record that comes from storage.
    pub fn is_well_formed(&self) -> (ok: bool)
        ensures
            ok == self.wf(),
    {
        assert(self.entry_fee * self.current_participants <= 0xffff_ffff_ffff_ffff * 0xffff)
            by (nonlinear_arith);
        let expected: u128 = (self.entry_fee as u128) * (self.current_participants as u128);
        let within_bound = match self.max_participants {
            Some(max) => self.current_participants <= max,
            None => true,
        };
        self.total_pot as u128 == expected && within_bound && !(self.distributed && self.active)
    }
}

} // verus!
