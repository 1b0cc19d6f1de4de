use cryptofantasy::{
    deposit_entry_fee, initialize_vault, Deposit, DepositEntryFee, ErrorCode, ErrorKind, Identity,
    InitializeVault, Vault,
};

fn who(tag: u8) -> Identity {
    Identity::new([tag; 32])
}

fn vault_of(entry_fee: u64, max_participants: Option<u16>) -> Vault {
    let mut slot = None;
    let request = InitializeVault {
        authority: who(1),
        fee_recipient: who(2),
        entry_fee,
        max_participants,
        opens_at: 1_000,
        closes_at: 2_000,
        bump: 7,
        now: 500,
    };
    initialize_vault(&mut slot, &request).unwrap();
    slot.unwrap()
}

fn enter(vault: &mut Vault, now: i64) -> Result<Deposit, ErrorCode> {
    deposit_entry_fee(vault, &DepositEntryFee { user: who(9), now })
}

#[test]
fn entry_at_the_opening_moment_is_accepted() {
    let mut vault = vault_of(10_000_000, None);
    assert_eq!(enter(&mut vault, 1_000), Ok(Deposit { from: who(9), amount: 10_000_000 }));
    assert_eq!(vault.current_participants, 1);
    assert_eq!(vault.total_pot, 10_000_000);
}

#[test]
fn entry_before_the_opening_is_rejected() {
    let mut vault = vault_of(10_000_000, None);
    let before = vault;
    assert_eq!(enter(&mut vault, 999), Err(ErrorCode::EntryNotOpen));
    assert_eq!(ErrorCode::EntryNotOpen.kind(), ErrorKind::Temporal);
    assert_eq!(vault, before);
}

#[test]
fn entry_in_the_last_moment_is_accepted() {
    let mut vault = vault_of(10_000_000, None);
    assert!(enter(&mut vault, 1_999).is_ok());
    assert_eq!(vault.current_participants, 1);
}

#[test]
fn entry_at_the_closing_moment_is_rejected() {
    let mut vault = vault_of(10_000_000, None);
    let before = vault;
    assert_eq!(enter(&mut vault, 2_000), Err(ErrorCode::EntryClosed));
    assert_eq!(vault, before);
}

#[test]
fn entry_into_an_inactive_vault_is_rejected() {
    let mut vault = vault_of(10_000_000, None);
    vault.active = false;
    let before = vault;
    assert_eq!(enter(&mut vault, 1_500), Err(ErrorCode::VaultInactive));
    assert_eq!(ErrorCode::VaultInactive.kind(), ErrorKind::StateConflict);
    assert_eq!(vault, before);
}

#[test]
fn inactive_is_reported_before_the_window() {
    let mut vault = vault_of(10_000_000, Some(0));
    vault.active = false;
    assert_eq!(enter(&mut vault, 5_000), Err(ErrorCode::VaultInactive));
}

#[test]
fn the_window_is_reported_before_the_capacity() {
    let mut vault = vault_of(10_000_000, Some(0));
    assert_eq!(enter(&mut vault, 2_000), Err(ErrorCode::EntryClosed));
    assert_eq!(enter(&mut vault, 0), Err(ErrorCode::EntryNotOpen));
    assert_eq!(enter(&mut vault, 1_500), Err(ErrorCode::VaultFull));
}

#[test]
fn a_full_vault_rejects_entries() {
    let mut vault = vault_of(3, Some(2));
    assert!(enter(&mut vault, 1_100).is_ok());
    assert!(enter(&mut vault, 1_200).is_ok());
    let before = vault;
    assert_eq!(enter(&mut vault, 1_300), Err(ErrorCode::VaultFull));
    assert_eq!(ErrorCode::VaultFull.kind(), ErrorKind::Capacity);
    assert_eq!(vault, before);
    assert_eq!(vault.current_participants, 2);
    assert_eq!(vault.total_pot, 6);
}

#[test]
fn the_pot_does_not_wrap() {
    let mut vault = vault_of(u64::MAX / 2 + 1, None);
    assert!(enter(&mut vault, 1_100).is_ok());
    let before = vault;
    assert_eq!(enter(&mut vault, 1_200), Err(ErrorCode::Overflow));
    assert_eq!(ErrorCode::Overflow.kind(), ErrorKind::Arithmetic);
    assert_eq!(vault, before);
    assert_eq!(vault.total_pot, u64::MAX / 2 + 1);
}

#[test]
fn the_participant_count_does_not_wrap() {
    let mut vault = vault_of(0, None);
    for _ in 0..u16::MAX {
        assert!(enter(&mut vault, 1_100).is_ok());
    }
    assert_eq!(vault.current_participants, u16::MAX);
    let before = vault;
    assert_eq!(enter(&mut vault, 1_100), Err(ErrorCode::Overflow));
    assert_eq!(vault, before);
}

#[test]
fn the_pot_is_the_fee_times_the_participants() {
    let mut vault = vault_of(7_000_003, Some(40));
    let times = [900, 1_000, 1_001, 2_000, 1_500, 1_999, 3_000, 1_000, -5];
    let mut accepted: u64 = 0;
    for now in times {
        if enter(&mut vault, now).is_ok() {
            accepted += 1;
        }
        assert_eq!(vault.total_pot, 7_000_003 * u64::from(vault.current_participants));
        assert!(vault.is_well_formed());
    }
    assert_eq!(accepted, 5);
    assert_eq!(vault.current_participants, 5);
    assert_eq!(vault.total_pot, 35_000_015);
}

#[test]
fn a_free_vault_asks_for_an_empty_transfer() {
    let mut vault = vault_of(0, None);
    assert_eq!(enter(&mut vault, 1_500), Ok(Deposit { from: who(9), amount: 0 }));
    assert_eq!(vault.current_participants, 1);
    assert_eq!(vault.total_pot, 0);
}

#[test]
fn well_formedness_is_tested_on_stored_records() {
    let mut vault = vault_of(5, Some(3));
    assert!(vault.is_well_formed());
    vault.total_pot = 4;
    assert!(!vault.is_well_formed());
    vault.total_pot = 0;
    vault.current_participants = 4;
    assert!(!vault.is_well_formed());
    vault.current_participants = 3;
    vault.total_pot = 15;
    assert!(vault.is_well_formed());
    vault.distributed = true;
    assert!(!vault.is_well_formed());
    vault.active = false;
    assert!(vault.is_well_formed());
}
