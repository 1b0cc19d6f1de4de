use cryptofantasy::{
    deposit_entry_fee, distribute_prizes, initialize_vault, Deposit, DepositEntryFee,
    DistributePrizes, ErrorCode, ErrorKind, Identity, InitializeVault, Payout, Share, Vault,
};

const T0: i64 = 1_700_000_000;
const T1: i64 = 1_700_086_400;

fn party(tag: u8) -> Identity {
    let mut bytes = [0u8; 32];
    bytes[0] = tag;
    bytes[31] = tag;
    Identity::new(bytes)
}

fn owner() -> Identity {
    party(1)
}

fn treasury() -> Identity {
    party(2)
}

fn open_request() -> InitializeVault {
    InitializeVault {
        authority: owner(),
        fee_recipient: treasury(),
        entry_fee: 5_000_000,
        max_participants: None,
        opens_at: T0,
        closes_at: T1,
        bump: 254,
        now: T0 - 60,
    }
}

fn fresh_vault() -> Vault {
    let mut slot = None;
    initialize_vault(&mut slot, &open_request()).unwrap();
    slot.unwrap()
}

fn vault_with_three_entries() -> Vault {
    let mut vault = fresh_vault();
    for tag in [10u8, 11, 12] {
        let request = DepositEntryFee { user: party(tag), now: T0 + 10 };
        deposit_entry_fee(&mut vault, &request).unwrap();
    }
    vault
}

fn podium() -> Vec<Share> {
    vec![
        Share { recipient: party(10), percent: 50 },
        Share { recipient: party(11), percent: 30 },
        Share { recipient: party(12), percent: 20 },
    ]
}

#[test]
fn creation_stores_the_configuration() {
    let vault = fresh_vault();
    assert_eq!(
        vault,
        Vault {
            authority: owner(),
            fee_recipient: treasury(),
            entry_fee: 5_000_000,
            max_participants: None,
            current_participants: 0,
            opens_at: T0,
            closes_at: T1,
            active: true,
            total_pot: 0,
            distributed: false,
            created_at: T0 - 60,
            bump: 254,
        }
    );
    assert!(vault.is_well_formed());
}

#[test]
fn creation_never_overwrites() {
    let mut slot = Some(vault_with_three_entries());
    let before = slot;
    let mut other = open_request();
    other.entry_fee = 1;
    let result = initialize_vault(&mut slot, &other);
    assert_eq!(result, Err(ErrorCode::AlreadyInitialized));
    assert_eq!(slot, before);
}

#[test]
fn three_entries_fill_the_pot() {
    let mut vault = fresh_vault();
    for tag in [10u8, 11, 12] {
        let request = DepositEntryFee { user: party(tag), now: T0 };
        let deposit = deposit_entry_fee(&mut vault, &request).unwrap();
        assert_eq!(deposit, Deposit { from: party(tag), amount: 5_000_000 });
    }
    assert_eq!(vault.current_participants, 3);
    assert_eq!(vault.total_pot, 15_000_000);
    assert!(vault.active);
    assert!(!vault.distributed);
    assert!(vault.is_well_formed());
}

#[test]
fn settlement_splits_fifty_thirty_twenty() {
    let mut vault = vault_with_three_entries();
    let request = DistributePrizes {
        caller: owner(),
        now: T1 + 1,
        winners: podium(),
        fee_percent: 0,
        escrow_balance: 15_000_000,
    };
    let payouts = distribute_prizes(&mut vault, &request).unwrap();
    assert_eq!(
        payouts,
        vec![
            Payout { to: party(10), amount: 7_500_000 },
            Payout { to: party(11), amount: 4_500_000 },
            Payout { to: party(12), amount: 3_000_000 },
        ]
    );
    let paid: u64 = payouts.iter().map(|p| p.amount).sum();
    assert_eq!(request.escrow_balance - paid, 0);
    assert!(vault.distributed);
    assert!(!vault.active);
    assert_eq!(vault.total_pot, 15_000_000);
    assert_eq!(vault.current_participants, 3);
    assert!(vault.is_well_formed());
}

#[test]
fn second_settlement_is_rejected() {
    let mut vault = vault_with_three_entries();
    let request = DistributePrizes {
        caller: owner(),
        now: T1 + 1,
        winners: podium(),
        fee_percent: 0,
        escrow_balance: 15_000_000,
    };
    distribute_prizes(&mut vault, &request).unwrap();
    let settled = vault;

    let same = distribute_prizes(&mut vault, &request);
    assert_eq!(same, Err(ErrorCode::AlreadyDistributed));
    assert_eq!(ErrorCode::AlreadyDistributed.kind(), ErrorKind::StateConflict);
    assert_eq!(vault, settled);

    let others = DistributePrizes {
        caller: owner(),
        now: T1 + 500,
        winners: vec![
            Share { recipient: party(20), percent: 60 },
            Share { recipient: party(21), percent: 40 },
        ],
        fee_percent: 0,
        escrow_balance: 15_000_000,
    };
    assert_eq!(distribute_prizes(&mut vault, &others), Err(ErrorCode::AlreadyDistributed));
    assert_eq!(vault, settled);
}

#[test]
fn entry_after_the_window_is_rejected() {
    let mut vault = vault_with_three_entries();
    let before = vault;
    let request = DepositEntryFee { user: party(13), now: T1 + 1 };
    let result = deposit_entry_fee(&mut vault, &request);
    assert_eq!(result, Err(ErrorCode::EntryClosed));
    assert_eq!(ErrorCode::EntryClosed.kind(), ErrorKind::Temporal);
    assert_eq!(vault.total_pot, 15_000_000);
    assert_eq!(vault.current_participants, 3);
    assert_eq!(vault, before);
}

#[test]
fn settlement_with_a_repeated_winner_is_rejected() {
    let mut vault = vault_with_three_entries();
    let before = vault;
    let request = DistributePrizes {
        caller: owner(),
        now: T1 + 1,
        winners: vec![
            Share { recipient: party(10), percent: 50 },
            Share { recipient: party(10), percent: 30 },
            Share { recipient: party(12), percent: 20 },
        ],
        fee_percent: 0,
        escrow_balance: 15_000_000,
    };
    let result = distribute_prizes(&mut vault, &request);
    assert_eq!(result, Err(ErrorCode::DuplicateWinner));
    assert_eq!(ErrorCode::DuplicateWinner.kind(), ErrorKind::InputValidity);
    assert_eq!(vault, before);
    assert!(!vault.distributed);
}

#[test]
fn no_entry_after_settlement() {
    let mut vault = vault_with_three_entries();
    let request = DistributePrizes {
        caller: owner(),
        now: T1 + 1,
        winners: podium(),
        fee_percent: 0,
        escrow_balance: 15_000_000,
    };
    distribute_prizes(&mut vault, &request).unwrap();
    let late = DepositEntryFee { user: party(13), now: T0 + 1 };
    assert_eq!(deposit_entry_fee(&mut vault, &late), Err(ErrorCode::VaultInactive));
    assert_eq!(vault.current_participants, 3);
}
