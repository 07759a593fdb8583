use sollotto::account::{Account, Outcome, RecordWrite};
use sollotto::error::LotteryError;
use sollotto::pubkey::Pubkey;

fn key(byte: u8) -> Pubkey {
    Pubkey { bytes: [byte; 32] }
}

fn record(own_key: u8, lamports: u64, minimum: u64, data: Vec<u8>) -> Account {
    Account {
        key: key(own_key),
        owner: key(100),
        is_signer: true,
        lamports,
        rent_exempt_minimum: minimum,
        data,
    }
}

#[test]
fn identifiers_are_equal_when_all_bytes_agree() {
    assert!(key(1) == key(1));
    assert!(key(1) != key(2));
    let mut almost = key(1);
    almost.bytes[31] = 0;
    assert!(almost != key(1));
    almost.bytes[31] = 1;
    assert!(almost == key(1));
    let mut first = key(1);
    first.bytes[0] = 9;
    assert!(first != key(1));
}

#[test]
fn identifier_round_trips_through_its_bytes() {
    let bytes = [7u8; 32];
    assert_eq!(Pubkey::new_from_array(bytes).to_bytes(), bytes);
    assert_eq!(Pubkey::new_from_array(bytes), key(7));
}

#[test]
fn a_record_is_rent_exempt_from_the_minimum_on() {
    assert!(record(1, 1_000, 1_000, vec![]).is_rent_exempt());
    assert!(record(1, 1_001, 1_000, vec![]).is_rent_exempt());
    assert!(!record(1, 999, 1_000, vec![]).is_rent_exempt());
    assert!(record(1, 0, 0, vec![]).is_rent_exempt());
}

#[test]
fn storing_writes_replaces_the_bytes_and_nothing_else() {
    let mut accounts = vec![
        record(1, 10, 5, vec![1, 1]),
        record(2, 20, 5, vec![2, 2]),
        record(3, 30, 5, vec![3, 3]),
    ];
    let outcome = Outcome {
        effects: vec![],
        writes: vec![
            RecordWrite { index: 2, data: vec![9, 9, 9] },
            RecordWrite { index: 0, data: vec![] },
        ],
    };
    outcome.store(&mut accounts);
    assert_eq!(
        accounts,
        vec![record(1, 10, 5, vec![]), record(2, 20, 5, vec![2, 2]), record(3, 30, 5, vec![9, 9, 9])]
    );
}

#[test]
fn a_later_write_to_the_same_record_wins() {
    let mut accounts = vec![record(1, 10, 5, vec![1])];
    let outcome = Outcome {
        effects: vec![],
        writes: vec![
            RecordWrite { index: 0, data: vec![2] },
            RecordWrite { index: 0, data: vec![3] },
        ],
    };
    outcome.store(&mut accounts);
    assert_eq!(accounts[0].data, vec![3]);
}

#[test]
fn a_write_to_a_missing_position_changes_nothing() {
    let mut accounts = vec![record(1, 10, 5, vec![1])];
    let outcome =
        Outcome { effects: vec![], writes: vec![RecordWrite { index: 1, data: vec![2] }] };
    outcome.store(&mut accounts);
    assert_eq!(accounts, vec![record(1, 10, 5, vec![1])]);
}

#[test]
fn the_validator_checks_owner_signer_and_balance() {
    let mut account = record(1, 1_000, 1_000, vec![]);
    assert_eq!(account.check_owner(&key(100)), Ok(()));
    assert_eq!(account.check_owner(&key(101)), Err(LotteryError::IncorrectOwner));
    assert_eq!(account.check_owner(&key(1)), Err(LotteryError::IncorrectOwner));
    assert_eq!(account.check_signer(), Ok(()));
    assert_eq!(account.check_rent_exempt(), Ok(()));
    account.is_signer = false;
    assert_eq!(account.check_signer(), Err(LotteryError::MissingSignature));
    account.lamports = 999;
    assert_eq!(account.check_rent_exempt(), Err(LotteryError::NotRentExempt));
}
