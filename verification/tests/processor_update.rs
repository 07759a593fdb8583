use sollotto::account::Account;
use sollotto::error::LotteryError;
use sollotto::processor::Processor;
use sollotto::pubkey::Pubkey;
use sollotto::state::LotteryData;

fn key(byte: u8) -> Pubkey {
    Pubkey { bytes: [byte; 32] }
}

fn program() -> Pubkey {
    key(100)
}

fn round(is_initialized: bool, is_finaled: bool) -> LotteryData {
    LotteryData {
        is_initialized,
        is_finaled,
        lottery_id: 112233,
        total_registrations: 4,
        winning_numbers: if is_finaled { [2, 3, 4, 5, 46, 7] } else { [0; 6] },
        prize_pool_amount: 400_000_000,
        holding_wallet: key(10),
        rewards_wallet: key(11),
        randomness_account: key(12),
    }
}

fn accounts_with(data: Vec<u8>) -> Vec<Account> {
    vec![Account {
        key: key(1),
        owner: program(),
        is_signer: true,
        lamports: 0,
        rent_exempt_minimum: 5_000,
        data,
    }]
}

fn update(accounts: &[Account]) -> Result<sollotto::account::Outcome, LotteryError> {
    Processor::process_update_sollotto_wallets(&program(), accounts, key(30), key(31))
}

#[test]
fn update_replaces_both_wallets_and_nothing_else() {
    let before = round(true, false);
    let outcome = update(&accounts_with(before.to_bytes())).unwrap();
    assert!(outcome.effects.is_empty());
    assert_eq!(outcome.writes.len(), 1);
    assert_eq!(outcome.writes[0].index, 0);
    let after = LotteryData::unpack_unchecked(&outcome.writes[0].data).unwrap();
    assert_eq!(
        after,
        LotteryData { holding_wallet: key(30), rewards_wallet: key(31), ..before }
    );
}

#[test]
fn update_works_on_a_finalized_round() {
    let before = round(true, true);
    let outcome = update(&accounts_with(before.to_bytes())).unwrap();
    let after = LotteryData::unpack_unchecked(&outcome.writes[0].data).unwrap();
    assert!(after.is_finaled);
    assert_eq!(after.winning_numbers, [2, 3, 4, 5, 46, 7]);
    assert_eq!(after.holding_wallet, key(30));
    assert_eq!(after.rewards_wallet, key(31));
}

#[test]
fn update_refuses_an_empty_round() {
    assert_eq!(update(&accounts_with(vec![0; 120])), Err(LotteryError::NotInitialized));
    assert_eq!(
        update(&accounts_with(round(false, true).to_bytes())),
        Err(LotteryError::NotInitialized)
    );
}

#[test]
fn update_checks_owner_signer_and_bytes() {
    assert_eq!(update(&[]), Err(LotteryError::NotEnoughAccountKeys));
    let mut accounts = accounts_with(round(true, false).to_bytes());
    accounts[0].owner = key(101);
    assert_eq!(update(&accounts), Err(LotteryError::IncorrectOwner));
    accounts[0].owner = program();
    accounts[0].is_signer = false;
    assert_eq!(update(&accounts), Err(LotteryError::MissingSignature));
    accounts[0].is_signer = true;
    accounts[0].data.push(0);
    assert_eq!(update(&accounts), Err(LotteryError::InvalidAccountData));
}

#[test]
fn update_does_not_ask_for_the_minimum_balance() {
    let accounts = accounts_with(round(true, false).to_bytes());
    assert!(accounts[0].lamports < accounts[0].rent_exempt_minimum);
    assert!(update(&accounts).is_ok());
}
