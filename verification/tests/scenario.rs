use sollotto::account::{Account, Outcome};
use sollotto::effect::Effect;
use sollotto::error::LotteryError;
use sollotto::instruction::{
    initialize_lottery, purchase_ticket, reward_winners, store_winning_numbers,
    update_sollotto_wallets, Instruction,
};
use sollotto::processor::{check_program_account, Processor};
use sollotto::pubkey::Pubkey;
use sollotto::state::{LotteryData, LotteryResultData, TicketData};

const LOTTERY: u8 = 1;
const RESULT: u8 = 2;
const HOLDING: u8 = 3;
const REWARDS: u8 = 4;
const VRF: u8 = 12;
const MINT: u8 = 7;
const MINT_AUTHORITY: u8 = 6;

fn key(byte: u8) -> Pubkey {
    Pubkey { bytes: [byte; 32] }
}

fn program() -> Pubkey {
    key(100)
}

fn mint_bytes() -> Vec<u8> {
    let mut data = vec![0u8; 82];
    data[44] = 9;
    data[45] = 1;
    data
}

/// A small ledger: the records by the first byte of their identifier.
struct Ledger {
    records: Vec<Account>,
}

impl Ledger {
    fn new() -> Ledger {
        let mut ledger = Ledger { records: Vec::new() };
        ledger.add(LOTTERY, program(), 2_000, vec![0; 120]);
        ledger.add(RESULT, program(), 1_000, vec![0; 10]);
        ledger.add(HOLDING, key(0), 0, vec![]);
        ledger.add(REWARDS, key(0), 0, vec![]);
        ledger.add(VRF, key(50), 0, vec![]);
        ledger.add(MINT, key(90), 0, mint_bytes());
        ledger.add(MINT_AUTHORITY, key(0), 0, vec![]);
        ledger
    }

    fn add(&mut self, own_key: u8, owner: Pubkey, lamports: u64, data: Vec<u8>) {
        self.records.push(Account {
            key: key(own_key),
            owner,
            is_signer: false,
            lamports,
            rent_exempt_minimum: if data.is_empty() { 0 } else { 1_000 },
            data,
        });
    }

    fn add_user(&mut self, wallet: u8, ticket: u8, token_account: u8, lamports: u64) {
        self.add(wallet, key(0), lamports, vec![]);
        self.add(ticket, program(), 1_000, vec![0; 71]);
        self.add(token_account, key(90), 1_000, vec![0; 165]);
    }

    fn position(&self, pubkey: &Pubkey) -> Option<usize> {
        self.records.iter().position(|record| record.key == *pubkey)
    }

    fn get(&self, own_key: u8) -> &Account {
        &self.records[self.position(&key(own_key)).unwrap()]
    }

    fn get_mut(&mut self, own_key: u8) -> &mut Account {
        let position = self.position(&key(own_key)).unwrap();
        &mut self.records[position]
    }

    fn round(&self) -> LotteryData {
        LotteryData::unpack_unchecked(&self.get(LOTTERY).data).unwrap()
    }

    /// Hands the request to the program as a host would: the records in the
    /// order of the request, then the effects, then the writes.
    fn submit(&mut self, ix: &Instruction, random: &[u8]) -> Result<Outcome, LotteryError> {
        let mut positions = Vec::new();
        let mut accounts = Vec::new();
        for meta in &ix.accounts {
            let position = self.position(&meta.pubkey);
            let mut record = match position {
                Some(position) => self.records[position].clone(),
                None => Account {
                    key: meta.pubkey,
                    owner: key(0),
                    is_signer: false,
                    lamports: 0,
                    rent_exempt_minimum: 0,
                    data: vec![],
                },
            };
            record.is_signer = meta.is_signer;
            positions.push(position);
            accounts.push(record);
        }
        let outcome = Processor::process(&program(), &ix.program_id, &accounts, &ix.data, random)?;
        for effect in &outcome.effects {
            if let Effect::Transfer { from, to, lamports } = effect {
                let from = self.position(from).unwrap();
                assert!(self.records[from].lamports >= *lamports);
                self.records[from].lamports -= lamports;
                let to = self.position(to).unwrap();
                self.records[to].lamports += lamports;
            }
        }
        outcome.store(&mut accounts);
        for (account, position) in accounts.into_iter().zip(positions) {
            if let Some(position) = position {
                self.records[position].data = account.data;
            }
        }
        Ok(outcome)
    }

    fn init(&mut self) -> Result<Outcome, LotteryError> {
        let ix = initialize_lottery(
            &program(),
            &program(),
            112233,
            &key(HOLDING),
            &key(REWARDS),
            &key(VRF),
            &key(LOTTERY),
        )
        .unwrap();
        self.submit(&ix, &[])
    }

    fn buy(&mut self, wallet: u8, numbers: [u8; 6]) -> Result<Outcome, LotteryError> {
        let ix = purchase_ticket(
            &program(),
            &program(),
            &key(wallet),
            &numbers,
            &key(wallet + 1),
            &key(HOLDING),
            &key(LOTTERY),
            &key(wallet + 2),
            &key(MINT_AUTHORITY),
            &key(MINT),
        )
        .unwrap();
        self.submit(&ix, &[])
    }

    fn draw(&mut self, random: &[u8]) -> Result<Outcome, LotteryError> {
        let mut ix =
            store_winning_numbers(&program(), &program(), &[0; 6], &key(LOTTERY)).unwrap();
        ix.accounts.push(sollotto::instruction::AccountMeta::new_readonly(key(VRF), false));
        self.submit(&ix, random)
    }

    fn pay_out(&mut self, participants: &Vec<(Pubkey, Pubkey)>) -> Result<Outcome, LotteryError> {
        let ix = reward_winners(
            &program(),
            &program(),
            &key(LOTTERY),
            &key(RESULT),
            &key(HOLDING),
            &key(REWARDS),
            participants,
        )
        .unwrap();
        self.submit(&ix, &[])
    }

    fn rewire(&mut self, holding: u8, rewards: u8) -> Result<Outcome, LotteryError> {
        let ix = update_sollotto_wallets(
            &program(),
            &program(),
            &key(holding),
            &key(rewards),
            &key(LOTTERY),
        )
        .unwrap();
        self.submit(&ix, &[])
    }
}

fn two_users() -> Ledger {
    let mut ledger = Ledger::new();
    ledger.add_user(20, 21, 22, 100_000_000);
    ledger.add_user(30, 31, 32, 100_000_000);
    ledger
}

#[test]
fn a_round_from_opening_to_payout() {
    let mut ledger = two_users();
    ledger.init().unwrap();
    let round = ledger.round();
    assert!(round.is_initialized && !round.is_finaled);
    assert_eq!(round.lottery_id, 112233);

    ledger.buy(20, [11, 22, 33, 44, 49, 1]).unwrap();
    ledger.buy(30, [2, 3, 4, 5, 46, 7]).unwrap();
    let round = ledger.round();
    assert_eq!(round.total_registrations, 2);
    assert_eq!(round.prize_pool_amount, 200_000_000);
    assert_eq!(ledger.get(HOLDING).lamports, 200_000_000);
    assert_eq!(ledger.get(20).lamports, 0);
    assert_eq!(ledger.get(30).lamports, 0);

    ledger.draw(&[1, 2, 3, 4, 45, 6]).unwrap();
    let round = ledger.round();
    assert!(round.is_finaled);
    assert_eq!(round.winning_numbers, [2, 3, 4, 5, 46, 7]);

    let outcome = ledger.pay_out(&vec![(key(21), key(20)), (key(31), key(30))]).unwrap();
    assert_eq!(
        outcome.effects,
        vec![
            Effect::Transfer { from: key(HOLDING), to: key(REWARDS), lamports: 10_000_000 },
            Effect::Transfer { from: key(HOLDING), to: key(30), lamports: 180_000_000 },
        ]
    );
    assert_eq!(ledger.get(REWARDS).lamports, 10_000_000);
    assert_eq!(ledger.get(30).lamports, 180_000_000);
    assert_eq!(ledger.get(20).lamports, 0);
    assert_eq!(ledger.get(HOLDING).lamports, 10_000_000);

    let round = ledger.round();
    assert!(!round.is_initialized);
    assert!(!round.is_finaled);
    assert_eq!(round.total_registrations, 0);
    assert_eq!(round.winning_numbers, [0; 6]);
    assert_eq!(round.lottery_id, 0);
    assert_eq!(round.prize_pool_amount, 10_000_000);

    let result = LotteryResultData::unpack_unchecked(&ledger.get(RESULT).data).unwrap();
    assert_eq!(result.lottery_id, 112233);
    assert_eq!(result.winning_numbers, [2, 3, 4, 5, 46, 7]);
}

#[test]
fn the_record_is_reused_for_the_next_round() {
    let mut ledger = two_users();
    ledger.init().unwrap();
    ledger.buy(20, [11, 22, 33, 44, 49, 1]).unwrap();
    ledger.draw(&[0; 6]).unwrap();
    ledger.pay_out(&vec![(key(21), key(20))]).unwrap();
    assert_eq!(ledger.round().prize_pool_amount, 95_000_000);
    ledger.init().unwrap();
    let round = ledger.round();
    assert!(round.is_initialized && !round.is_finaled);
    assert_eq!(round.prize_pool_amount, 0);
    assert_eq!(round.total_registrations, 0);
    ledger.buy(30, [2, 3, 4, 5, 46, 7]).unwrap();
    assert_eq!(ledger.round().total_registrations, 1);
}

#[test]
fn every_operation_but_init_needs_an_initialized_round() {
    let mut ledger = two_users();
    assert_eq!(ledger.buy(20, [10, 20, 30, 40, 50, 15]), Err(LotteryError::NotInitialized));
    assert_eq!(ledger.draw(&[1, 2, 3, 4, 5, 6]), Err(LotteryError::NotInitialized));
    assert_eq!(
        ledger.pay_out(&vec![(key(21), key(20)), (key(31), key(30))]),
        Err(LotteryError::NotInitialized)
    );
    assert_eq!(ledger.rewire(40, 41), Err(LotteryError::NotInitialized));
    assert_eq!(ledger.get(LOTTERY).data, vec![0; 120]);
    assert!(ledger.init().is_ok());
}

#[test]
fn init_is_refused_while_a_round_runs() {
    let mut ledger = two_users();
    ledger.init().unwrap();
    assert_eq!(ledger.init(), Err(LotteryError::AlreadyInitialized));
    ledger.draw(&[1, 2, 3, 4, 5, 6]).unwrap();
    assert_eq!(ledger.init(), Err(LotteryError::AlreadyInitialized));
}

#[test]
fn no_ticket_is_sold_after_the_draw() {
    let mut ledger = two_users();
    ledger.init().unwrap();
    ledger.buy(20, [10, 20, 30, 40, 49, 26]).unwrap();
    ledger.draw(&[9, 19, 29, 39, 48, 25]).unwrap();
    let before = ledger.get(LOTTERY).data.clone();
    assert_eq!(ledger.buy(30, [10, 20, 30, 40, 50, 30]), Err(LotteryError::AlreadyFinalized));
    assert_eq!(ledger.buy(30, [10, 20, 30, 40, 49, 26]), Err(LotteryError::AlreadyFinalized));
    assert_eq!(ledger.get(LOTTERY).data, before);
    assert_eq!(ledger.get(31).data, vec![0; 71]);
    assert_eq!(ledger.get(30).lamports, 100_000_000);
}

#[test]
fn no_rewards_before_the_draw() {
    let mut ledger = two_users();
    ledger.init().unwrap();
    ledger.buy(20, [11, 22, 33, 44, 49, 1]).unwrap();
    let before = ledger.get(LOTTERY).data.clone();
    assert_eq!(ledger.pay_out(&vec![(key(21), key(20))]), Err(LotteryError::NotFinalized));
    assert_eq!(ledger.get(LOTTERY).data, before);
    assert_eq!(ledger.get(RESULT).data, vec![0; 10]);
}

#[test]
fn the_draw_happens_once() {
    let mut ledger = two_users();
    ledger.init().unwrap();
    ledger.draw(&[1, 2, 3, 4, 5, 6]).unwrap();
    assert_eq!(ledger.draw(&[6, 5, 4, 3, 2, 1]), Err(LotteryError::AlreadyFinalized));
    assert_eq!(ledger.round().winning_numbers, [2, 3, 4, 5, 6, 7]);
}

#[test]
fn a_ticket_is_bought_once() {
    let mut ledger = two_users();
    ledger.get_mut(20).lamports = 300_000_000;
    ledger.init().unwrap();
    ledger.buy(20, [10, 20, 30, 40, 50, 29]).unwrap();
    let round = ledger.get(LOTTERY).data.clone();
    let ticket = ledger.get(21).data.clone();
    assert_eq!(ledger.buy(20, [10, 20, 30, 40, 50, 30]), Err(LotteryError::AlreadyPurchased));
    assert_eq!(ledger.buy(20, [1, 2, 3, 4, 5, 6]), Err(LotteryError::AlreadyPurchased));
    assert_eq!(ledger.get(LOTTERY).data, round);
    assert_eq!(ledger.get(21).data, ticket);
    assert_eq!(ledger.get(20).lamports, 200_000_000);
    assert_eq!(ledger.get(HOLDING).lamports, 100_000_000);
    let stored = TicketData::unpack_unchecked(&ticket).unwrap();
    assert_eq!(stored.ticket_number_arr, [10, 20, 30, 40, 50, 29]);
    assert_eq!(stored.user_wallet_pk, key(20));
}

#[test]
fn a_short_participant_list_is_refused_and_changes_nothing() {
    let mut ledger = two_users();
    ledger.init().unwrap();
    ledger.buy(20, [11, 22, 33, 44, 49, 1]).unwrap();
    ledger.buy(30, [2, 3, 4, 5, 46, 7]).unwrap();
    ledger.draw(&[1, 2, 3, 4, 45, 6]).unwrap();
    let round = ledger.get(LOTTERY).data.clone();
    assert_eq!(
        ledger.pay_out(&vec![(key(31), key(30))]),
        Err(LotteryError::InvalidParticipantsAccounts)
    );
    assert_eq!(ledger.pay_out(&vec![]), Err(LotteryError::InvalidParticipantsAccounts));
    assert_eq!(ledger.get(LOTTERY).data, round);
    assert_eq!(ledger.get(RESULT).data, vec![0; 10]);
    assert_eq!(ledger.get(HOLDING).lamports, 200_000_000);
    assert_eq!(ledger.get(REWARDS).lamports, 0);
    assert_eq!(ledger.get(30).lamports, 0);
}

#[test]
fn a_wallet_that_does_not_own_the_ticket_is_refused() {
    let mut ledger = two_users();
    ledger.add(99, key(0), 0, vec![]);
    ledger.init().unwrap();
    ledger.buy(20, [11, 22, 33, 44, 49, 1]).unwrap();
    ledger.buy(30, [2, 3, 4, 5, 46, 7]).unwrap();
    ledger.draw(&[1, 2, 3, 4, 45, 6]).unwrap();
    assert_eq!(
        ledger.pay_out(&vec![(key(21), key(99)), (key(31), key(30))]),
        Err(LotteryError::InvalidParticipantsAccounts)
    );
}

#[test]
fn rewired_wallets_are_the_ones_that_later_operations_ask_for() {
    let mut ledger = two_users();
    ledger.add(40, key(0), 0, vec![]);
    ledger.add(41, key(0), 0, vec![]);
    ledger.init().unwrap();
    ledger.rewire(40, 41).unwrap();
    let round = ledger.round();
    assert_eq!(round.holding_wallet, key(40));
    assert_eq!(round.rewards_wallet, key(41));
    assert_eq!(ledger.buy(20, [1, 2, 3, 4, 5, 6]), Err(LotteryError::InvalidWalletAccount));
    ledger.draw(&[1, 2, 3, 4, 5, 6]).unwrap();
    assert_eq!(ledger.pay_out(&vec![]), Err(LotteryError::InvalidWalletAccount));
}

#[test]
fn requests_to_another_program_are_refused() {
    let ledger = two_users();
    let ix = initialize_lottery(
        &program(),
        &program(),
        1,
        &key(HOLDING),
        &key(REWARDS),
        &key(VRF),
        &key(LOTTERY),
    )
    .unwrap();
    assert_eq!(
        Processor::process(&program(), &key(101), &ledger.records, &ix.data, &[]),
        Err(LotteryError::IncorrectProgramId)
    );
    assert_eq!(check_program_account(&key(101), &program()), Err(LotteryError::IncorrectProgramId));
    assert_eq!(check_program_account(&program(), &program()), Ok(()));
}

#[test]
fn payloads_that_do_not_decode_are_refused() {
    let ledger = two_users();
    for payload in [&[][..], &[5][..], &[0, 1, 2][..], &[1; 38][..], &[4; 64][..]] {
        assert_eq!(
            Processor::process(&program(), &program(), &ledger.records, payload, &[]),
            Err(LotteryError::InvalidInstruction)
        );
    }
}

#[test]
fn the_program_check_comes_before_the_payload() {
    let ledger = two_users();
    assert_eq!(
        Processor::process(&program(), &key(101), &ledger.records, &[], &[]),
        Err(LotteryError::IncorrectProgramId)
    );
}
