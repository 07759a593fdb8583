//! The five operations of the lottery.
//!
//! Each operation names the records it expects by their position in the list
//! it is handed, checks them in a fixed order and stops at the first check
//! that fails. An operation that passes every check answers with an
//! [`Outcome`]; it never changes a record itself.
use vstd::prelude::*;
use vstd::slice::slice_subrange;
use crate::account::{
    account_views, Account, AccountView, Outcome, OutcomeView, RecordWrite, RecordWriteView,
};
use crate::effect::{Effect, EffectView};
use crate::error::LotteryError;
use crate::instruction::{LotteryInstruction, LotteryInstructionView};
use crate::numbers::{
    check_numbers, derive_winning_numbers, derived_numbers, valid_numbers, RANDOM_BYTES_NEEDED,
};
use crate::pubkey::{zeros, Pubkey};
use crate::rewards::{distribute, round_total, round_transfers, ticket_views};
use crate::state::{
    LotteryData, LotteryDataView, LotteryResultData, LotteryResultDataView, TicketData,
    TicketDataView, LOTTERY_DATA_LEN, LOTTERY_RESULT_DATA_LEN, TICKET_DATA_LEN,
};
use crate::token::{mint_decimals, pow10, token_amount, unpack_mint_decimals};

verus! {

/// Price of one ticket: a tenth of a currency unit, in the smallest unit.
pub const TICKET_PRICE: u64 = 100_000_000;

/// Whole loyalty tokens minted for each ticket.
pub const TOKENS_PER_TICKET: u64 = 1;

/// Records that opening a round names: the round and the host's rent record.
pub const INIT_RECORDS: usize = 2;

/// Records that a purchase names.
pub const PURCHASE_RECORDS: usize = 10;

/// Records that storing the winning numbers names: the round and the
/// randomness source.
pub const STORE_RECORDS: usize = 2;

/// Records that a distribution names in front of the participants.
pub const REWARD_RECORDS: usize = 5;

/// Records that a change of wallets names: the round.
pub const UPDATE_RECORDS: usize = 1;

/// The record's bytes are one well-formed round, no more and no less.
pub open spec fn round_decodes(account: AccountView) -> bool {
    account.data.len() == LOTTERY_DATA_LEN && LotteryDataView::decodes(account.data)
}

/// The round that a record holds.
pub open spec fn round_of(account: AccountView) -> LotteryDataView {
    LotteryDataView::unpacked(account.data)
}

/// The record's bytes are one well-formed ticket, no more and no less.
pub open spec fn ticket_decodes(account: AccountView) -> bool {
    account.data.len() == TICKET_DATA_LEN && TicketDataView::decodes(account.data)
}

/// The ticket that a record holds.
pub open spec fn ticket_of(account: AccountView) -> TicketDataView {
    TicketDataView::unpacked(account.data)
}

/// Six zeros: the winning numbers of a round that has none.
pub open spec fn no_numbers() -> Seq<u8> {
    zeros(6)
}

/// An outcome without effects that gives the record at position 0 new
/// contents.
pub open spec fn round_written(round: LotteryDataView) -> OutcomeView {
    OutcomeView {
        effects: Seq::empty(),
        writes: seq![RecordWriteView { index: 0, data: round.packed() }],
    }
}

/// Accepts `program_id` exactly when it names the lottery program.
pub fn check_program_account(program_id: &Pubkey, lottery_program: &Pubkey) -> (r: Result<
    (),
    LotteryError,
>)
    ensures
        program_id@ == lottery_program@ ==> r == Ok::<(), LotteryError>(()),
        program_id@ != lottery_program@ ==> r == Err::<(), LotteryError>(
            LotteryError::IncorrectProgramId,
        ),
{
    if *program_id != *lottery_program {
        return Err(LotteryError::IncorrectProgramId);
    }
    Ok(())
}

/// Why opening a round is refused, if it is: the first of the checks, in
/// this order, that fails. The records are, by position: the round and the
/// host's rent record.
pub open spec fn init_refusal(program_id: Seq<u8>, accounts: Seq<AccountView>) -> Option<
    LotteryError,
> {
    if accounts.len() < INIT_RECORDS {
        Some(LotteryError::NotEnoughAccountKeys)
    } else if accounts[0].owner != program_id {
        Some(LotteryError::IncorrectOwner)
    } else if !accounts[0].is_signer {
        Some(LotteryError::MissingSignature)
    } else if !accounts[0].rent_exempt() {
        Some(LotteryError::NotRentExempt)
    } else if !round_decodes(accounts[0]) {
        Some(LotteryError::InvalidAccountData)
    } else if round_of(accounts[0]).is_initialized {
        Some(LotteryError::AlreadyInitialized)
    } else {
        None
    }
}

/// A round as it is opened: initialized, not finalized, without tickets,
/// stake or winning numbers.
pub open spec fn opened_round(
    lottery_id: u32,
    holding_wallet: Seq<u8>,
    rewards_wallet: Seq<u8>,
    randomness_account: Seq<u8>,
) -> LotteryDataView {
    LotteryDataView {
        is_initialized: true,
        is_finaled: false,
        lottery_id: lottery_id,
        total_registrations: 0,
        winning_numbers: no_numbers(),
        prize_pool_amount: 0,
        holding_wallet: holding_wallet,
        rewards_wallet: rewards_wallet,
        randomness_account: randomness_account,
    }
}

/// Why storing the winning numbers is refused, if it is: the first of the
/// checks, in this order, that fails. The records are, by position: the
/// round and the randomness source.
pub open spec fn store_refusal(
    program_id: Seq<u8>,
    accounts: Seq<AccountView>,
    random_numbers: Seq<u8>,
) -> Option<LotteryError> {
    if accounts.len() < STORE_RECORDS {
        Some(LotteryError::NotEnoughAccountKeys)
    } else if accounts[0].owner != program_id {
        Some(LotteryError::IncorrectOwner)
    } else if !accounts[0].is_signer {
        Some(LotteryError::MissingSignature)
    } else if !round_decodes(accounts[0]) {
        Some(LotteryError::InvalidAccountData)
    } else if !round_of(accounts[0]).is_initialized {
        Some(LotteryError::NotInitialized)
    } else if round_of(accounts[0]).is_finaled {
        Some(LotteryError::AlreadyFinalized)
    } else if random_numbers.len() < RANDOM_BYTES_NEEDED {
        Some(LotteryError::InvalidRandomResult)
    } else {
        None
    }
}

/// A round once its winning numbers are stored.
pub open spec fn finalized_round(round: LotteryDataView, random_numbers: Seq<u8>) -> LotteryDataView {
    LotteryDataView {
        is_finaled: true,
        winning_numbers: derived_numbers(random_numbers),
        ..round
    }
}

/// Why changing the wallets is refused, if it is: the first of the checks,
/// in this order, that fails. The one record is the round.
pub open spec fn update_refusal(program_id: Seq<u8>, accounts: Seq<AccountView>) -> Option<
    LotteryError,
> {
    if accounts.len() < UPDATE_RECORDS {
        Some(LotteryError::NotEnoughAccountKeys)
    } else if accounts[0].owner != program_id {
        Some(LotteryError::IncorrectOwner)
    } else if !accounts[0].is_signer {
        Some(LotteryError::MissingSignature)
    } else if !round_decodes(accounts[0]) {
        Some(LotteryError::InvalidAccountData)
    } else if !round_of(accounts[0]).is_initialized {
        Some(LotteryError::NotInitialized)
    } else {
        None
    }
}

/// A round with its two wallets replaced.
pub open spec fn rewired_round(
    round: LotteryDataView,
    holding_wallet: Seq<u8>,
    rewards_wallet: Seq<u8>,
) -> LotteryDataView {
    LotteryDataView { holding_wallet: holding_wallet, rewards_wallet: rewards_wallet, ..round }
}

/// Why a purchase is refused, if it is: the first of the checks, in this
/// order, that fails. The records are, by position: the round, the ticket,
/// the payer, the holding wallet, the buyer's token account, the token
/// authority, the token mint, and three records of the host. `decimals` are
/// the decimals of the token mint, if its record decodes.
pub open spec fn purchase_refusal(
    program_id: Seq<u8>,
    accounts: Seq<AccountView>,
    numbers: Seq<u8>,
    decimals: Option<u8>,
) -> Option<LotteryError> {
    if accounts.len() < PURCHASE_RECORDS {
        Some(LotteryError::NotEnoughAccountKeys)
    } else if accounts[0].owner != program_id {
        Some(LotteryError::IncorrectOwner)
    } else if accounts[1].owner != program_id {
        Some(LotteryError::IncorrectOwner)
    } else if !accounts[0].is_signer {
        Some(LotteryError::MissingSignature)
    } else if !accounts[2].is_signer {
        Some(LotteryError::MissingSignature)
    } else if !accounts[5].is_signer {
        Some(LotteryError::MissingSignature)
    } else if !round_decodes(accounts[0]) {
        Some(LotteryError::InvalidAccountData)
    } else if !round_of(accounts[0]).is_initialized {
        Some(LotteryError::NotInitialized)
    } else if round_of(accounts[0]).is_finaled {
        Some(LotteryError::AlreadyFinalized)
    } else if accounts[3].key != round_of(accounts[0]).holding_wallet {
        Some(LotteryError::InvalidWalletAccount)
    } else if accounts[2].lamports < TICKET_PRICE {
        Some(LotteryError::InsufficientFunds)
    } else if !accounts[0].rent_exempt() {
        Some(LotteryError::NotRentExempt)
    } else if !accounts[1].rent_exempt() {
        Some(LotteryError::NotRentExempt)
    } else if !ticket_decodes(accounts[1]) {
        Some(LotteryError::InvalidAccountData)
    } else if ticket_of(accounts[1]).is_purchased {
        Some(LotteryError::AlreadyPurchased)
    } else if !valid_numbers(numbers) {
        Some(LotteryError::InvalidNumber)
    } else if decimals is None {
        Some(LotteryError::InvalidAccountData)
    } else if minted_amount(decimals->Some_0) > u64::MAX || round_of(
        accounts[0],
    ).total_registrations + 1 > u32::MAX || round_of(accounts[0]).prize_pool_amount
        + TICKET_PRICE > u64::MAX {
        Some(LotteryError::Overflow)
    } else {
        None
    }
}

/// The base units of the loyalty tokens that one ticket earns, for a mint
/// with `decimals` decimals.
pub open spec fn minted_amount(decimals: u8) -> nat {
    TOKENS_PER_TICKET as nat * pow10(decimals as nat)
}

/// A ticket once it is bought: marked, with its owner and numbers; the
/// designated recipient stays.
pub open spec fn purchased_ticket(
    ticket: TicketDataView,
    user_wallet_pk: Seq<u8>,
    numbers: Seq<u8>,
) -> TicketDataView {
    TicketDataView {
        is_purchased: true,
        user_wallet_pk: user_wallet_pk,
        ticket_number_arr: numbers,
        ..ticket
    }
}

/// A round once one more ticket is sold.
pub open spec fn round_after_purchase(round: LotteryDataView) -> LotteryDataView {
    LotteryDataView {
        total_registrations: (round.total_registrations + 1) as u32,
        prize_pool_amount: (round.prize_pool_amount + TICKET_PRICE) as u64,
        ..round
    }
}

/// What a purchase asks for: the price goes from the payer to the holding
/// wallet, one loyalty token is minted to the buyer, and the ticket and the
/// round are stored.
pub open spec fn purchase_outcome(
    accounts: Seq<AccountView>,
    user_wallet_pk: Seq<u8>,
    numbers: Seq<u8>,
    decimals: u8,
) -> OutcomeView {
    OutcomeView {
        effects: seq![
            EffectView::Transfer {
                from: accounts[2].key,
                to: round_of(accounts[0]).holding_wallet,
                lamports: TICKET_PRICE,
            },
            EffectView::MintTo {
                mint: accounts[6].key,
                account: accounts[4].key,
                authority: accounts[5].key,
                amount: minted_amount(decimals) as u64,
            },
        ],
        writes: seq![
            RecordWriteView {
                index: 1,
                data: purchased_ticket(ticket_of(accounts[1]), user_wallet_pk, numbers).packed(),
            },
            RecordWriteView { index: 0, data: round_after_purchase(round_of(accounts[0])).packed() },
        ],
    }
}

/// The records behind the five fixed positions of a distribution: pairs of a
/// ticket record and its owner's wallet.
pub open spec fn participants_of(accounts: Seq<AccountView>) -> Seq<AccountView> {
    accounts.subrange(REWARD_RECORDS as int, accounts.len() as int)
}

/// Why one pair of the participant list is refused, if it is.
pub open spec fn pair_refusal(
    program_id: Seq<u8>,
    ticket_account: AccountView,
    wallet_account: AccountView,
) -> Option<LotteryError> {
    if ticket_account.owner != program_id {
        Some(LotteryError::InvalidParticipantsAccounts)
    } else if !ticket_decodes(ticket_account) {
        Some(LotteryError::InvalidAccountData)
    } else if !ticket_of(ticket_account).is_purchased {
        Some(LotteryError::InvalidParticipantsAccounts)
    } else if ticket_of(ticket_account).user_wallet_pk != wallet_account.key {
        Some(LotteryError::InvalidParticipantsAccounts)
    } else {
        None
    }
}

/// Why the participant list is refused, if it is: the refusal of the first
/// pair, from pair `from` on, that has one.
pub open spec fn pairs_refusal(
    program_id: Seq<u8>,
    participants: Seq<AccountView>,
    from: int,
) -> Option<LotteryError>
    decreases participants.len() - 2 * from,
{
    if from < 0 || 2 * from + 1 >= participants.len() {
        None
    } else {
        match pair_refusal(program_id, participants[2 * from], participants[2 * from + 1]) {
            Some(e) => Some(e),
            None => pairs_refusal(program_id, participants, from + 1),
        }
    }
}

/// The tickets of the participant list, in order.
pub open spec fn participant_tickets(participants: Seq<AccountView>) -> Seq<TicketDataView> {
    Seq::new(participants.len() / 2, |i: int| ticket_of(participants[2 * i]))
}

/// Why a distribution is refused, if it is: the first of the checks, in
/// this order, that fails. The records are, by position: the round, the
/// result, the holding wallet, the rewards wallet, a record of the host, and
/// the participants in pairs.
pub open spec fn reward_refusal(program_id: Seq<u8>, accounts: Seq<AccountView>) -> Option<
    LotteryError,
> {
    if accounts.len() < REWARD_RECORDS {
        Some(LotteryError::NotEnoughAccountKeys)
    } else if accounts[0].owner != program_id {
        Some(LotteryError::IncorrectOwner)
    } else if accounts[1].owner != program_id {
        Some(LotteryError::IncorrectOwner)
    } else if !accounts[0].is_signer {
        Some(LotteryError::MissingSignature)
    } else if !accounts[2].is_signer {
        Some(LotteryError::MissingSignature)
    } else if !round_decodes(accounts[0]) {
        Some(LotteryError::InvalidAccountData)
    } else if !round_of(accounts[0]).is_initialized {
        Some(LotteryError::NotInitialized)
    } else if !round_of(accounts[0]).is_finaled {
        Some(LotteryError::NotFinalized)
    } else if accounts[2].key != round_of(accounts[0]).holding_wallet {
        Some(LotteryError::InvalidWalletAccount)
    } else if accounts[3].key != round_of(accounts[0]).rewards_wallet {
        Some(LotteryError::InvalidWalletAccount)
    } else if participants_of(accounts).len() != 2 * round_of(accounts[0]).total_registrations {
        Some(LotteryError::InvalidParticipantsAccounts)
    } else if pairs_refusal(program_id, participants_of(accounts), 0) is Some {
        pairs_refusal(program_id, participants_of(accounts), 0)
    } else if accounts[2].lamports < round_of(accounts[0]).prize_pool_amount {
        Some(LotteryError::InsufficientFunds)
    } else if round_total(
        participant_tickets(participants_of(accounts)),
        round_of(accounts[0]).winning_numbers,
        round_of(accounts[0]).prize_pool_amount,
    ) > round_of(accounts[0]).prize_pool_amount {
        Some(LotteryError::InsufficientFunds)
    } else if accounts[1].data.len() != LOTTERY_RESULT_DATA_LEN {
        Some(LotteryError::InvalidAccountData)
    } else {
        None
    }
}

/// A round once its rewards are paid: empty again, with what is left of the
/// pool; the wallets and the randomness source stay.
pub open spec fn closed_round(round: LotteryDataView, pool_left: u64) -> LotteryDataView {
    LotteryDataView {
        is_initialized: false,
        is_finaled: false,
        lottery_id: 0,
        total_registrations: 0,
        winning_numbers: no_numbers(),
        prize_pool_amount: pool_left,
        ..round
    }
}

/// What a distribution asks for: the transfers of the closing round, then
/// the emptied round and the archive of its result.
pub open spec fn reward_outcome(accounts: Seq<AccountView>) -> OutcomeView {
    let round = round_of(accounts[0]);
    let tickets = participant_tickets(participants_of(accounts));
    let left = round.prize_pool_amount - round_total(
        tickets,
        round.winning_numbers,
        round.prize_pool_amount,
    );
    OutcomeView {
        effects: round_transfers(
            round.holding_wallet,
            round.rewards_wallet,
            tickets,
            round.winning_numbers,
            round.prize_pool_amount,
        ),
        writes: seq![
            RecordWriteView { index: 0, data: closed_round(round, left as u64).packed() },
            RecordWriteView {
                index: 1,
                data: LotteryResultDataView {
                    lottery_id: round.lottery_id,
                    winning_numbers: round.winning_numbers,
                }.packed(),
            },
        ],
    }
}

/// Why an operation is refused, if it is.
pub open spec fn refusal(
    program_id: Seq<u8>,
    accounts: Seq<AccountView>,
    op: LotteryInstructionView,
    random_numbers: Seq<u8>,
) -> Option<LotteryError> {
    match op {
        LotteryInstructionView::InitLottery { .. } => init_refusal(program_id, accounts),
        LotteryInstructionView::PurchaseTicket { ticket_number_arr, .. } => purchase_refusal(
            program_id,
            accounts,
            ticket_number_arr,
            mint_decimals(accounts[6].data),
        ),
        LotteryInstructionView::StoreWinningNumbers => store_refusal(
            program_id,
            accounts,
            random_numbers,
        ),
        LotteryInstructionView::RewardWinners => reward_refusal(program_id, accounts),
        LotteryInstructionView::UpdateSollottoWallets { .. } => update_refusal(
            program_id,
            accounts,
        ),
    }
}

/// What an operation that is not refused asks for.
pub open spec fn outcome_of(
    accounts: Seq<AccountView>,
    op: LotteryInstructionView,
    random_numbers: Seq<u8>,
) -> OutcomeView {
    match op {
        LotteryInstructionView::InitLottery {
            lottery_id,
            holding_wallet,
            rewards_wallet,
            randomness_account,
        } => round_written(
            opened_round(lottery_id, holding_wallet, rewards_wallet, randomness_account),
        ),
        LotteryInstructionView::PurchaseTicket {
            user_wallet_pk,
            ticket_number_arr,
        } => purchase_outcome(
            accounts,
            user_wallet_pk,
            ticket_number_arr,
            mint_decimals(accounts[6].data)->Some_0,
        ),
        LotteryInstructionView::StoreWinningNumbers => round_written(
            finalized_round(round_of(accounts[0]), random_numbers),
        ),
        LotteryInstructionView::RewardWinners => reward_outcome(accounts),
        LotteryInstructionView::UpdateSollottoWallets {
            holding_wallet,
            rewards_wallet,
        } => round_written(rewired_round(round_of(accounts[0]), holding_wallet, rewards_wallet)),
    }
}

/// The answer to a request: refused when it is addressed to another
/// program, when its payload does not decode, or when the operation it
/// names is refused; else the outcome of that operation.
pub open spec fn answer(
    lottery_program: Seq<u8>,
    program_id: Seq<u8>,
    accounts: Seq<AccountView>,
    instruction_data: Seq<u8>,
    random_numbers: Seq<u8>,
) -> Result<OutcomeView, LotteryError> {
    if program_id != lottery_program {
        Err(LotteryError::IncorrectProgramId)
    } else {
        match LotteryInstructionView::unpacked(instruction_data) {
            None => Err(LotteryError::InvalidInstruction),
            Some(op) => match refusal(program_id, accounts, op, random_numbers) {
                Some(e) => Err(e),
                None => Ok(outcome_of(accounts, op, random_numbers)),
            },
        }
    }
}

/// Where a round stands in its cycle.
#[derive(Clone, Copy, Debug, PartialEq, Eq, Structural)]
pub enum RoundState {
    /// Not initialized: the record is free for a new round.
    Empty,
    /// Initialized and not finalized: tickets are sold.
    Open,
    /// Initialized and finalized: the winning numbers are stored.
    Finalized,
}

/// The state that the two flags of a round stand for.
pub open spec fn state_of(round: LotteryDataView) -> RoundState {
    if !round.is_initialized {
        RoundState::Empty
    } else if round.is_finaled {
        RoundState::Finalized
    } else {
        RoundState::Open
    }
}

/// The list has the fixed positions of the operation, and the records pass
/// the ownership and signer checks that the operation makes before it reads
/// the round.
pub open spec fn validated(
    program_id: Seq<u8>,
    accounts: Seq<AccountView>,
    op: LotteryInstructionView,
) -> bool {
    match op {
        LotteryInstructionView::InitLottery { .. } => {
            &&& accounts.len() >= INIT_RECORDS
            &&& accounts[0].owner == program_id
            &&& accounts[0].is_signer
        },
        LotteryInstructionView::PurchaseTicket { .. } => {
            &&& accounts.len() >= PURCHASE_RECORDS
            &&& accounts[0].owner == program_id
            &&& accounts[1].owner == program_id
            &&& accounts[0].is_signer
            &&& accounts[2].is_signer
            &&& accounts[5].is_signer
        },
        LotteryInstructionView::StoreWinningNumbers => {
            &&& accounts.len() >= STORE_RECORDS
            &&& accounts[0].owner == program_id
            &&& accounts[0].is_signer
        },
        LotteryInstructionView::RewardWinners => {
            &&& accounts.len() >= REWARD_RECORDS
            &&& accounts[0].owner == program_id
            &&& accounts[1].owner == program_id
            &&& accounts[0].is_signer
            &&& accounts[2].is_signer
        },
        LotteryInstructionView::UpdateSollottoWallets { .. } => {
            &&& accounts.len() >= UPDATE_RECORDS
            &&& accounts[0].owner == program_id
            &&& accounts[0].is_signer
        },
    }
}

/// Every check that a purchase makes before it reads the ticket passes.
pub open spec fn purchase_reaches_ticket(program_id: Seq<u8>, accounts: Seq<AccountView>) -> bool {
    &&& accounts.len() >= PURCHASE_RECORDS
    &&& accounts[0].owner == program_id
    &&& accounts[1].owner == program_id
    &&& accounts[0].is_signer
    &&& accounts[2].is_signer
    &&& accounts[5].is_signer
    &&& round_decodes(accounts[0])
    &&& state_of(round_of(accounts[0])) == RoundState::Open
    &&& accounts[3].key == round_of(accounts[0]).holding_wallet
    &&& accounts[2].lamports >= TICKET_PRICE
    &&& accounts[0].rent_exempt()
    &&& accounts[1].rent_exempt()
}

/// Every check that a distribution makes before it counts the participants
/// passes.
pub open spec fn reward_reaches_participants(
    program_id: Seq<u8>,
    accounts: Seq<AccountView>,
) -> bool {
    &&& accounts.len() >= REWARD_RECORDS
    &&& accounts[0].owner == program_id
    &&& accounts[1].owner == program_id
    &&& accounts[0].is_signer
    &&& accounts[2].is_signer
    &&& round_decodes(accounts[0])
    &&& state_of(round_of(accounts[0])) == RoundState::Finalized
    &&& accounts[2].key == round_of(accounts[0]).holding_wallet
    &&& accounts[3].key == round_of(accounts[0]).rewards_wallet
}

/// Builds the outcome that stores `round` at position 0.
fn write_round(round: &LotteryData) -> (outcome: Outcome)
    ensures
        outcome@ == round_written(round@),
{
    let mut writes: Vec<RecordWrite> = Vec::new();
    writes.push(RecordWrite { index: 0, data: round.to_bytes() });
    let outcome = Outcome { effects: Vec::new(), writes };
    assert(outcome@.effects =~= Seq::empty());
    assert(outcome@.writes =~= seq![RecordWriteView { index: 0, data: round@.packed() }]);
    outcome
}

/// Checks the participant list pair by pair and hands out the tickets of
/// the pairs, in order. Stops at the first pair that is refused. A last
/// record without a partner is not looked at.
pub fn collect_tickets(program_id: &Pubkey, participants: &[Account]) -> (r: Result<
    Vec<TicketData>,
    LotteryError,
>)
    ensures
        match pairs_refusal(program_id@, account_views(participants@), 0) {
            Some(e) => r matches Err(x) && x == e,
            None => r matches Ok(tickets) && ticket_views(tickets@) == participant_tickets(
                account_views(participants@),
            ),
        },
{
    let ghost views = account_views(participants@);
    let pairs: usize = participants.len() / 2;
    let mut tickets: Vec<TicketData> = Vec::new();
    let mut i: usize = 0;
    assert(ticket_views(tickets@) =~= participant_tickets(views).take(0));
    while i < pairs
        invariant
            i <= pairs,
            pairs == participants.len() / 2,
            views == account_views(participants@),
            pairs_refusal(program_id@, views, 0) == pairs_refusal(program_id@, views, i as int),
            ticket_views(tickets@) == participant_tickets(views).take(i as int),
        decreases pairs - i,
    {
        let ticket_account = &participants[2 * i];
        let wallet_account = &participants[2 * i + 1];
        assert(views[2 * i] == ticket_account@);
        assert(views[2 * i + 1] == wallet_account@);
        if ticket_account.owner != *program_id {
            return Err(LotteryError::InvalidParticipantsAccounts);
        }
        let ticket = TicketData::unpack_unchecked(ticket_account.data.as_slice())?;
        if !ticket.is_purchased {
            return Err(LotteryError::InvalidParticipantsAccounts);
        }
        if ticket.user_wallet_pk != wallet_account.key {
            return Err(LotteryError::InvalidParticipantsAccounts);
        }
        let ghost before = tickets@;
        tickets.push(ticket);
        assert(ticket_views(tickets@) =~= ticket_views(before).push(ticket@));
        assert(participant_tickets(views).take(i + 1) =~= participant_tickets(views).take(
            i as int,
        ).push(ticket@));
        i += 1;
    }
    assert(participant_tickets(views).take(pairs as int) =~= participant_tickets(views));
    Ok(tickets)
}

/// The program state handler.
pub struct Processor;

impl Processor {
    /// Decodes a request and carries out the operation it names.
    ///
    /// `lottery_program` is the identifier under which this program runs and
    /// `program_id` the one that the request is addressed to.
    /// `random_numbers` are the verified random bytes of the randomness
    /// source; only `StoreWinningNumbers` reads them.
    pub fn process(
        lottery_program: &Pubkey,
        program_id: &Pubkey,
        accounts: &[Account],
        instruction_data: &[u8],
        random_numbers: &[u8],
    ) -> (r: Result<Outcome, LotteryError>)
        ensures
            match answer(
                lottery_program@,
                program_id@,
                account_views(accounts@),
                instruction_data@,
                random_numbers@,
            ) {
                Ok(outcome) => r matches Ok(x) && x@ == outcome,
                Err(e) => r matches Err(x) && x == e,
            },
    {
        check_program_account(program_id, lottery_program)?;
        let instruction = LotteryInstruction::unpack(instruction_data)?;
        match instruction {
            LotteryInstruction::InitLottery {
                lottery_id,
                holding_wallet,
                rewards_wallet,
                randomness_account,
            } => Self::process_init_lottery(
                program_id,
                accounts,
                lottery_id,
                holding_wallet,
                rewards_wallet,
                randomness_account,
            ),
            LotteryInstruction::PurchaseTicket {
                user_wallet_pk,
                ticket_number_arr,
            } => Self::process_ticket_purchase(
                program_id,
                accounts,
                user_wallet_pk,
                ticket_number_arr,
            ),
            LotteryInstruction::StoreWinningNumbers {  } => Self::process_store_winning_numbers(
                program_id,
                accounts,
                random_numbers,
            ),
            LotteryInstruction::RewardWinners {  } => Self::process_reward_winners(
                program_id,
                accounts,
            ),
            LotteryInstruction::UpdateSollottoWallets {
                holding_wallet,
                rewards_wallet,
            } => Self::process_update_sollotto_wallets(
                program_id,
                accounts,
                holding_wallet,
                rewards_wallet,
            ),
        }
    }

    /// Opens a round in the record at position 0. Position 1 is the host's
    /// rent record.
    pub fn process_init_lottery(
        program_id: &Pubkey,
        accounts: &[Account],
        lottery_id: u32,
        holding_wallet: Pubkey,
        rewards_wallet: Pubkey,
        randomness_account: Pubkey,
    ) -> (r: Result<Outcome, LotteryError>)
        ensures
            match init_refusal(program_id@, account_views(accounts@)) {
                Some(e) => r matches Err(x) && x == e,
                None => r matches Ok(outcome) && outcome@ == round_written(
                    opened_round(lottery_id, holding_wallet@, rewards_wallet@, randomness_account@),
                ),
            },
    {
        if accounts.len() < INIT_RECORDS {
            return Err(LotteryError::NotEnoughAccountKeys);
        }
        let lottery_data_account = &accounts[0];
        assert(account_views(accounts@)[0] == lottery_data_account@);

        lottery_data_account.check_owner(program_id)?;
        lottery_data_account.check_signer()?;
        lottery_data_account.check_rent_exempt()?;

        let mut lottery_data = LotteryData::unpack_unchecked(lottery_data_account.data.as_slice())?;
        if lottery_data.is_initialized {
            return Err(LotteryError::AlreadyInitialized);
        }
        lottery_data.is_initialized = true;
        lottery_data.is_finaled = false;
        lottery_data.lottery_id = lottery_id;
        lottery_data.holding_wallet = holding_wallet;
        lottery_data.rewards_wallet = rewards_wallet;
        lottery_data.randomness_account = randomness_account;
        lottery_data.total_registrations = 0;
        lottery_data.prize_pool_amount = 0;
        lottery_data.winning_numbers = [0u8; 6];
        assert(lottery_data.winning_numbers@ =~= no_numbers());
        Ok(write_round(&lottery_data))
    }

    /// Sells the ticket at position 1 for the round at position 0. Reads the
    /// decimals of the loyalty token from the mint at position 6.
    pub fn process_ticket_purchase(
        program_id: &Pubkey,
        accounts: &[Account],
        user_wallet_pk: Pubkey,
        ticket_number_arr: [u8; 6],
    ) -> (r: Result<Outcome, LotteryError>)
        ensures
            match purchase_refusal(
                program_id@,
                account_views(accounts@),
                ticket_number_arr@,
                mint_decimals(account_views(accounts@)[6].data),
            ) {
                Some(e) => r matches Err(x) && x == e,
                None => r matches Ok(outcome) && outcome@ == purchase_outcome(
                    account_views(accounts@),
                    user_wallet_pk@,
                    ticket_number_arr@,
                    mint_decimals(account_views(accounts@)[6].data)->Some_0,
                ),
            },
    {
        let decimals = if accounts.len() >= PURCHASE_RECORDS {
            assert(account_views(accounts@)[6] == accounts@[6]@);
            unpack_mint_decimals(accounts[6].data.as_slice())
        } else {
            None
        };
        Self::purchase_with_decimals(
            program_id,
            accounts,
            user_wallet_pk,
            ticket_number_arr,
            decimals,
        )
    }

    /// Sells the ticket at position 1 for the round at position 0, given the
    /// decimals of the loyalty token, if the mint's record decodes.
    pub fn purchase_with_decimals(
        program_id: &Pubkey,
        accounts: &[Account],
        user_wallet_pk: Pubkey,
        ticket_number_arr: [u8; 6],
        decimals: Option<u8>,
    ) -> (r: Result<Outcome, LotteryError>)
        ensures
            match purchase_refusal(
                program_id@,
                account_views(accounts@),
                ticket_number_arr@,
                decimals,
            ) {
                Some(e) => r matches Err(x) && x == e,
                None => r matches Ok(outcome) && outcome@ == purchase_outcome(
                    account_views(accounts@),
                    user_wallet_pk@,
                    ticket_number_arr@,
                    decimals->Some_0,
                ),
            },
    {
        if accounts.len() < PURCHASE_RECORDS {
            return Err(LotteryError::NotEnoughAccountKeys);
        }
        let ghost views = account_views(accounts@);
        let lottery_data_account = &accounts[0];
        let ticket_data_account = &accounts[1];
        let user_funding_account = &accounts[2];
        let holding_wallet_account = &accounts[3];
        let user_lifetime_ticket_account = &accounts[4];
        let lifetime_ticket_owner_account = &accounts[5];
        let lifetime_ticket_mint_account = &accounts[6];
        assert(views[0] == lottery_data_account@ && views[1] == ticket_data_account@ && views[2]
            == user_funding_account@ && views[3] == holding_wallet_account@ && views[4]
            == user_lifetime_ticket_account@ && views[5] == lifetime_ticket_owner_account@
            && views[6] == lifetime_ticket_mint_account@);

        lottery_data_account.check_owner(program_id)?;
        ticket_data_account.check_owner(program_id)?;
        lottery_data_account.check_signer()?;
        user_funding_account.check_signer()?;
        lifetime_ticket_owner_account.check_signer()?;

        let mut lottery_data = LotteryData::unpack_unchecked(lottery_data_account.data.as_slice())?;
        if !lottery_data.is_initialized {
            return Err(LotteryError::NotInitialized);
        }
        if lottery_data.is_finaled {
            return Err(LotteryError::AlreadyFinalized);
        }
        if holding_wallet_account.key != lottery_data.holding_wallet {
            return Err(LotteryError::InvalidWalletAccount);
        }
        if user_funding_account.lamports < TICKET_PRICE {
            return Err(LotteryError::InsufficientFunds);
        }
        lottery_data_account.check_rent_exempt()?;
        ticket_data_account.check_rent_exempt()?;

        let mut ticket_data = TicketData::unpack_unchecked(ticket_data_account.data.as_slice())?;
        if ticket_data.is_purchased {
            return Err(LotteryError::AlreadyPurchased);
        }
        check_numbers(&ticket_number_arr)?;

        let decimals: u8 = match decimals {
            Some(decimals) => decimals,
            None => {
                return Err(LotteryError::InvalidAccountData);
            },
        };
        let amount: u64 = match token_amount(TOKENS_PER_TICKET, decimals) {
            Some(amount) => amount,
            None => {
                return Err(LotteryError::Overflow);
            },
        };
        if lottery_data.total_registrations == u32::MAX || lottery_data.prize_pool_amount
            > u64::MAX - TICKET_PRICE {
            return Err(LotteryError::Overflow);
        }
        ticket_data.is_purchased = true;
        ticket_data.user_wallet_pk = user_wallet_pk;
        ticket_data.ticket_number_arr = ticket_number_arr;

        lottery_data.total_registrations = lottery_data.total_registrations + 1;
        lottery_data.prize_pool_amount = lottery_data.prize_pool_amount + TICKET_PRICE;

        let mut effects: Vec<Effect> = Vec::new();
        effects.push(
            Effect::Transfer {
                from: user_funding_account.key,
                to: lottery_data.holding_wallet,
                lamports: TICKET_PRICE,
            },
        );
        effects.push(
            Effect::MintTo {
                mint: lifetime_ticket_mint_account.key,
                account: user_lifetime_ticket_account.key,
                authority: lifetime_ticket_owner_account.key,
                amount,
            },
        );
        let mut writes: Vec<RecordWrite> = Vec::new();
        writes.push(RecordWrite { index: 1, data: ticket_data.to_bytes() });
        writes.push(RecordWrite { index: 0, data: lottery_data.to_bytes() });
        let outcome = Outcome { effects, writes };
        proof {
            let expected = purchase_outcome(
                views,
                user_wallet_pk@,
                ticket_number_arr@,
                decimals,
            );
            assert(outcome@.effects =~= expected.effects);
            assert(outcome@.writes =~= expected.writes);
        }
        Ok(outcome)
    }

    /// Derives the winning numbers from `random_numbers` and stores them in
    /// the round at position 0, which closes the round for purchases.
    /// Position 1 is the record of the randomness source.
    pub fn process_store_winning_numbers(
        program_id: &Pubkey,
        accounts: &[Account],
        random_numbers: &[u8],
    ) -> (r: Result<Outcome, LotteryError>)
        ensures
            match store_refusal(program_id@, account_views(accounts@), random_numbers@) {
                Some(e) => r matches Err(x) && x == e,
                None => r matches Ok(outcome) && outcome@ == round_written(
                    finalized_round(round_of(account_views(accounts@)[0]), random_numbers@),
                ),
            },
    {
        if accounts.len() < STORE_RECORDS {
            return Err(LotteryError::NotEnoughAccountKeys);
        }
        let lottery_data_account = &accounts[0];
        assert(account_views(accounts@)[0] == lottery_data_account@);

        lottery_data_account.check_owner(program_id)?;
        lottery_data_account.check_signer()?;

        let mut lottery_data = LotteryData::unpack_unchecked(lottery_data_account.data.as_slice())?;
        if !lottery_data.is_initialized {
            return Err(LotteryError::NotInitialized);
        }
        if lottery_data.is_finaled {
            return Err(LotteryError::AlreadyFinalized);
        }
        let winning_numbers = derive_winning_numbers(random_numbers)?;
        // The reduction cannot leave the ranges; the check stays as a guard.
        check_numbers(&winning_numbers)?;

        lottery_data.is_finaled = true;
        lottery_data.winning_numbers = winning_numbers;
        Ok(write_round(&lottery_data))
    }

    /// Closes the round at position 0: pays the winners among the
    /// participants and archives the result in the record at position 1.
    pub fn process_reward_winners(program_id: &Pubkey, accounts: &[Account]) -> (r: Result<
        Outcome,
        LotteryError,
    >)
        ensures
            match reward_refusal(program_id@, account_views(accounts@)) {
                Some(e) => r matches Err(x) && x == e,
                None => r matches Ok(outcome) && outcome@ == reward_outcome(
                    account_views(accounts@),
                ),
            },
    {
        if accounts.len() < REWARD_RECORDS {
            return Err(LotteryError::NotEnoughAccountKeys);
        }
        let ghost views = account_views(accounts@);
        let lottery_data_account = &accounts[0];
        let lottery_result_account = &accounts[1];
        let holding_wallet_account = &accounts[2];
        let rewards_wallet_account = &accounts[3];
        let participants_accounts = slice_subrange(accounts, REWARD_RECORDS, accounts.len());
        assert(views[0] == lottery_data_account@ && views[1] == lottery_result_account@
            && views[2] == holding_wallet_account@ && views[3] == rewards_wallet_account@);
        assert(account_views(participants_accounts@) =~= participants_of(views));

        lottery_data_account.check_owner(program_id)?;
        lottery_result_account.check_owner(program_id)?;
        lottery_data_account.check_signer()?;
        holding_wallet_account.check_signer()?;

        let mut lottery_data = LotteryData::unpack_unchecked(lottery_data_account.data.as_slice())?;
        if !lottery_data.is_initialized {
            return Err(LotteryError::NotInitialized);
        }
        if !lottery_data.is_finaled {
            return Err(LotteryError::NotFinalized);
        }
        if holding_wallet_account.key != lottery_data.holding_wallet {
            return Err(LotteryError::InvalidWalletAccount);
        }
        if rewards_wallet_account.key != lottery_data.rewards_wallet {
            return Err(LotteryError::InvalidWalletAccount);
        }
        if participants_accounts.len() as u64 != 2 * (lottery_data.total_registrations as u64) {
            return Err(LotteryError::InvalidParticipantsAccounts);
        }
        let tickets = collect_tickets(program_id, participants_accounts)?;

        if holding_wallet_account.lamports < lottery_data.prize_pool_amount {
            return Err(LotteryError::InsufficientFunds);
        }
        let (effects, pool_left) = distribute(
            &lottery_data.holding_wallet,
            &lottery_data.rewards_wallet,
            &tickets,
            &lottery_data.winning_numbers,
            lottery_data.prize_pool_amount,
        )?;
        if lottery_result_account.data.len() != LOTTERY_RESULT_DATA_LEN {
            return Err(LotteryError::InvalidAccountData);
        }
        let lottery_result = LotteryResultData {
            lottery_id: lottery_data.lottery_id,
            winning_numbers: lottery_data.winning_numbers,
        };

        lottery_data.is_initialized = false;
        lottery_data.is_finaled = false;
        lottery_data.winning_numbers = [0u8; 6];
        lottery_data.total_registrations = 0;
        lottery_data.lottery_id = 0;
        lottery_data.prize_pool_amount = pool_left;
        assert(lottery_data.winning_numbers@ =~= no_numbers());

        let mut writes: Vec<RecordWrite> = Vec::new();
        writes.push(RecordWrite { index: 0, data: lottery_data.to_bytes() });
        writes.push(RecordWrite { index: 1, data: lottery_result.to_bytes() });
        let outcome = Outcome { effects, writes };
        proof {
            let expected = reward_outcome(views);
            assert(outcome@.effects =~= expected.effects);
            assert(outcome@.writes =~= expected.writes);
        }
        Ok(outcome)
    }

    /// Replaces the two wallets of the round at position 0.
    pub fn process_update_sollotto_wallets(
        program_id: &Pubkey,
        accounts: &[Account],
        holding_wallet: Pubkey,
        rewards_wallet: Pubkey,
    ) -> (r: Result<Outcome, LotteryError>)
        ensures
            match update_refusal(program_id@, account_views(accounts@)) {
                Some(e) => r matches Err(x) && x == e,
                None => r matches Ok(outcome) && outcome@ == round_written(
                    rewired_round(
                        round_of(account_views(accounts@)[0]),
                        holding_wallet@,
                        rewards_wallet@,
                    ),
                ),
            },
    {
        if accounts.len() < UPDATE_RECORDS {
            return Err(LotteryError::NotEnoughAccountKeys);
        }
        let lottery_data_account = &accounts[0];
        assert(account_views(accounts@)[0] == lottery_data_account@);

        lottery_data_account.check_owner(program_id)?;
        lottery_data_account.check_signer()?;

        let mut lottery_data = LotteryData::unpack_unchecked(lottery_data_account.data.as_slice())?;
        if !lottery_data.is_initialized {
            return Err(LotteryError::NotInitialized);
        }
        lottery_data.holding_wallet = holding_wallet;
        lottery_data.rewards_wallet = rewards_wallet;
        Ok(write_round(&lottery_data))
    }
}

} // verus!
