//! What holds of the operations taken together.
use vstd::prelude::*;
use crate::account::{stored, AccountView, RecordWriteView};
use crate::effect::lamports_moved;
use crate::error::LotteryError;
use crate::instruction::LotteryInstructionView;
use crate::processor::{
    closed_round, finalized_round, init_refusal, opened_round, outcome_of, participant_tickets,
    participants_of, purchase_outcome, purchase_reaches_ticket, purchase_refusal,
    purchased_ticket, refusal, reward_outcome, reward_reaches_participants, reward_refusal,
    rewired_round, round_after_purchase, round_decodes, round_of, round_written, state_of,
    store_refusal, ticket_decodes, ticket_of, update_refusal, validated, RoundState,
};
use crate::rewards::{lemma_round_transfers_move_the_total, round_total};
use crate::state::{
    lemma_lottery_data_bytes_round_trip, lemma_lottery_data_round_trip,
    lemma_lottery_result_data_round_trip, lemma_ticket_data_bytes_round_trip,
    lemma_ticket_data_round_trip, LotteryDataView, LotteryResultDataView, LOTTERY_DATA_LEN,
    LOTTERY_RESULT_DATA_LEN, TICKET_DATA_LEN,
};
use crate::token::mint_decimals;

verus! {

/// Storing one write gives the record at its position the new bytes.
proof fn lemma_stored_one(accounts: Seq<AccountView>, write: RecordWriteView)
    requires
        write.index < accounts.len(),
    ensures
        stored(accounts, seq![write]) == accounts.update(
            write.index as int,
            AccountView { data: write.data, ..accounts[write.index as int] },
        ),
{
    reveal_with_fuel(stored, 2);
    assert(seq![write].drop_last() =~= Seq::empty());
}

/// Storing two writes to different positions gives both records their new
/// bytes.
proof fn lemma_stored_two(accounts: Seq<AccountView>, first: RecordWriteView, second: RecordWriteView)
    requires
        first.index < accounts.len(),
        second.index < accounts.len(),
        first.index != second.index,
    ensures
        stored(accounts, seq![first, second]).len() == accounts.len(),
        stored(accounts, seq![first, second])[first.index as int] == (AccountView {
            data: first.data,
            ..accounts[first.index as int]
        }),
        stored(accounts, seq![first, second])[second.index as int] == (AccountView {
            data: second.data,
            ..accounts[second.index as int]
        }),
        forall|i: int|
            0 <= i < accounts.len() && i != first.index && i != second.index ==> stored(
                accounts,
                seq![first, second],
            )[i] == accounts[i],
{
    reveal_with_fuel(stored, 2);
    assert(seq![first, second].drop_last() =~= seq![first]);
    lemma_stored_one(accounts, first);
}

proof fn lemma_init_moves_the_round(
    program_id: Seq<u8>,
    accounts: Seq<AccountView>,
    lottery_id: u32,
    holding_wallet: Seq<u8>,
    rewards_wallet: Seq<u8>,
    randomness_account: Seq<u8>,
)
    requires
        holding_wallet.len() == 32,
        rewards_wallet.len() == 32,
        randomness_account.len() == 32,
        init_refusal(program_id, accounts) is None,
    ensures
        state_of(round_of(accounts[0])) == RoundState::Empty,
        round_decodes(
            stored(
                accounts,
                round_written(
                    opened_round(lottery_id, holding_wallet, rewards_wallet, randomness_account),
                ).writes,
            )[0],
        ),
        round_of(
            stored(
                accounts,
                round_written(
                    opened_round(lottery_id, holding_wallet, rewards_wallet, randomness_account),
                ).writes,
            )[0],
        ) == opened_round(lottery_id, holding_wallet, rewards_wallet, randomness_account),
{
    let next = opened_round(lottery_id, holding_wallet, rewards_wallet, randomness_account);
    lemma_lottery_data_round_trip(next);
    lemma_stored_one(accounts, round_written(next).writes[0]);
    assert(round_written(next).writes =~= seq![round_written(next).writes[0]]);
}

proof fn lemma_store_moves_the_round(
    program_id: Seq<u8>,
    accounts: Seq<AccountView>,
    random_numbers: Seq<u8>,
)
    requires
        store_refusal(program_id, accounts, random_numbers) is None,
    ensures
        state_of(round_of(accounts[0])) == RoundState::Open,
        round_decodes(
            stored(
                accounts,
                round_written(finalized_round(round_of(accounts[0]), random_numbers)).writes,
            )[0],
        ),
        round_of(
            stored(
                accounts,
                round_written(finalized_round(round_of(accounts[0]), random_numbers)).writes,
            )[0],
        ) == finalized_round(round_of(accounts[0]), random_numbers),
{
    lemma_lottery_data_bytes_round_trip(accounts[0].data);
    let next = finalized_round(round_of(accounts[0]), random_numbers);
    lemma_lottery_data_round_trip(next);
    lemma_stored_one(accounts, round_written(next).writes[0]);
    assert(round_written(next).writes =~= seq![round_written(next).writes[0]]);
}

proof fn lemma_update_moves_the_round(
    program_id: Seq<u8>,
    accounts: Seq<AccountView>,
    holding_wallet: Seq<u8>,
    rewards_wallet: Seq<u8>,
)
    requires
        holding_wallet.len() == 32,
        rewards_wallet.len() == 32,
        update_refusal(program_id, accounts) is None,
    ensures
        state_of(round_of(accounts[0])) != RoundState::Empty,
        round_decodes(
            stored(
                accounts,
                round_written(
                    rewired_round(round_of(accounts[0]), holding_wallet, rewards_wallet),
                ).writes,
            )[0],
        ),
        round_of(
            stored(
                accounts,
                round_written(
                    rewired_round(round_of(accounts[0]), holding_wallet, rewards_wallet),
                ).writes,
            )[0],
        ) == rewired_round(round_of(accounts[0]), holding_wallet, rewards_wallet),
{
    lemma_lottery_data_bytes_round_trip(accounts[0].data);
    let next = rewired_round(round_of(accounts[0]), holding_wallet, rewards_wallet);
    lemma_lottery_data_round_trip(next);
    lemma_stored_one(accounts, round_written(next).writes[0]);
    assert(round_written(next).writes =~= seq![round_written(next).writes[0]]);
}

proof fn lemma_purchase_moves_the_round(
    program_id: Seq<u8>,
    accounts: Seq<AccountView>,
    user_wallet_pk: Seq<u8>,
    numbers: Seq<u8>,
    decimals: u8,
)
    requires
        user_wallet_pk.len() == 32,
        purchase_refusal(program_id, accounts, numbers, Some(decimals)) is None,
    ensures
        state_of(round_of(accounts[0])) == RoundState::Open,
        round_decodes(
            stored(accounts, purchase_outcome(accounts, user_wallet_pk, numbers, decimals).writes)[0],
        ),
        round_of(stored(accounts, purchase_outcome(accounts, user_wallet_pk, numbers, decimals).writes)[0])
            == round_after_purchase(round_of(accounts[0])),
        ticket_decodes(
            stored(accounts, purchase_outcome(accounts, user_wallet_pk, numbers, decimals).writes)[1],
        ),
        ticket_of(stored(accounts, purchase_outcome(accounts, user_wallet_pk, numbers, decimals).writes)[1])
            == purchased_ticket(ticket_of(accounts[1]), user_wallet_pk, numbers),
{
    let writes = purchase_outcome(accounts, user_wallet_pk, numbers, decimals).writes;
    lemma_lottery_data_bytes_round_trip(accounts[0].data);
    lemma_ticket_data_bytes_round_trip(accounts[1].data);
    lemma_lottery_data_round_trip(round_after_purchase(round_of(accounts[0])));
    lemma_ticket_data_round_trip(purchased_ticket(ticket_of(accounts[1]), user_wallet_pk, numbers));
    lemma_stored_two(accounts, writes[0], writes[1]);
    assert(writes =~= seq![writes[0], writes[1]]);
}

proof fn lemma_reward_moves_the_round(program_id: Seq<u8>, accounts: Seq<AccountView>)
    requires
        reward_refusal(program_id, accounts) is None,
    ensures
        state_of(round_of(accounts[0])) == RoundState::Finalized,
        round_decodes(stored(accounts, reward_outcome(accounts).writes)[0]),
        state_of(round_of(stored(accounts, reward_outcome(accounts).writes)[0]))
            == RoundState::Empty,
        stored(accounts, reward_outcome(accounts).writes)[1].data == (LotteryResultDataView {
            lottery_id: round_of(accounts[0]).lottery_id,
            winning_numbers: round_of(accounts[0]).winning_numbers,
        }).packed(),
{
    let writes = reward_outcome(accounts).writes;
    let round = round_of(accounts[0]);
    lemma_lottery_data_bytes_round_trip(accounts[0].data);
    let left = (round.prize_pool_amount - round_total(
        participant_tickets(participants_of(accounts)),
        round.winning_numbers,
        round.prize_pool_amount,
    )) as u64;
    lemma_lottery_data_round_trip(closed_round(round, left));
    lemma_stored_two(accounts, writes[0], writes[1]);
    assert(writes =~= seq![writes[0], writes[1]]);
}

/// An operation that is accepted finds the round in the state that the
/// operation is for, and leaves it in the state that follows:
/// opening takes an empty round to open, a purchase keeps it open, storing
/// the winning numbers takes it from open to finalized, paying the rewards
/// takes it from finalized to empty, and a change of wallets keeps an open
/// or finalized round as it is.
pub proof fn lemma_accepted_operation_moves_the_round(
    program_id: Seq<u8>,
    accounts: Seq<AccountView>,
    op: LotteryInstructionView,
    random_numbers: Seq<u8>,
)
    requires
        op.wf(),
        refusal(program_id, accounts, op, random_numbers) is None,
    ensures
        round_decodes(accounts[0]),
        round_decodes(stored(accounts, outcome_of(accounts, op, random_numbers).writes)[0]),
        ({
            let before = state_of(round_of(accounts[0]));
            let after = state_of(
                round_of(stored(accounts, outcome_of(accounts, op, random_numbers).writes)[0]),
            );
            match op {
                LotteryInstructionView::InitLottery { .. } => before == RoundState::Empty && after
                    == RoundState::Open,
                LotteryInstructionView::PurchaseTicket { .. } => before == RoundState::Open
                    && after == RoundState::Open,
                LotteryInstructionView::StoreWinningNumbers => before == RoundState::Open && after
                    == RoundState::Finalized,
                LotteryInstructionView::RewardWinners => before == RoundState::Finalized && after
                    == RoundState::Empty,
                LotteryInstructionView::UpdateSollottoWallets { .. } => before != RoundState::Empty
                    && after == before,
            }
        }),
{
    match op {
        LotteryInstructionView::InitLottery {
            lottery_id,
            holding_wallet,
            rewards_wallet,
            randomness_account,
        } => {
            lemma_init_moves_the_round(
                program_id,
                accounts,
                lottery_id,
                holding_wallet,
                rewards_wallet,
                randomness_account,
            );
        },
        LotteryInstructionView::PurchaseTicket { user_wallet_pk, ticket_number_arr } => {
            lemma_purchase_moves_the_round(
                program_id,
                accounts,
                user_wallet_pk,
                ticket_number_arr,
                mint_decimals(accounts[6].data)->Some_0,
            );
        },
        LotteryInstructionView::StoreWinningNumbers => {
            lemma_store_moves_the_round(program_id, accounts, random_numbers);
        },
        LotteryInstructionView::RewardWinners => {
            lemma_reward_moves_the_round(program_id, accounts);
        },
        LotteryInstructionView::UpdateSollottoWallets { holding_wallet, rewards_wallet } => {
            lemma_update_moves_the_round(program_id, accounts, holding_wallet, rewards_wallet);
        },
    }
}

/// On an empty round every operation but opening is refused as not
/// initialized, provided the records pass the ownership and signer checks
/// and the round record decodes.
pub proof fn lemma_empty_round_takes_only_init(
    program_id: Seq<u8>,
    accounts: Seq<AccountView>,
    op: LotteryInstructionView,
    random_numbers: Seq<u8>,
)
    requires
        !(op is InitLottery),
        validated(program_id, accounts, op),
        round_decodes(accounts[0]),
        state_of(round_of(accounts[0])) == RoundState::Empty,
    ensures
        refusal(program_id, accounts, op, random_numbers) == Some(LotteryError::NotInitialized),
{
}

/// On a finalized round a purchase is refused as already finalized,
/// provided the records pass the ownership and signer checks and the round
/// record decodes.
pub proof fn lemma_finalized_round_sells_no_ticket(
    program_id: Seq<u8>,
    accounts: Seq<AccountView>,
    user_wallet_pk: Seq<u8>,
    numbers: Seq<u8>,
)
    requires
        validated(
            program_id,
            accounts,
            LotteryInstructionView::PurchaseTicket {
                user_wallet_pk: user_wallet_pk,
                ticket_number_arr: numbers,
            },
        ),
        round_decodes(accounts[0]),
        state_of(round_of(accounts[0])) == RoundState::Finalized,
    ensures
        forall|decimals: Option<u8>|
            purchase_refusal(program_id, accounts, numbers, decimals) == Some(
                LotteryError::AlreadyFinalized,
            ),
{
}

/// On an open round the rewards are refused as not finalized, provided the
/// records pass the ownership and signer checks and the round record
/// decodes.
pub proof fn lemma_open_round_pays_no_rewards(program_id: Seq<u8>, accounts: Seq<AccountView>)
    requires
        validated(program_id, accounts, LotteryInstructionView::RewardWinners),
        round_decodes(accounts[0]),
        state_of(round_of(accounts[0])) == RoundState::Open,
    ensures
        reward_refusal(program_id, accounts) == Some(LotteryError::NotFinalized),
{
}

/// Once the winning numbers are stored, no ticket is sold for the round: a
/// purchase on the stored round is refused as already finalized, whatever
/// else the records hold, provided they pass the ownership and signer
/// checks.
pub proof fn lemma_no_purchase_after_finalization(
    program_id: Seq<u8>,
    accounts: Seq<AccountView>,
    random_numbers: Seq<u8>,
    later: Seq<AccountView>,
    user_wallet_pk: Seq<u8>,
    numbers: Seq<u8>,
    decimals: Option<u8>,
)
    requires
        store_refusal(program_id, accounts, random_numbers) is None,
        later[0] == stored(
            accounts,
            round_written(finalized_round(round_of(accounts[0]), random_numbers)).writes,
        )[0],
        validated(
            program_id,
            later,
            LotteryInstructionView::PurchaseTicket {
                user_wallet_pk: user_wallet_pk,
                ticket_number_arr: numbers,
            },
        ),
    ensures
        purchase_refusal(program_id, later, numbers, decimals) == Some(
            LotteryError::AlreadyFinalized,
        ),
{
    lemma_store_moves_the_round(program_id, accounts, random_numbers);
}

/// A round that was just opened pays no rewards: a distribution on the
/// stored round is refused as not finalized, provided the records pass the
/// ownership and signer checks.
pub proof fn lemma_no_rewards_before_finalization(
    program_id: Seq<u8>,
    accounts: Seq<AccountView>,
    lottery_id: u32,
    holding_wallet: Seq<u8>,
    rewards_wallet: Seq<u8>,
    randomness_account: Seq<u8>,
    later: Seq<AccountView>,
)
    requires
        holding_wallet.len() == 32,
        rewards_wallet.len() == 32,
        randomness_account.len() == 32,
        init_refusal(program_id, accounts) is None,
        later[0] == stored(
            accounts,
            round_written(
                opened_round(lottery_id, holding_wallet, rewards_wallet, randomness_account),
            ).writes,
        )[0],
        validated(program_id, later, LotteryInstructionView::RewardWinners),
    ensures
        reward_refusal(program_id, later) == Some(LotteryError::NotFinalized),
{
    lemma_init_moves_the_round(
        program_id,
        accounts,
        lottery_id,
        holding_wallet,
        rewards_wallet,
        randomness_account,
    );
}

/// Once the rewards are paid the round is empty again: every operation but
/// opening is refused on the stored round as not initialized, provided the
/// records pass the ownership and signer checks.
pub proof fn lemma_paid_round_takes_only_init(
    program_id: Seq<u8>,
    accounts: Seq<AccountView>,
    later: Seq<AccountView>,
    op: LotteryInstructionView,
    random_numbers: Seq<u8>,
)
    requires
        reward_refusal(program_id, accounts) is None,
        later[0] == stored(accounts, reward_outcome(accounts).writes)[0],
        !(op is InitLottery),
        validated(program_id, later, op),
    ensures
        refusal(program_id, later, op, random_numbers) == Some(LotteryError::NotInitialized),
{
    lemma_reward_moves_the_round(program_id, accounts);
    lemma_empty_round_takes_only_init(program_id, later, op, random_numbers);
}

/// A ticket that is marked as purchased is never sold: the purchase is
/// refused whatever else the records hold, and as already purchased when
/// every check before the ticket passes.
pub proof fn lemma_purchased_ticket_is_not_sold_again(
    program_id: Seq<u8>,
    accounts: Seq<AccountView>,
    numbers: Seq<u8>,
)
    requires
        accounts.len() >= 2,
        ticket_decodes(accounts[1]),
        ticket_of(accounts[1]).is_purchased,
    ensures
        forall|decimals: Option<u8>|
            #[trigger] purchase_refusal(program_id, accounts, numbers, decimals) is Some,
        purchase_reaches_ticket(program_id, accounts) ==> forall|decimals: Option<u8>|
            purchase_refusal(program_id, accounts, numbers, decimals) == Some(
                LotteryError::AlreadyPurchased,
            ),
{
}

/// Once a purchase is accepted and its writes are stored, a second purchase
/// on the same records is refused as already purchased, whatever wallet and
/// numbers it names.
pub proof fn lemma_second_purchase_is_refused(
    program_id: Seq<u8>,
    accounts: Seq<AccountView>,
    user_wallet_pk: Seq<u8>,
    numbers: Seq<u8>,
    decimals: u8,
    later_numbers: Seq<u8>,
    later_decimals: Option<u8>,
)
    requires
        user_wallet_pk.len() == 32,
        purchase_refusal(program_id, accounts, numbers, Some(decimals)) is None,
    ensures
        purchase_refusal(
            program_id,
            stored(accounts, purchase_outcome(accounts, user_wallet_pk, numbers, decimals).writes),
            later_numbers,
            later_decimals,
        ) == Some(LotteryError::AlreadyPurchased),
{
    lemma_purchase_moves_the_round(program_id, accounts, user_wallet_pk, numbers, decimals);
    let writes = purchase_outcome(accounts, user_wallet_pk, numbers, decimals).writes;
    assert(writes =~= seq![writes[0], writes[1]]);
    lemma_stored_two(accounts, writes[0], writes[1]);
    let later = stored(accounts, writes);
    assert(later[2] == accounts[2] && later[3] == accounts[3] && later[5] == accounts[5]);
    assert(later[0].owner == accounts[0].owner && later[0].is_signer && later[0].rent_exempt());
    assert(later[1].owner == accounts[1].owner && later[1].rent_exempt());
    assert(ticket_of(later[1]).is_purchased);
}

/// A participant list whose length is not twice the number of tickets sold
/// is refused as such, when every check before the count passes.
pub proof fn lemma_participant_count_must_match(program_id: Seq<u8>, accounts: Seq<AccountView>)
    requires
        reward_reaches_participants(program_id, accounts),
        participants_of(accounts).len() != 2 * round_of(accounts[0]).total_registrations,
    ensures
        reward_refusal(program_id, accounts) == Some(LotteryError::InvalidParticipantsAccounts),
{
}

/// Every write names a record of the list and has exactly as many bytes as
/// that record.
pub open spec fn writes_fit(accounts: Seq<AccountView>, writes: Seq<RecordWriteView>) -> bool {
    forall|i: int|
        0 <= i < writes.len() ==> {
            let write = #[trigger] writes[i];
            &&& write.index < accounts.len()
            &&& write.data.len() == accounts[write.index as int].data.len()
        }
}

proof fn lemma_round_write_fits(accounts: Seq<AccountView>, next: LotteryDataView)
    requires
        accounts.len() >= 1,
        accounts[0].data.len() == LOTTERY_DATA_LEN,
        next.wf(),
    ensures
        writes_fit(accounts, round_written(next).writes),
{
    lemma_lottery_data_round_trip(next);
}

proof fn lemma_purchase_writes_fit(
    program_id: Seq<u8>,
    accounts: Seq<AccountView>,
    user_wallet_pk: Seq<u8>,
    numbers: Seq<u8>,
    decimals: u8,
)
    requires
        user_wallet_pk.len() == 32,
        purchase_refusal(program_id, accounts, numbers, Some(decimals)) is None,
    ensures
        writes_fit(accounts, purchase_outcome(accounts, user_wallet_pk, numbers, decimals).writes),
{
    let writes = purchase_outcome(accounts, user_wallet_pk, numbers, decimals).writes;
    lemma_lottery_data_bytes_round_trip(accounts[0].data);
    lemma_ticket_data_bytes_round_trip(accounts[1].data);
    lemma_lottery_data_round_trip(round_after_purchase(round_of(accounts[0])));
    lemma_ticket_data_round_trip(purchased_ticket(ticket_of(accounts[1]), user_wallet_pk, numbers));
    assert(writes[0].data.len() == TICKET_DATA_LEN);
    assert(writes[1].data.len() == LOTTERY_DATA_LEN);
    assert forall|i: int| 0 <= i < writes.len() implies {
        let write = #[trigger] writes[i];
        &&& write.index < accounts.len()
        &&& write.data.len() == accounts[write.index as int].data.len()
    } by {
        if i != 0 {
            assert(i == 1);
        }
    }
}

proof fn lemma_reward_writes_fit(program_id: Seq<u8>, accounts: Seq<AccountView>)
    requires
        reward_refusal(program_id, accounts) is None,
    ensures
        writes_fit(accounts, reward_outcome(accounts).writes),
{
    let writes = reward_outcome(accounts).writes;
    let round = round_of(accounts[0]);
    lemma_lottery_data_bytes_round_trip(accounts[0].data);
    let left = (round.prize_pool_amount - round_total(
        participant_tickets(participants_of(accounts)),
        round.winning_numbers,
        round.prize_pool_amount,
    )) as u64;
    lemma_lottery_data_round_trip(closed_round(round, left));
    lemma_lottery_result_data_round_trip(
        LotteryResultDataView {
            lottery_id: round.lottery_id,
            winning_numbers: round.winning_numbers,
        },
    );
    assert(writes[0].data.len() == LOTTERY_DATA_LEN);
    assert(writes[1].data.len() == LOTTERY_RESULT_DATA_LEN);
    assert forall|i: int| 0 <= i < writes.len() implies {
        let write = #[trigger] writes[i];
        &&& write.index < accounts.len()
        &&& write.data.len() == accounts[write.index as int].data.len()
    } by {
        if i != 0 {
            assert(i == 1);
        }
    }
}

/// Every write of an accepted operation names a record of the list and has
/// exactly as many bytes as that record: storing it changes no length.
pub proof fn lemma_writes_fit_their_records(
    program_id: Seq<u8>,
    accounts: Seq<AccountView>,
    op: LotteryInstructionView,
    random_numbers: Seq<u8>,
)
    requires
        op.wf(),
        refusal(program_id, accounts, op, random_numbers) is None,
    ensures
        writes_fit(accounts, outcome_of(accounts, op, random_numbers).writes),
{
    match op {
        LotteryInstructionView::InitLottery {
            lottery_id,
            holding_wallet,
            rewards_wallet,
            randomness_account,
        } => {
            lemma_round_write_fits(
                accounts,
                opened_round(lottery_id, holding_wallet, rewards_wallet, randomness_account),
            );
        },
        LotteryInstructionView::PurchaseTicket { user_wallet_pk, ticket_number_arr } => {
            lemma_purchase_writes_fit(
                program_id,
                accounts,
                user_wallet_pk,
                ticket_number_arr,
                mint_decimals(accounts[6].data)->Some_0,
            );
        },
        LotteryInstructionView::StoreWinningNumbers => {
            lemma_lottery_data_bytes_round_trip(accounts[0].data);
            lemma_round_write_fits(
                accounts,
                finalized_round(round_of(accounts[0]), random_numbers),
            );
        },
        LotteryInstructionView::RewardWinners => {
            lemma_reward_writes_fit(program_id, accounts);
        },
        LotteryInstructionView::UpdateSollottoWallets { holding_wallet, rewards_wallet } => {
            lemma_lottery_data_bytes_round_trip(accounts[0].data);
            lemma_round_write_fits(
                accounts,
                rewired_round(round_of(accounts[0]), holding_wallet, rewards_wallet),
            );
        },
    }
}

/// A distribution that is accepted pays out of the holding wallet exactly
/// what it takes off the pool, and no more than the pool holds.
pub proof fn lemma_rewards_come_out_of_the_pool(program_id: Seq<u8>, accounts: Seq<AccountView>)
    requires
        reward_refusal(program_id, accounts) is None,
    ensures
        round_decodes(stored(accounts, reward_outcome(accounts).writes)[0]),
        lamports_moved(reward_outcome(accounts).effects) + round_of(
            stored(accounts, reward_outcome(accounts).writes)[0],
        ).prize_pool_amount == round_of(accounts[0]).prize_pool_amount,
        lamports_moved(reward_outcome(accounts).effects) <= accounts[2].lamports,
{
    let round = round_of(accounts[0]);
    let tickets = participant_tickets(participants_of(accounts));
    let writes = reward_outcome(accounts).writes;
    lemma_round_transfers_move_the_total(
        round.holding_wallet,
        round.rewards_wallet,
        tickets,
        round.winning_numbers,
        round.prize_pool_amount,
    );
    lemma_lottery_data_bytes_round_trip(accounts[0].data);
    let left = (round.prize_pool_amount - round_total(
        tickets,
        round.winning_numbers,
        round.prize_pool_amount,
    )) as u64;
    lemma_lottery_data_round_trip(closed_round(round, left));
    lemma_stored_two(accounts, writes[0], writes[1]);
    assert(writes =~= seq![writes[0], writes[1]]);
}

} // verus!
