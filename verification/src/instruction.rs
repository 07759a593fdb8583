//! The wire format of the five operations, and builders for requests.
//!
//! A payload is one tag byte followed by the fields of the operation that
//! the tag names, each with its fixed width and nothing between them.
use vstd::prelude::*;
use vstd::slice::slice_subrange;
use crate::codec::{
    lemma_u32_bytes_round_trip, lemma_u32_round_trip, push_bytes, push_u32, read_numbers,
    read_pubkey, read_u32, u32_from_le, u32_to_le,
};
use crate::error::LotteryError;
use crate::processor::check_program_account;
use crate::program_ids::{
    rent_sysvar_bytes, rent_sysvar_id, system_program_bytes, system_program_id,
    token_program_bytes, token_program_id,
};
use crate::pubkey::Pubkey;

verus! {

/// Length of an `InitLottery` payload: tag, round number, three identifiers.
pub const INIT_LOTTERY_LEN: usize = 101;

/// Length of a `PurchaseTicket` payload: tag, one identifier, six numbers.
pub const PURCHASE_TICKET_LEN: usize = 39;

/// Length of an `UpdateSollottoWallets` payload: tag, two identifiers.
pub const UPDATE_WALLETS_LEN: usize = 65;

/// The operations of the lottery program.
#[derive(Clone, Copy, Debug, PartialEq, Eq)]
pub enum LotteryInstruction {
    /// Open a round.
    ///
    /// Records, by position:
    /// 0. the round, writable and signing;
    /// 1. the host's rent record.
    InitLottery {
        lottery_id: u32,
        holding_wallet: Pubkey,
        rewards_wallet: Pubkey,
        randomness_account: Pubkey,
    },
    /// Buy a ticket.
    ///
    /// Records, by position:
    /// 0. the round, writable and signing;
    /// 1. the buyer's ticket, writable;
    /// 2. the payer, writable and signing;
    /// 3. the holding wallet, writable;
    /// 4. the buyer's loyalty token account, writable;
    /// 5. the authority of the loyalty token mint, signing;
    /// 6. the loyalty token mint, writable;
    /// 7. the host's rent record;
    /// 8. the host's system program;
    /// 9. the token program.
    PurchaseTicket { user_wallet_pk: Pubkey, ticket_number_arr: [u8; 6] },
    /// Store the winning numbers of the round.
    ///
    /// Records, by position:
    /// 0. the round, writable and signing;
    /// 1. the randomness source.
    StoreWinningNumbers {  },
    /// Pay the winners and archive the result.
    ///
    /// Records, by position:
    /// 0. the round, writable and signing;
    /// 1. the result, writable;
    /// 2. the holding wallet, writable and signing;
    /// 3. the rewards wallet, writable;
    /// 4. the host's system program;
    /// 5. and on: for each participant the ticket and the owner's wallet.
    RewardWinners {  },
    /// Replace the wallets of the round.
    ///
    /// Records, by position:
    /// 0. the round, writable and signing.
    UpdateSollottoWallets { holding_wallet: Pubkey, rewards_wallet: Pubkey },
}

/// What a [`LotteryInstruction`] holds, as mathematical values.
pub enum LotteryInstructionView {
    InitLottery {
        lottery_id: u32,
        holding_wallet: Seq<u8>,
        rewards_wallet: Seq<u8>,
        randomness_account: Seq<u8>,
    },
    PurchaseTicket { user_wallet_pk: Seq<u8>, ticket_number_arr: Seq<u8> },
    StoreWinningNumbers,
    RewardWinners,
    UpdateSollottoWallets { holding_wallet: Seq<u8>, rewards_wallet: Seq<u8> },
}

impl View for LotteryInstruction {
    type V = LotteryInstructionView;

    open spec fn view(&self) -> LotteryInstructionView {
        match *self {
            LotteryInstruction::InitLottery {
                lottery_id,
                holding_wallet,
                rewards_wallet,
                randomness_account,
            } => LotteryInstructionView::InitLottery {
                lottery_id,
                holding_wallet: holding_wallet@,
                rewards_wallet: rewards_wallet@,
                randomness_account: randomness_account@,
            },
            LotteryInstruction::PurchaseTicket {
                user_wallet_pk,
                ticket_number_arr,
            } => LotteryInstructionView::PurchaseTicket {
                user_wallet_pk: user_wallet_pk@,
                ticket_number_arr: ticket_number_arr@,
            },
            LotteryInstruction::StoreWinningNumbers {  } => LotteryInstructionView::StoreWinningNumbers,
            LotteryInstruction::RewardWinners {  } => LotteryInstructionView::RewardWinners,
            LotteryInstruction::UpdateSollottoWallets {
                holding_wallet,
                rewards_wallet,
            } => LotteryInstructionView::UpdateSollottoWallets {
                holding_wallet: holding_wallet@,
                rewards_wallet: rewards_wallet@,
            },
        }
    }
}

impl LotteryInstructionView {
    /// Every field has the width that the wire format gives it.
    pub open spec fn wf(self) -> bool {
        match self {
            LotteryInstructionView::InitLottery {
                holding_wallet,
                rewards_wallet,
                randomness_account,
                ..
            } => holding_wallet.len() == 32 && rewards_wallet.len() == 32
                && randomness_account.len() == 32,
            LotteryInstructionView::PurchaseTicket {
                user_wallet_pk,
                ticket_number_arr,
            } => user_wallet_pk.len() == 32 && ticket_number_arr.len() == 6,
            LotteryInstructionView::StoreWinningNumbers => true,
            LotteryInstructionView::RewardWinners => true,
            LotteryInstructionView::UpdateSollottoWallets {
                holding_wallet,
                rewards_wallet,
            } => holding_wallet.len() == 32 && rewards_wallet.len() == 32,
        }
    }

    /// The payload of the operation: its tag, then its fields.
    pub open spec fn packed(self) -> Seq<u8> {
        match self {
            LotteryInstructionView::InitLottery {
                lottery_id,
                holding_wallet,
                rewards_wallet,
                randomness_account,
            } => seq![0u8] + u32_to_le(lottery_id) + holding_wallet + rewards_wallet
                + randomness_account,
            LotteryInstructionView::PurchaseTicket { user_wallet_pk, ticket_number_arr } => seq![
                1u8,
            ] + user_wallet_pk + ticket_number_arr,
            LotteryInstructionView::StoreWinningNumbers => seq![2u8],
            LotteryInstructionView::RewardWinners => seq![3u8],
            LotteryInstructionView::UpdateSollottoWallets {
                holding_wallet,
                rewards_wallet,
            } => seq![4u8] + holding_wallet + rewards_wallet,
        }
    }

    /// The operation that a payload stands for. There is none when the
    /// payload is empty, its tag is unknown, or it is too short for the
    /// fields of its tag. Bytes behind the last field are not looked at.
    pub open spec fn unpacked(input: Seq<u8>) -> Option<LotteryInstructionView> {
        if input.len() == 0 {
            None
        } else if input[0] == 0 {
            if input.len() < INIT_LOTTERY_LEN {
                None
            } else {
                Some(
                    LotteryInstructionView::InitLottery {
                        lottery_id: u32_from_le(input.subrange(1, 5)),
                        holding_wallet: input.subrange(5, 37),
                        rewards_wallet: input.subrange(37, 69),
                        randomness_account: input.subrange(69, 101),
                    },
                )
            }
        } else if input[0] == 1 {
            if input.len() < PURCHASE_TICKET_LEN {
                None
            } else {
                Some(
                    LotteryInstructionView::PurchaseTicket {
                        user_wallet_pk: input.subrange(1, 33),
                        ticket_number_arr: input.subrange(33, 39),
                    },
                )
            }
        } else if input[0] == 2 {
            Some(LotteryInstructionView::StoreWinningNumbers)
        } else if input[0] == 3 {
            Some(LotteryInstructionView::RewardWinners)
        } else if input[0] == 4 {
            if input.len() < UPDATE_WALLETS_LEN {
                None
            } else {
                Some(
                    LotteryInstructionView::UpdateSollottoWallets {
                        holding_wallet: input.subrange(1, 33),
                        rewards_wallet: input.subrange(33, 65),
                    },
                )
            }
        } else {
            None
        }
    }
}

impl LotteryInstructionView {
    /// The position of the host's rent record in the list of the operation,
    /// if the operation asks for minimum balances.
    pub open spec fn rent_position(self) -> Option<usize> {
        match self {
            LotteryInstructionView::InitLottery { .. } => Some(1),
            LotteryInstructionView::PurchaseTicket { .. } => Some(7),
            _ => None,
        }
    }

    /// The position of the randomness source in the list of the operation,
    /// if the operation reads random bytes.
    pub open spec fn randomness_position(self) -> Option<usize> {
        match self {
            LotteryInstructionView::StoreWinningNumbers => Some(1),
            _ => None,
        }
    }
}

impl LotteryInstruction {
    /// The position of the host's rent record in the list of the operation,
    /// if the operation asks for minimum balances.
    pub fn rent_position(&self) -> (position: Option<usize>)
        ensures
            position == self@.rent_position(),
    {
        match self {
            LotteryInstruction::InitLottery { .. } => Some(1),
            LotteryInstruction::PurchaseTicket { .. } => Some(7),
            _ => None,
        }
    }

    /// The position of the randomness source in the list of the operation,
    /// if the operation reads random bytes.
    pub fn randomness_position(&self) -> (position: Option<usize>)
        ensures
            position == self@.randomness_position(),
    {
        match self {
            LotteryInstruction::StoreWinningNumbers {  } => Some(1),
            _ => None,
        }
    }

    /// Decodes a payload.
    pub fn unpack(input: &[u8]) -> (r: Result<LotteryInstruction, LotteryError>)
        ensures
            match LotteryInstructionView::unpacked(input@) {
                Some(op) => r matches Ok(decoded) && decoded@ == op,
                None => r matches Err(e) && e == LotteryError::InvalidInstruction,
            },
    {
        if input.len() == 0 {
            return Err(LotteryError::InvalidInstruction);
        }
        let tag: u8 = input[0];
        let rest = slice_subrange(input, 1, input.len());
        if tag == 0 {
            if rest.len() < 4 {
                return Err(LotteryError::InvalidInstruction);
            }
            let lottery_id = read_u32(rest, 0);
            let rest = slice_subrange(rest, 4, rest.len());
            let (holding_wallet, rest) = match Self::unpack_pubkey(rest) {
                Ok(pair) => pair,
                Err(e) => {
                    return Err(e);
                },
            };
            let (rewards_wallet, rest) = match Self::unpack_pubkey(rest) {
                Ok(pair) => pair,
                Err(e) => {
                    return Err(e);
                },
            };
            let (randomness_account, _) = match Self::unpack_pubkey(rest) {
                Ok(pair) => pair,
                Err(e) => {
                    return Err(e);
                },
            };
            proof {
                let all = input@;
                let tail = all.subrange(1, all.len() as int);
                assert(tail.subrange(0, 4) =~= all.subrange(1, 5));
                let tail = tail.subrange(4, tail.len() as int);
                assert(tail.subrange(0, 32) =~= all.subrange(5, 37));
                let tail = tail.subrange(32, tail.len() as int);
                assert(tail.subrange(0, 32) =~= all.subrange(37, 69));
                let tail = tail.subrange(32, tail.len() as int);
                assert(tail.subrange(0, 32) =~= all.subrange(69, 101));
            }
            Ok(
                LotteryInstruction::InitLottery {
                    lottery_id,
                    holding_wallet,
                    rewards_wallet,
                    randomness_account,
                },
            )
        } else if tag == 1 {
            let (user_wallet_pk, rest) = match Self::unpack_pubkey(rest) {
                Ok(pair) => pair,
                Err(e) => {
                    return Err(e);
                },
            };
            let (ticket_number_arr, _) = match Self::unpack_ticket_number_arr(rest) {
                Ok(pair) => pair,
                Err(e) => {
                    return Err(e);
                },
            };
            proof {
                let all = input@;
                let tail = all.subrange(1, all.len() as int);
                assert(tail.subrange(0, 32) =~= all.subrange(1, 33));
                let tail = tail.subrange(32, tail.len() as int);
                assert(tail.subrange(0, 6) =~= all.subrange(33, 39));
            }
            Ok(LotteryInstruction::PurchaseTicket { user_wallet_pk, ticket_number_arr })
        } else if tag == 2 {
            Ok(LotteryInstruction::StoreWinningNumbers {  })
        } else if tag == 3 {
            Ok(LotteryInstruction::RewardWinners {  })
        } else if tag == 4 {
            let (holding_wallet, rest) = match Self::unpack_pubkey(rest) {
                Ok(pair) => pair,
                Err(e) => {
                    return Err(e);
                },
            };
            let (rewards_wallet, _) = match Self::unpack_pubkey(rest) {
                Ok(pair) => pair,
                Err(e) => {
                    return Err(e);
                },
            };
            proof {
                let all = input@;
                let tail = all.subrange(1, all.len() as int);
                assert(tail.subrange(0, 32) =~= all.subrange(1, 33));
                let tail = tail.subrange(32, tail.len() as int);
                assert(tail.subrange(0, 32) =~= all.subrange(33, 65));
            }
            Ok(LotteryInstruction::UpdateSollottoWallets { holding_wallet, rewards_wallet })
        } else {
            Err(LotteryError::InvalidInstruction)
        }
    }

    /// Packs the operation into a byte buffer.
    pub fn pack(&self) -> (buf: Vec<u8>)
        ensures
            buf@ == self@.packed(),
    {
        let mut buf: Vec<u8> = Vec::new();
        match self {
            LotteryInstruction::InitLottery {
                lottery_id,
                holding_wallet,
                rewards_wallet,
                randomness_account,
            } => {
                buf.push(0);
                assert(buf@ =~= seq![0u8]);
                push_u32(&mut buf, *lottery_id);
                push_bytes(&mut buf, &holding_wallet.bytes);
                push_bytes(&mut buf, &rewards_wallet.bytes);
                push_bytes(&mut buf, &randomness_account.bytes);
            },
            LotteryInstruction::PurchaseTicket { user_wallet_pk, ticket_number_arr } => {
                buf.push(1);
                assert(buf@ =~= seq![1u8]);
                push_bytes(&mut buf, &user_wallet_pk.bytes);
                push_bytes(&mut buf, ticket_number_arr);
            },
            LotteryInstruction::StoreWinningNumbers {  } => {
                buf.push(2);
                assert(buf@ =~= seq![2u8]);
            },
            LotteryInstruction::RewardWinners {  } => {
                buf.push(3);
                assert(buf@ =~= seq![3u8]);
            },
            LotteryInstruction::UpdateSollottoWallets { holding_wallet, rewards_wallet } => {
                buf.push(4);
                assert(buf@ =~= seq![4u8]);
                push_bytes(&mut buf, &holding_wallet.bytes);
                push_bytes(&mut buf, &rewards_wallet.bytes);
            },
        };
        buf
    }

    /// Takes an account identifier off the front of `input`.
    fn unpack_pubkey(input: &[u8]) -> (r: Result<(Pubkey, &[u8]), LotteryError>)
        ensures
            input@.len() < 32 ==> (r matches Err(e) && e == LotteryError::InvalidInstruction),
            input@.len() >= 32 ==> (r matches Ok(pair) && pair.0@ == input@.subrange(0, 32)
                && pair.1@ == input@.subrange(32, input@.len() as int)),
    {
        if input.len() < 32 {
            return Err(LotteryError::InvalidInstruction);
        }
        let pk = read_pubkey(input, 0);
        let rest = slice_subrange(input, 32, input.len());
        Ok((pk, rest))
    }

    /// Takes six ticket numbers off the front of `input`.
    fn unpack_ticket_number_arr(input: &[u8]) -> (r: Result<([u8; 6], &[u8]), LotteryError>)
        ensures
            input@.len() < 6 ==> (r matches Err(e) && e == LotteryError::InvalidInstruction),
            input@.len() >= 6 ==> (r matches Ok(pair) && pair.0@ == input@.subrange(0, 6)
                && pair.1@ == input@.subrange(6, input@.len() as int)),
    {
        if input.len() < 6 {
            return Err(LotteryError::InvalidInstruction);
        }
        let numbers = read_numbers(input, 0);
        let rest = slice_subrange(input, 6, input.len());
        Ok((numbers, rest))
    }
}

/// Decoding a packed operation gives the operation back.
pub proof fn lemma_instruction_round_trip(op: LotteryInstructionView)
    requires
        op.wf(),
    ensures
        LotteryInstructionView::unpacked(op.packed()) == Some(op),
{
    let b = op.packed();
    match op {
        LotteryInstructionView::InitLottery {
            lottery_id,
            holding_wallet,
            rewards_wallet,
            randomness_account,
        } => {
            lemma_u32_round_trip(lottery_id);
            assert(b.subrange(1, 5) =~= u32_to_le(lottery_id));
            assert(b.subrange(5, 37) =~= holding_wallet);
            assert(b.subrange(37, 69) =~= rewards_wallet);
            assert(b.subrange(69, 101) =~= randomness_account);
        },
        LotteryInstructionView::PurchaseTicket { user_wallet_pk, ticket_number_arr } => {
            assert(b.subrange(1, 33) =~= user_wallet_pk);
            assert(b.subrange(33, 39) =~= ticket_number_arr);
        },
        LotteryInstructionView::StoreWinningNumbers => {},
        LotteryInstructionView::RewardWinners => {},
        LotteryInstructionView::UpdateSollottoWallets { holding_wallet, rewards_wallet } => {
            assert(b.subrange(1, 33) =~= holding_wallet);
            assert(b.subrange(33, 65) =~= rewards_wallet);
        },
    }
}

/// Packing a decoded operation gives back the bytes that were decoded: the
/// payload up to the end of the last field.
pub proof fn lemma_instruction_bytes_round_trip(input: Seq<u8>)
    requires
        LotteryInstructionView::unpacked(input) is Some,
    ensures
        LotteryInstructionView::unpacked(input)->Some_0.wf(),
        LotteryInstructionView::unpacked(input)->Some_0.packed().len() <= input.len(),
        LotteryInstructionView::unpacked(input)->Some_0.packed() == input.subrange(
            0,
            LotteryInstructionView::unpacked(input)->Some_0.packed().len() as int,
        ),
{
    let op = LotteryInstructionView::unpacked(input)->Some_0;
    if input[0] == 0 {
        lemma_u32_bytes_round_trip(input.subrange(1, 5));
        assert(op.packed() =~= input.subrange(0, 101));
    } else if input[0] == 1 {
        assert(op.packed() =~= input.subrange(0, 39));
    } else if input[0] == 2 {
        assert(op.packed() =~= input.subrange(0, 1));
    } else if input[0] == 3 {
        assert(op.packed() =~= input.subrange(0, 1));
    } else {
        assert(op.packed() =~= input.subrange(0, 65));
    }
}

/// How a request refers to one record.
#[derive(Clone, Copy, Debug, PartialEq, Eq)]
pub struct AccountMeta {
    /// The record's identifier.
    pub pubkey: Pubkey,
    /// Whether the request must carry a signature for the record.
    pub is_signer: bool,
    /// Whether the operation may change the record.
    pub is_writable: bool,
}

/// What an [`AccountMeta`] holds, as mathematical values.
pub struct AccountMetaView {
    pub pubkey: Seq<u8>,
    pub is_signer: bool,
    pub is_writable: bool,
}

impl View for AccountMeta {
    type V = AccountMetaView;

    open spec fn view(&self) -> AccountMetaView {
        AccountMetaView {
            pubkey: self.pubkey@,
            is_signer: self.is_signer,
            is_writable: self.is_writable,
        }
    }
}

/// A reference to a record that the operation may change.
pub open spec fn writable(pubkey: Seq<u8>, is_signer: bool) -> AccountMetaView {
    AccountMetaView { pubkey: pubkey, is_signer: is_signer, is_writable: true }
}

/// A reference to a record that the operation only reads.
pub open spec fn readonly(pubkey: Seq<u8>, is_signer: bool) -> AccountMetaView {
    AccountMetaView { pubkey: pubkey, is_signer: is_signer, is_writable: false }
}

impl AccountMeta {
    /// A reference to a record that the operation may change.
    pub fn new(pubkey: Pubkey, is_signer: bool) -> (meta: AccountMeta)
        ensures
            meta@ == writable(pubkey@, is_signer),
    {
        AccountMeta { pubkey, is_signer, is_writable: true }
    }

    /// A reference to a record that the operation only reads.
    pub fn new_readonly(pubkey: Pubkey, is_signer: bool) -> (meta: AccountMeta)
        ensures
            meta@ == readonly(pubkey@, is_signer),
    {
        AccountMeta { pubkey, is_signer, is_writable: false }
    }
}

/// The views of a list of record references, in order.
pub open spec fn meta_views(metas: Seq<AccountMeta>) -> Seq<AccountMetaView> {
    Seq::new(metas.len(), |i: int| metas[i]@)
}

/// A request to a program: the records it names and its payload.
#[derive(Clone, Debug, PartialEq, Eq)]
pub struct Instruction {
    /// The program that the request is for.
    pub program_id: Pubkey,
    /// The records, in the order in which the operation expects them.
    pub accounts: Vec<AccountMeta>,
    /// The payload.
    pub data: Vec<u8>,
}

/// What an [`Instruction`] holds, as mathematical values.
pub struct InstructionView {
    pub program_id: Seq<u8>,
    pub accounts: Seq<AccountMetaView>,
    pub data: Seq<u8>,
}

impl View for Instruction {
    type V = InstructionView;

    open spec fn view(&self) -> InstructionView {
        InstructionView {
            program_id: self.program_id@,
            accounts: meta_views(self.accounts@),
            data: self.data@,
        }
    }
}

/// Creates an `InitLottery` request. Refused when `program_id` is not the
/// lottery program.
pub fn initialize_lottery(
    lottery_program: &Pubkey,
    program_id: &Pubkey,
    lottery_id: u32,
    holding_wallet: &Pubkey,
    rewards_wallet: &Pubkey,
    randomness_account: &Pubkey,
    lottery_authority: &Pubkey,
) -> (r: Result<Instruction, LotteryError>)
    ensures
        program_id@ != lottery_program@ ==> (r matches Err(e) && e
            == LotteryError::IncorrectProgramId),
        program_id@ == lottery_program@ ==> (r matches Ok(ix) && ix@ == InstructionView {
            program_id: program_id@,
            accounts: seq![
                writable(lottery_authority@, true),
                readonly(rent_sysvar_bytes(), false),
            ],
            data: LotteryInstructionView::InitLottery {
                lottery_id: lottery_id,
                holding_wallet: holding_wallet@,
                rewards_wallet: rewards_wallet@,
                randomness_account: randomness_account@,
            }.packed(),
        }),
{
    match check_program_account(program_id, lottery_program) {
        Ok(()) => {},
        Err(e) => {
            return Err(e);
        },
    }
    let data = LotteryInstruction::InitLottery {
        lottery_id,
        holding_wallet: *holding_wallet,
        rewards_wallet: *rewards_wallet,
        randomness_account: *randomness_account,
    }.pack();

    let mut accounts: Vec<AccountMeta> = Vec::with_capacity(2);
    accounts.push(AccountMeta::new(*lottery_authority, true));
    accounts.push(AccountMeta::new_readonly(rent_sysvar_id(), false));
    assert(meta_views(accounts@) =~= seq![
        writable(lottery_authority@, true),
        readonly(rent_sysvar_bytes(), false),
    ]);

    Ok(Instruction { program_id: *program_id, accounts, data })
}

/// The records of a `PurchaseTicket` request.
pub open spec fn purchase_ticket_accounts(
    user_wallet_pk: Seq<u8>,
    user_ticket_key: Seq<u8>,
    holding_wallet_key: Seq<u8>,
    lottery_authority: Seq<u8>,
    user_lifetime_ticket_account: Seq<u8>,
    lifetime_ticket_owner: Seq<u8>,
    lifetime_ticket_mint: Seq<u8>,
) -> Seq<AccountMetaView> {
    seq![
        writable(lottery_authority, true),
        writable(user_ticket_key, false),
        writable(user_wallet_pk, true),
        writable(holding_wallet_key, false),
        writable(user_lifetime_ticket_account, false),
        readonly(lifetime_ticket_owner, true),
        writable(lifetime_ticket_mint, false),
        readonly(rent_sysvar_bytes(), false),
        readonly(system_program_bytes(), false),
        readonly(token_program_bytes(), false),
    ]
}

/// Creates a `PurchaseTicket` request. Refused when `program_id` is not the
/// lottery program.
pub fn purchase_ticket(
    lottery_program: &Pubkey,
    program_id: &Pubkey,
    user_wallet_pk: &Pubkey,
    ticket_number_arr: &[u8; 6],
    user_ticket_key: &Pubkey,
    holding_wallet_key: &Pubkey,
    lottery_authority: &Pubkey,
    user_lifetime_ticket_account: &Pubkey,
    lifetime_ticket_owner: &Pubkey,
    lifetime_ticket_mint: &Pubkey,
) -> (r: Result<Instruction, LotteryError>)
    ensures
        program_id@ != lottery_program@ ==> (r matches Err(e) && e
            == LotteryError::IncorrectProgramId),
        program_id@ == lottery_program@ ==> (r matches Ok(ix) && ix@ == InstructionView {
            program_id: program_id@,
            accounts: purchase_ticket_accounts(
                user_wallet_pk@,
                user_ticket_key@,
                holding_wallet_key@,
                lottery_authority@,
                user_lifetime_ticket_account@,
                lifetime_ticket_owner@,
                lifetime_ticket_mint@,
            ),
            data: LotteryInstructionView::PurchaseTicket {
                user_wallet_pk: user_wallet_pk@,
                ticket_number_arr: ticket_number_arr@,
            }.packed(),
        }),
{
    match check_program_account(program_id, lottery_program) {
        Ok(()) => {},
        Err(e) => {
            return Err(e);
        },
    }
    let data = LotteryInstruction::PurchaseTicket {
        user_wallet_pk: *user_wallet_pk,
        ticket_number_arr: *ticket_number_arr,
    }.pack();

    let mut accounts: Vec<AccountMeta> = Vec::with_capacity(10);
    accounts.push(AccountMeta::new(*lottery_authority, true));
    accounts.push(AccountMeta::new(*user_ticket_key, false));
    accounts.push(AccountMeta::new(*user_wallet_pk, true));
    accounts.push(AccountMeta::new(*holding_wallet_key, false));
    accounts.push(AccountMeta::new(*user_lifetime_ticket_account, false));
    accounts.push(AccountMeta::new_readonly(*lifetime_ticket_owner, true));
    accounts.push(AccountMeta::new(*lifetime_ticket_mint, false));
    accounts.push(AccountMeta::new_readonly(rent_sysvar_id(), false));
    accounts.push(AccountMeta::new_readonly(system_program_id(), false));
    accounts.push(AccountMeta::new_readonly(token_program_id(), false));
    assert(meta_views(accounts@) =~= purchase_ticket_accounts(
        user_wallet_pk@,
        user_ticket_key@,
        holding_wallet_key@,
        lottery_authority@,
        user_lifetime_ticket_account@,
        lifetime_ticket_owner@,
        lifetime_ticket_mint@,
    ));

    Ok(Instruction { program_id: *program_id, accounts, data })
}

/// Creates a `StoreWinningNumbers` request that names the round. The numbers
/// are not part of the request: the operation derives them from the
/// randomness source, whose record the sender adds behind the round.
/// Refused when `program_id` is not the lottery program.
pub fn store_winning_numbers(
    lottery_program: &Pubkey,
    program_id: &Pubkey,
    winning_numbers_arr: &[u8; 6],
    lottery_authority: &Pubkey,
) -> (r: Result<Instruction, LotteryError>)
    ensures
        program_id@ != lottery_program@ ==> (r matches Err(e) && e
            == LotteryError::IncorrectProgramId),
        program_id@ == lottery_program@ ==> (r matches Ok(ix) && ix@ == InstructionView {
            program_id: program_id@,
            accounts: seq![writable(lottery_authority@, true)],
            data: LotteryInstructionView::StoreWinningNumbers.packed(),
        }),
{
    match check_program_account(program_id, lottery_program) {
        Ok(()) => {},
        Err(e) => {
            return Err(e);
        },
    }
    let _ = winning_numbers_arr;
    let data = LotteryInstruction::StoreWinningNumbers {  }.pack();

    let mut accounts: Vec<AccountMeta> = Vec::with_capacity(1);
    accounts.push(AccountMeta::new(*lottery_authority, true));
    assert(meta_views(accounts@) =~= seq![writable(lottery_authority@, true)]);

    Ok(Instruction { program_id: *program_id, accounts, data })
}

/// The record references of a participant list: for each participant the
/// ticket, read only, and the owner's wallet, writable.
pub open spec fn participant_metas(participants: Seq<(Pubkey, Pubkey)>) -> Seq<AccountMetaView> {
    Seq::new(
        2 * participants.len(),
        |i: int|
            if i % 2 == 0 {
                readonly(participants[i / 2].0@, false)
            } else {
                writable(participants[i / 2].1@, false)
            },
    )
}

/// The records of a `RewardWinners` request.
pub open spec fn reward_winners_accounts(
    lottery_authority: Seq<u8>,
    lottery_result: Seq<u8>,
    holding_wallet: Seq<u8>,
    rewards_wallet: Seq<u8>,
    participants: Seq<(Pubkey, Pubkey)>,
) -> Seq<AccountMetaView> {
    seq![
        writable(lottery_authority, true),
        writable(lottery_result, false),
        writable(holding_wallet, true),
        writable(rewards_wallet, false),
        readonly(system_program_bytes(), false),
    ] + participant_metas(participants)
}

/// Creates a `RewardWinners` request. Refused when `program_id` is not the
/// lottery program.
pub fn reward_winners(
    lottery_program: &Pubkey,
    program_id: &Pubkey,
    lottery_authority: &Pubkey,
    lottery_result: &Pubkey,
    holding_wallet: &Pubkey,
    rewards_wallet: &Pubkey,
    participants: &Vec<(Pubkey, Pubkey)>,
) -> (r: Result<Instruction, LotteryError>)
    ensures
        program_id@ != lottery_program@ ==> (r matches Err(e) && e
            == LotteryError::IncorrectProgramId),
        program_id@ == lottery_program@ ==> (r matches Ok(ix) && ix@ == InstructionView {
            program_id: program_id@,
            accounts: reward_winners_accounts(
                lottery_authority@,
                lottery_result@,
                holding_wallet@,
                rewards_wallet@,
                participants@,
            ),
            data: LotteryInstructionView::RewardWinners.packed(),
        }),
{
    match check_program_account(program_id, lottery_program) {
        Ok(()) => {},
        Err(e) => {
            return Err(e);
        },
    }
    let data = LotteryInstruction::RewardWinners {  }.pack();

    let mut accounts: Vec<AccountMeta> = Vec::new();
    accounts.push(AccountMeta::new(*lottery_authority, true));
    accounts.push(AccountMeta::new(*lottery_result, false));
    accounts.push(AccountMeta::new(*holding_wallet, true));
    accounts.push(AccountMeta::new(*rewards_wallet, false));
    accounts.push(AccountMeta::new_readonly(system_program_id(), false));
    let ghost fixed = meta_views(accounts@);
    let ghost pairs = participant_metas(participants@);
    assert(fixed =~= seq![
        writable(lottery_authority@, true),
        writable(lottery_result@, false),
        writable(holding_wallet@, true),
        writable(rewards_wallet@, false),
        readonly(system_program_bytes(), false),
    ]);
    let mut i: usize = 0;
    assert(meta_views(accounts@) =~= fixed + pairs.take(0));
    while i < participants.len()
        invariant
            i <= participants.len(),
            pairs == participant_metas(participants@),
            meta_views(accounts@) == fixed + pairs.take(2 * i),
        decreases participants.len() - i,
    {
        let participant = &participants[i];
        let ghost before = accounts@;
        accounts.push(AccountMeta::new_readonly(participant.0, false));
        accounts.push(AccountMeta::new(participant.1, false));
        assert(meta_views(accounts@) =~= meta_views(before).push(pairs[2 * i]).push(
            pairs[2 * i + 1],
        ));
        assert(fixed + pairs.take(2 * (i + 1)) =~= (fixed + pairs.take(2 * i)).push(
            pairs[2 * i],
        ).push(pairs[2 * i + 1]));
        i += 1;
    }
    assert(pairs.take(2 * participants.len()) =~= pairs);

    Ok(Instruction { program_id: *program_id, accounts, data })
}

/// Creates an `UpdateSollottoWallets` request. Refused when `program_id` is
/// not the lottery program.
pub fn update_sollotto_wallets(
    lottery_program: &Pubkey,
    program_id: &Pubkey,
    holding_wallet: &Pubkey,
    rewards_wallet: &Pubkey,
    lottery_authority: &Pubkey,
) -> (r: Result<Instruction, LotteryError>)
    ensures
        program_id@ != lottery_program@ ==> (r matches Err(e) && e
            == LotteryError::IncorrectProgramId),
        program_id@ == lottery_program@ ==> (r matches Ok(ix) && ix@ == InstructionView {
            program_id: program_id@,
            accounts: seq![writable(lottery_authority@, true)],
            data: LotteryInstructionView::UpdateSollottoWallets {
                holding_wallet: holding_wallet@,
                rewards_wallet: rewards_wallet@,
            }.packed(),
        }),
{
    match check_program_account(program_id, lottery_program) {
        Ok(()) => {},
        Err(e) => {
            return Err(e);
        },
    }
    let data = LotteryInstruction::UpdateSollottoWallets {
        holding_wallet: *holding_wallet,
        rewards_wallet: *rewards_wallet,
    }.pack();

    let mut accounts: Vec<AccountMeta> = Vec::with_capacity(1);
    accounts.push(AccountMeta::new(*lottery_authority, true));
    assert(meta_views(accounts@) =~= seq![writable(lottery_authority@, true)]);

    Ok(Instruction { program_id: *program_id, accounts, data })
}

} // verus!
