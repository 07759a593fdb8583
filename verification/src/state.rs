//! The three persisted records and their byte layouts.
//!
//! Every record has one fixed length, the sum of its field widths: no padding
//! is reserved behind the last field. Numbers are little-endian, a flag is one
//! byte (0 or 1) and an account identifier is 32 bytes.
use vstd::prelude::*;
use crate::codec::{
    flag_byte, lemma_splice_next, lemma_u32_bytes_round_trip, lemma_u32_round_trip, lemma_u64_bytes_round_trip,
    lemma_u64_round_trip, read_flag, read_numbers, read_pubkey, read_u32, read_u64, splice,
    u32_from_le, u32_to_le, u64_from_le, u64_to_le, write_bytes, write_flag, write_u32,
    write_u64,
};
use crate::error::LotteryError;
use crate::pubkey::{zeros, Pubkey};

verus! {

/// Packed length of a [`LotteryData`] record: two flags, two 32-bit numbers,
/// six ticket numbers, one 64-bit number and three identifiers, which is
/// 1 + 1 + 4 + 4 + 6 + 8 + 32 + 32 + 32 bytes.
pub const LOTTERY_DATA_LEN: usize = 120;

/// Packed length of a [`TicketData`] record: one flag, two identifiers and
/// six ticket numbers, which is 1 + 32 + 32 + 6 bytes.
pub const TICKET_DATA_LEN: usize = 71;

/// Packed length of a [`LotteryResultData`] record: one 32-bit number and
/// six ticket numbers, which is 4 + 6 bytes.
pub const LOTTERY_RESULT_DATA_LEN: usize = 10;

/// One round of the lottery. The record is reused from round to round.
#[derive(Clone, Copy, Debug, PartialEq, Eq)]
pub struct LotteryData {
    pub is_initialized: bool,
    pub is_finaled: bool,
    pub lottery_id: u32,
    /// Number of tickets bought in this round.
    pub total_registrations: u32,
    /// Five main numbers and the bonus number.
    pub winning_numbers: [u8; 6],
    /// Stake collected so far, in the smallest currency unit.
    pub prize_pool_amount: u64,
    pub holding_wallet: Pubkey,
    pub rewards_wallet: Pubkey,
    pub randomness_account: Pubkey,
}

/// What a [`LotteryData`] holds, as mathematical values.
pub struct LotteryDataView {
    pub is_initialized: bool,
    pub is_finaled: bool,
    pub lottery_id: u32,
    pub total_registrations: u32,
    pub winning_numbers: Seq<u8>,
    pub prize_pool_amount: u64,
    pub holding_wallet: Seq<u8>,
    pub rewards_wallet: Seq<u8>,
    pub randomness_account: Seq<u8>,
}

impl View for LotteryData {
    type V = LotteryDataView;

    open spec fn view(&self) -> LotteryDataView {
        LotteryDataView {
            is_initialized: self.is_initialized,
            is_finaled: self.is_finaled,
            lottery_id: self.lottery_id,
            total_registrations: self.total_registrations,
            winning_numbers: self.winning_numbers@,
            prize_pool_amount: self.prize_pool_amount,
            holding_wallet: self.holding_wallet@,
            rewards_wallet: self.rewards_wallet@,
            randomness_account: self.randomness_account@,
        }
    }
}

impl LotteryDataView {
    /// Every field has the width that the layout gives it.
    pub open spec fn wf(self) -> bool {
        &&& self.winning_numbers.len() == 6
        &&& self.holding_wallet.len() == 32
        &&& self.rewards_wallet.len() == 32
        &&& self.randomness_account.len() == 32
    }

    /// The 120 bytes of the record: the fields in order, nothing between them.
    pub open spec fn packed(self) -> Seq<u8> {
        seq![flag_byte(self.is_initialized), flag_byte(self.is_finaled)] + u32_to_le(
            self.lottery_id,
        ) + u32_to_le(self.total_registrations) + self.winning_numbers + u64_to_le(
            self.prize_pool_amount,
        ) + self.holding_wallet + self.rewards_wallet + self.randomness_account
    }

    /// The bytes decode when there are at least 120 of them and both flag
    /// bytes are 0 or 1.
    pub open spec fn decodes(bytes: Seq<u8>) -> bool {
        bytes.len() >= LOTTERY_DATA_LEN && bytes[0] <= 1 && bytes[1] <= 1
    }

    /// The record that the first 120 bytes of `bytes` stand for.
    pub open spec fn unpacked(bytes: Seq<u8>) -> LotteryDataView
        recommends
            Self::decodes(bytes),
    {
        LotteryDataView {
            is_initialized: bytes[0] == 1,
            is_finaled: bytes[1] == 1,
            lottery_id: u32_from_le(bytes.subrange(2, 6)),
            total_registrations: u32_from_le(bytes.subrange(6, 10)),
            winning_numbers: bytes.subrange(10, 16),
            prize_pool_amount: u64_from_le(bytes.subrange(16, 24)),
            holding_wallet: bytes.subrange(24, 56),
            rewards_wallet: bytes.subrange(56, 88),
            randomness_account: bytes.subrange(88, 120),
        }
    }
}

impl Default for LotteryData {
    /// An empty round: every field zero.
    fn default() -> (round: LotteryData)
        ensures
            round@ == (LotteryDataView {
                is_initialized: false,
                is_finaled: false,
                lottery_id: 0,
                total_registrations: 0,
                winning_numbers: zeros(6),
                prize_pool_amount: 0,
                holding_wallet: zeros(32),
                rewards_wallet: zeros(32),
                randomness_account: zeros(32),
            }),
    {
        let round = LotteryData {
            is_initialized: false,
            is_finaled: false,
            lottery_id: 0,
            total_registrations: 0,
            winning_numbers: [0u8; 6],
            prize_pool_amount: 0,
            holding_wallet: Pubkey::default(),
            rewards_wallet: Pubkey::default(),
            randomness_account: Pubkey::default(),
        };
        assert(round.winning_numbers@ =~= zeros(6));
        round
    }
}

impl LotteryData {
    /// The fixed length of the packed record.
    pub const LEN: usize = LOTTERY_DATA_LEN;

    /// The fixed length of the packed record.
    pub fn get_packed_len() -> (len: usize)
        ensures
            len == LOTTERY_DATA_LEN,
    {
        LOTTERY_DATA_LEN
    }

    /// Whether the record holds a round.
    pub fn is_initialized(&self) -> (r: bool)
        ensures
            r == self.is_initialized,
    {
        self.is_initialized
    }

    /// Decodes the record at the start of `src`. Fails when `src` is shorter
    /// than the record or a flag byte is neither 0 nor 1.
    pub fn unpack_from_slice(src: &[u8]) -> (r: Result<LotteryData, LotteryError>)
        ensures
            r is Ok <==> LotteryDataView::decodes(src@),
            r matches Ok(data) ==> data@ == LotteryDataView::unpacked(src@),
            r matches Err(e) ==> e == LotteryError::InvalidAccountData,
    {
        if src.len() < LOTTERY_DATA_LEN {
            return Err(LotteryError::InvalidAccountData);
        }
        let is_initialized = match read_flag(src, 0) {
            Ok(flag) => flag,
            Err(e) => {
                return Err(e);
            },
        };
        let is_finaled = match read_flag(src, 1) {
            Ok(flag) => flag,
            Err(e) => {
                return Err(e);
            },
        };
        Ok(
            LotteryData {
                is_initialized,
                is_finaled,
                lottery_id: read_u32(src, 2),
                total_registrations: read_u32(src, 6),
                winning_numbers: read_numbers(src, 10),
                prize_pool_amount: read_u64(src, 16),
                holding_wallet: read_pubkey(src, 24),
                rewards_wallet: read_pubkey(src, 56),
                randomness_account: read_pubkey(src, 88),
            },
        )
    }

    /// Writes the record over the first 120 bytes of `dst`.
    pub fn pack_into_slice(&self, dst: &mut [u8])
        requires
            old(dst).len() >= LOTTERY_DATA_LEN,
        ensures
            final(dst)@ == splice(old(dst)@, 0, self@.packed()),
    {
        let ghost before = dst@;
        let ghost v = self@;
        let ghost p0 = Seq::<u8>::empty();
        assert(dst@ =~= p0 + before.subrange(0, before.len() as int));
        write_flag(dst, 0, self.is_initialized);
        let ghost p1 = p0 + seq![flag_byte(v.is_initialized)];
        proof {
            lemma_splice_next(before, p0, seq![flag_byte(v.is_initialized)]);
        }
        write_flag(dst, 1, self.is_finaled);
        let ghost p2 = p1 + seq![flag_byte(v.is_finaled)];
        proof {
            lemma_splice_next(before, p1, seq![flag_byte(v.is_finaled)]);
        }
        write_u32(dst, 2, self.lottery_id);
        let ghost p3 = p2 + u32_to_le(v.lottery_id);
        proof {
            lemma_splice_next(before, p2, u32_to_le(v.lottery_id));
        }
        write_u32(dst, 6, self.total_registrations);
        let ghost p4 = p3 + u32_to_le(v.total_registrations);
        proof {
            lemma_splice_next(before, p3, u32_to_le(v.total_registrations));
        }
        write_bytes(dst, 10, &self.winning_numbers);
        let ghost p5 = p4 + v.winning_numbers;
        proof {
            lemma_splice_next(before, p4, v.winning_numbers);
        }
        write_u64(dst, 16, self.prize_pool_amount);
        let ghost p6 = p5 + u64_to_le(v.prize_pool_amount);
        proof {
            lemma_splice_next(before, p5, u64_to_le(v.prize_pool_amount));
        }
        write_bytes(dst, 24, &self.holding_wallet.bytes);
        let ghost p7 = p6 + v.holding_wallet;
        proof {
            lemma_splice_next(before, p6, v.holding_wallet);
        }
        write_bytes(dst, 56, &self.rewards_wallet.bytes);
        let ghost p8 = p7 + v.rewards_wallet;
        proof {
            lemma_splice_next(before, p7, v.rewards_wallet);
        }
        write_bytes(dst, 88, &self.randomness_account.bytes);
        proof {
            lemma_splice_next(before, p8, v.randomness_account);
            assert(p2 =~= seq![flag_byte(v.is_initialized), flag_byte(v.is_finaled)]);
            assert(p8 + v.randomness_account == v.packed());
            assert(dst@ =~= splice(before, 0, v.packed()));
        }
    }

    /// Decodes a buffer that must be exactly one record long.
    pub fn unpack_unchecked(input: &[u8]) -> (r: Result<LotteryData, LotteryError>)
        ensures
            r is Ok <==> input@.len() == LOTTERY_DATA_LEN && LotteryDataView::decodes(input@),
            r matches Ok(data) ==> data@ == LotteryDataView::unpacked(input@),
            r matches Err(e) ==> e == LotteryError::InvalidAccountData,
    {
        if input.len() != LOTTERY_DATA_LEN {
            return Err(LotteryError::InvalidAccountData);
        }
        Self::unpack_from_slice(input)
    }

    /// Writes the record into a buffer that must be exactly one record long;
    /// any other buffer is refused and stays as it is.
    pub fn pack(&self, dst: &mut [u8]) -> (r: Result<(), LotteryError>)
        ensures
            old(dst)@.len() == LOTTERY_DATA_LEN ==> r == Ok::<(), LotteryError>(()) && final(dst)@
                == self@.packed(),
            old(dst)@.len() != LOTTERY_DATA_LEN ==> r == Err::<(), LotteryError>(
                LotteryError::InvalidAccountData,
            ) && final(dst)@ == old(dst)@,
    {
        if dst.len() != LOTTERY_DATA_LEN {
            return Err(LotteryError::InvalidAccountData);
        }
        self.pack_into_slice(dst);
        assert(dst@ =~= self@.packed());
        Ok(())
    }

    /// The packed record as a buffer of its own.
    pub fn to_bytes(&self) -> (bytes: Vec<u8>)
        ensures
            bytes@ == self@.packed(),
            bytes@.len() == LOTTERY_DATA_LEN,
    {
        let mut bytes: Vec<u8> = vec![0u8; LOTTERY_DATA_LEN];
        self.pack_into_slice(bytes.as_mut_slice());
        assert(bytes@ =~= self@.packed());
        bytes
    }
}

/// Decoding a packed round gives the round back.
#[verifier::rlimit(40)]
pub proof fn lemma_lottery_data_round_trip(v: LotteryDataView)
    requires
        v.wf(),
    ensures
        v.packed().len() == LOTTERY_DATA_LEN,
        LotteryDataView::decodes(v.packed()),
        LotteryDataView::unpacked(v.packed()) == v,
{
    let b = v.packed();
    lemma_u32_round_trip(v.lottery_id);
    lemma_u32_round_trip(v.total_registrations);
    lemma_u64_round_trip(v.prize_pool_amount);
    assert(b.subrange(2, 6) =~= u32_to_le(v.lottery_id));
    assert(b.subrange(6, 10) =~= u32_to_le(v.total_registrations));
    assert(b.subrange(10, 16) =~= v.winning_numbers);
    assert(b.subrange(16, 24) =~= u64_to_le(v.prize_pool_amount));
    assert(b.subrange(24, 56) =~= v.holding_wallet);
    assert(b.subrange(56, 88) =~= v.rewards_wallet);
    assert(b.subrange(88, 120) =~= v.randomness_account);
}

/// Packing a decoded round gives the bytes back.
pub proof fn lemma_lottery_data_bytes_round_trip(bytes: Seq<u8>)
    requires
        LotteryDataView::decodes(bytes),
    ensures
        LotteryDataView::unpacked(bytes).wf(),
        LotteryDataView::unpacked(bytes).packed() == bytes.subrange(0, LOTTERY_DATA_LEN as int),
{
    let v = LotteryDataView::unpacked(bytes);
    lemma_u32_bytes_round_trip(bytes.subrange(2, 6));
    lemma_u32_bytes_round_trip(bytes.subrange(6, 10));
    lemma_u64_bytes_round_trip(bytes.subrange(16, 24));
    assert(v.packed() =~= bytes.subrange(0, LOTTERY_DATA_LEN as int));
}

/// One user's ticket for one round.
#[derive(Clone, Copy, Debug, PartialEq, Eq)]
pub struct TicketData {
    pub is_purchased: bool,
    /// The recipient that the buyer designated.
    pub charity: Pubkey,
    pub user_wallet_pk: Pubkey,
    pub ticket_number_arr: [u8; 6],
}

/// What a [`TicketData`] holds, as mathematical values.
pub struct TicketDataView {
    pub is_purchased: bool,
    pub charity: Seq<u8>,
    pub user_wallet_pk: Seq<u8>,
    pub ticket_number_arr: Seq<u8>,
}

impl View for TicketData {
    type V = TicketDataView;

    open spec fn view(&self) -> TicketDataView {
        TicketDataView {
            is_purchased: self.is_purchased,
            charity: self.charity@,
            user_wallet_pk: self.user_wallet_pk@,
            ticket_number_arr: self.ticket_number_arr@,
        }
    }
}

impl TicketDataView {
    /// Every field has the width that the layout gives it.
    pub open spec fn wf(self) -> bool {
        &&& self.charity.len() == 32
        &&& self.user_wallet_pk.len() == 32
        &&& self.ticket_number_arr.len() == 6
    }

    /// The 71 bytes of the record.
    pub open spec fn packed(self) -> Seq<u8> {
        seq![flag_byte(self.is_purchased)] + self.charity + self.user_wallet_pk
            + self.ticket_number_arr
    }

    /// The bytes decode when there are at least 71 of them and the flag byte
    /// is 0 or 1.
    pub open spec fn decodes(bytes: Seq<u8>) -> bool {
        bytes.len() >= TICKET_DATA_LEN && bytes[0] <= 1
    }

    /// The record that the first 71 bytes of `bytes` stand for.
    pub open spec fn unpacked(bytes: Seq<u8>) -> TicketDataView
        recommends
            Self::decodes(bytes),
    {
        TicketDataView {
            is_purchased: bytes[0] == 1,
            charity: bytes.subrange(1, 33),
            user_wallet_pk: bytes.subrange(33, 65),
            ticket_number_arr: bytes.subrange(65, 71),
        }
    }
}

impl Default for TicketData {
    /// A ticket that nobody bought: every field zero.
    fn default() -> (ticket: TicketData)
        ensures
            ticket@ == (TicketDataView {
                is_purchased: false,
                charity: zeros(32),
                user_wallet_pk: zeros(32),
                ticket_number_arr: zeros(6),
            }),
    {
        let ticket = TicketData {
            is_purchased: false,
            charity: Pubkey::default(),
            user_wallet_pk: Pubkey::default(),
            ticket_number_arr: [0u8; 6],
        };
        assert(ticket.ticket_number_arr@ =~= zeros(6));
        ticket
    }
}

impl TicketData {
    /// The fixed length of the packed record.
    pub const LEN: usize = TICKET_DATA_LEN;

    /// The fixed length of the packed record.
    pub fn get_packed_len() -> (len: usize)
        ensures
            len == TICKET_DATA_LEN,
    {
        TICKET_DATA_LEN
    }

    /// Decodes the record at the start of `src`. Fails when `src` is shorter
    /// than the record or the flag byte is neither 0 nor 1.
    pub fn unpack_from_slice(src: &[u8]) -> (r: Result<TicketData, LotteryError>)
        ensures
            r is Ok <==> TicketDataView::decodes(src@),
            r matches Ok(data) ==> data@ == TicketDataView::unpacked(src@),
            r matches Err(e) ==> e == LotteryError::InvalidAccountData,
    {
        if src.len() < TICKET_DATA_LEN {
            return Err(LotteryError::InvalidAccountData);
        }
        let is_purchased = match read_flag(src, 0) {
            Ok(flag) => flag,
            Err(e) => {
                return Err(e);
            },
        };
        Ok(
            TicketData {
                is_purchased,
                charity: read_pubkey(src, 1),
                user_wallet_pk: read_pubkey(src, 33),
                ticket_number_arr: read_numbers(src, 65),
            },
        )
    }

    /// Writes the record over the first 71 bytes of `dst`.
    pub fn pack_into_slice(&self, dst: &mut [u8])
        requires
            old(dst).len() >= TICKET_DATA_LEN,
        ensures
            final(dst)@ == splice(old(dst)@, 0, self@.packed()),
    {
        let ghost before = dst@;
        let ghost v = self@;
        let ghost p0 = Seq::<u8>::empty();
        assert(dst@ =~= p0 + before.subrange(0, before.len() as int));
        write_flag(dst, 0, self.is_purchased);
        let ghost p1 = p0 + seq![flag_byte(v.is_purchased)];
        proof {
            lemma_splice_next(before, p0, seq![flag_byte(v.is_purchased)]);
        }
        write_bytes(dst, 1, &self.charity.bytes);
        let ghost p2 = p1 + v.charity;
        proof {
            lemma_splice_next(before, p1, v.charity);
        }
        write_bytes(dst, 33, &self.user_wallet_pk.bytes);
        let ghost p3 = p2 + v.user_wallet_pk;
        proof {
            lemma_splice_next(before, p2, v.user_wallet_pk);
        }
        write_bytes(dst, 65, &self.ticket_number_arr);
        proof {
            lemma_splice_next(before, p3, v.ticket_number_arr);
            assert(p1 =~= seq![flag_byte(v.is_purchased)]);
            assert(p3 + v.ticket_number_arr == v.packed());
            assert(dst@ =~= splice(before, 0, v.packed()));
        }
    }

    /// Decodes a buffer that must be exactly one record long.
    pub fn unpack_unchecked(input: &[u8]) -> (r: Result<TicketData, LotteryError>)
        ensures
            r is Ok <==> input@.len() == TICKET_DATA_LEN && TicketDataView::decodes(input@),
            r matches Ok(data) ==> data@ == TicketDataView::unpacked(input@),
            r matches Err(e) ==> e == LotteryError::InvalidAccountData,
    {
        if input.len() != TICKET_DATA_LEN {
            return Err(LotteryError::InvalidAccountData);
        }
        Self::unpack_from_slice(input)
    }

    /// Writes the record into a buffer that must be exactly one record long;
    /// any other buffer is refused and stays as it is.
    pub fn pack(&self, dst: &mut [u8]) -> (r: Result<(), LotteryError>)
        ensures
            old(dst)@.len() == TICKET_DATA_LEN ==> r == Ok::<(), LotteryError>(()) && final(dst)@
                == self@.packed(),
            old(dst)@.len() != TICKET_DATA_LEN ==> r == Err::<(), LotteryError>(
                LotteryError::InvalidAccountData,
            ) && final(dst)@ == old(dst)@,
    {
        if dst.len() != TICKET_DATA_LEN {
            return Err(LotteryError::InvalidAccountData);
        }
        self.pack_into_slice(dst);
        assert(dst@ =~= self@.packed());
        Ok(())
    }

    /// The packed record as a buffer of its own.
    pub fn to_bytes(&self) -> (bytes: Vec<u8>)
        ensures
            bytes@ == self@.packed(),
            bytes@.len() == TICKET_DATA_LEN,
    {
        let mut bytes: Vec<u8> = vec![0u8; TICKET_DATA_LEN];
        self.pack_into_slice(bytes.as_mut_slice());
        assert(bytes@ =~= self@.packed());
        bytes
    }
}

/// Decoding a packed ticket gives the ticket back.
pub proof fn lemma_ticket_data_round_trip(v: TicketDataView)
    requires
        v.wf(),
    ensures
        v.packed().len() == TICKET_DATA_LEN,
        TicketDataView::decodes(v.packed()),
        TicketDataView::unpacked(v.packed()) == v,
{
    let b = v.packed();
    assert(b.subrange(1, 33) =~= v.charity);
    assert(b.subrange(33, 65) =~= v.user_wallet_pk);
    assert(b.subrange(65, 71) =~= v.ticket_number_arr);
}

/// Packing a decoded ticket gives the bytes back.
pub proof fn lemma_ticket_data_bytes_round_trip(bytes: Seq<u8>)
    requires
        TicketDataView::decodes(bytes),
    ensures
        TicketDataView::unpacked(bytes).wf(),
        TicketDataView::unpacked(bytes).packed() == bytes.subrange(0, TICKET_DATA_LEN as int),
{
    let v = TicketDataView::unpacked(bytes);
    assert(v.packed() =~= bytes.subrange(0, TICKET_DATA_LEN as int));
}

/// The archive of a closed round. Written once, never changed.
#[derive(Clone, Copy, Debug, PartialEq, Eq)]
pub struct LotteryResultData {
    pub lottery_id: u32,
    pub winning_numbers: [u8; 6],
}

/// What a [`LotteryResultData`] holds, as mathematical values.
pub struct LotteryResultDataView {
    pub lottery_id: u32,
    pub winning_numbers: Seq<u8>,
}

impl View for LotteryResultData {
    type V = LotteryResultDataView;

    open spec fn view(&self) -> LotteryResultDataView {
        LotteryResultDataView {
            lottery_id: self.lottery_id,
            winning_numbers: self.winning_numbers@,
        }
    }
}

impl LotteryResultDataView {
    /// The numbers have the width that the layout gives them.
    pub open spec fn wf(self) -> bool {
        self.winning_numbers.len() == 6
    }

    /// The 10 bytes of the record.
    pub open spec fn packed(self) -> Seq<u8> {
        u32_to_le(self.lottery_id) + self.winning_numbers
    }

    /// The bytes decode when there are at least 10 of them.
    pub open spec fn decodes(bytes: Seq<u8>) -> bool {
        bytes.len() >= LOTTERY_RESULT_DATA_LEN
    }

    /// The record that the first 10 bytes of `bytes` stand for.
    pub open spec fn unpacked(bytes: Seq<u8>) -> LotteryResultDataView
        recommends
            Self::decodes(bytes),
    {
        LotteryResultDataView {
            lottery_id: u32_from_le(bytes.subrange(0, 4)),
            winning_numbers: bytes.subrange(4, 10),
        }
    }
}

impl Default for LotteryResultData {
    /// The archive of no round: every field zero.
    fn default() -> (result: LotteryResultData)
        ensures
            result@ == (LotteryResultDataView { lottery_id: 0, winning_numbers: zeros(6) }),
    {
        let result = LotteryResultData { lottery_id: 0, winning_numbers: [0u8; 6] };
        assert(result.winning_numbers@ =~= zeros(6));
        result
    }
}

impl LotteryResultData {
    /// The fixed length of the packed record.
    pub const LEN: usize = LOTTERY_RESULT_DATA_LEN;

    /// The fixed length of the packed record.
    pub fn get_packed_len() -> (len: usize)
        ensures
            len == LOTTERY_RESULT_DATA_LEN,
    {
        LOTTERY_RESULT_DATA_LEN
    }

    /// Decodes the record at the start of `src`. Fails when `src` is shorter
    /// than the record.
    pub fn unpack_from_slice(src: &[u8]) -> (r: Result<LotteryResultData, LotteryError>)
        ensures
            r is Ok <==> LotteryResultDataView::decodes(src@),
            r matches Ok(data) ==> data@ == LotteryResultDataView::unpacked(src@),
            r matches Err(e) ==> e == LotteryError::InvalidAccountData,
    {
        if src.len() < LOTTERY_RESULT_DATA_LEN {
            return Err(LotteryError::InvalidAccountData);
        }
        Ok(
            LotteryResultData {
                lottery_id: read_u32(src, 0),
                winning_numbers: read_numbers(src, 4),
            },
        )
    }

    /// Writes the record over the first 10 bytes of `dst`.
    pub fn pack_into_slice(&self, dst: &mut [u8])
        requires
            old(dst).len() >= LOTTERY_RESULT_DATA_LEN,
        ensures
            final(dst)@ == splice(old(dst)@, 0, self@.packed()),
    {
        let ghost before = dst@;
        let ghost v = self@;
        let ghost p0 = Seq::<u8>::empty();
        assert(dst@ =~= p0 + before.subrange(0, before.len() as int));
        write_u32(dst, 0, self.lottery_id);
        let ghost p1 = p0 + u32_to_le(v.lottery_id);
        proof {
            lemma_splice_next(before, p0, u32_to_le(v.lottery_id));
        }
        write_bytes(dst, 4, &self.winning_numbers);
        proof {
            lemma_splice_next(before, p1, v.winning_numbers);
            assert(p1 =~= u32_to_le(v.lottery_id));
            assert(dst@ =~= splice(before, 0, v.packed()));
        }
    }

    /// Decodes a buffer that must be exactly one record long.
    pub fn unpack_unchecked(input: &[u8]) -> (r: Result<LotteryResultData, LotteryError>)
        ensures
            r is Ok <==> input@.len() == LOTTERY_RESULT_DATA_LEN,
            r matches Ok(data) ==> data@ == LotteryResultDataView::unpacked(input@),
            r matches Err(e) ==> e == LotteryError::InvalidAccountData,
    {
        if input.len() != LOTTERY_RESULT_DATA_LEN {
            return Err(LotteryError::InvalidAccountData);
        }
        Self::unpack_from_slice(input)
    }

    /// Writes the record into a buffer that must be exactly one record long;
    /// any other buffer is refused and stays as it is.
    pub fn pack(&self, dst: &mut [u8]) -> (r: Result<(), LotteryError>)
        ensures
            old(dst)@.len() == LOTTERY_RESULT_DATA_LEN ==> r == Ok::<(), LotteryError>(()) && final(dst)@
                == self@.packed(),
            old(dst)@.len() != LOTTERY_RESULT_DATA_LEN ==> r == Err::<(), LotteryError>(
                LotteryError::InvalidAccountData,
            ) && final(dst)@ == old(dst)@,
    {
        if dst.len() != LOTTERY_RESULT_DATA_LEN {
            return Err(LotteryError::InvalidAccountData);
        }
        self.pack_into_slice(dst);
        assert(dst@ =~= self@.packed());
        Ok(())
    }

    /// The packed record as a buffer of its own.
    pub fn to_bytes(&self) -> (bytes: Vec<u8>)
        ensures
            bytes@ == self@.packed(),
            bytes@.len() == LOTTERY_RESULT_DATA_LEN,
    {
        let mut bytes: Vec<u8> = vec![0u8; LOTTERY_RESULT_DATA_LEN];
        self.pack_into_slice(bytes.as_mut_slice());
        assert(bytes@ =~= self@.packed());
        bytes
    }
}

/// Decoding a packed result gives the result back.
pub proof fn lemma_lottery_result_data_round_trip(v: LotteryResultDataView)
    requires
        v.wf(),
    ensures
        v.packed().len() == LOTTERY_RESULT_DATA_LEN,
        LotteryResultDataView::decodes(v.packed()),
        LotteryResultDataView::unpacked(v.packed()) == v,
{
    let b = v.packed();
    lemma_u32_round_trip(v.lottery_id);
    assert(b.subrange(0, 4) =~= u32_to_le(v.lottery_id));
    assert(b.subrange(4, 10) =~= v.winning_numbers);
}

/// Packing a decoded result gives the bytes back.
pub proof fn lemma_lottery_result_data_bytes_round_trip(bytes: Seq<u8>)
    requires
        LotteryResultDataView::decodes(bytes),
    ensures
        LotteryResultDataView::unpacked(bytes).wf(),
        LotteryResultDataView::unpacked(bytes).packed() == bytes.subrange(
            0,
            LOTTERY_RESULT_DATA_LEN as int,
        ),
{
    let v = LotteryResultDataView::unpacked(bytes);
    lemma_u32_bytes_round_trip(bytes.subrange(0, 4));
    assert(v.packed() =~= bytes.subrange(0, LOTTERY_RESULT_DATA_LEN as int));
}

} // verus!
