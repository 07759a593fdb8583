use sollotto::codec::{
    push_bytes, push_u32, read_flag, read_numbers, read_pubkey, read_u32, read_u64, write_bytes,
    write_flag, write_u32, write_u64,
};
use sollotto::error::LotteryError;
use sollotto::instruction::LotteryInstruction;
use sollotto::pubkey::Pubkey;

#[test]
fn numbers_are_read_least_significant_byte_first() {
    let buffer = [0xff, 0x78, 0x56, 0x34, 0x12, 0xef, 0xcd, 0xab, 0x90, 0xff];
    assert_eq!(read_u32(&buffer, 1), 0x1234_5678);
    assert_eq!(read_u64(&buffer, 1), 0x90ab_cdef_1234_5678);
    assert_eq!(read_u32(&[1, 0, 0, 0], 0), 1);
    assert_eq!(read_u32(&[0, 1, 0, 0], 0), 256);
    assert_eq!(read_u32(&[0, 0, 1, 0], 0), 65_536);
    assert_eq!(read_u32(&[0, 0, 0, 1], 0), 16_777_216);
    assert_eq!(read_u32(&[255; 4], 0), u32::MAX);
    assert_eq!(read_u64(&[255; 8], 0), u64::MAX);
    assert_eq!(read_u64(&[0, 0, 0, 0, 1, 0, 0, 0], 0), 4_294_967_296);
}

#[test]
fn numbers_are_written_least_significant_byte_first() {
    let mut buffer = [0xaau8; 10];
    write_u32(&mut buffer, 1, 0x1234_5678);
    assert_eq!(buffer, [0xaa, 0x78, 0x56, 0x34, 0x12, 0xaa, 0xaa, 0xaa, 0xaa, 0xaa]);
    write_u64(&mut buffer, 2, 0x0102_0304_0506_0708);
    assert_eq!(buffer, [0xaa, 0x78, 8, 7, 6, 5, 4, 3, 2, 1]);
    write_u32(&mut buffer, 0, u32::MAX);
    assert_eq!(&buffer[..5], &[255, 255, 255, 255, 6]);
}

#[test]
fn written_numbers_read_back() {
    let mut buffer = [0u8; 12];
    for value in [0u64, 1, 255, 256, 100_000_000, u32::MAX as u64, u32::MAX as u64 + 1, u64::MAX] {
        write_u64(&mut buffer, 3, value);
        assert_eq!(read_u64(&buffer, 3), value);
        assert_eq!(buffer[3..11], value.to_le_bytes());
    }
    for value in [0u32, 1, 112233, u32::MAX] {
        write_u32(&mut buffer, 8, value);
        assert_eq!(read_u32(&buffer, 8), value);
        assert_eq!(buffer[8..12], value.to_le_bytes());
    }
}

#[test]
fn flags_are_one_byte_zero_or_one() {
    assert_eq!(read_flag(&[0, 1, 2], 0), Ok(false));
    assert_eq!(read_flag(&[0, 1, 2], 1), Ok(true));
    assert_eq!(read_flag(&[0, 1, 2], 2), Err(LotteryError::InvalidAccountData));
    assert_eq!(read_flag(&[255], 0), Err(LotteryError::InvalidAccountData));
    let mut buffer = [7u8; 3];
    write_flag(&mut buffer, 1, true);
    assert_eq!(buffer, [7, 1, 7]);
    write_flag(&mut buffer, 1, false);
    assert_eq!(buffer, [7, 0, 7]);
}

#[test]
fn fields_are_read_at_their_offset() {
    let buffer: Vec<u8> = (0u8..50).collect();
    assert_eq!(read_numbers(&buffer, 10), [10, 11, 12, 13, 14, 15]);
    let key = read_pubkey(&buffer, 18);
    let expected: Vec<u8> = (18u8..50).collect();
    assert_eq!(key.bytes.to_vec(), expected);
    assert_eq!(read_pubkey(&[3u8; 32], 0), Pubkey { bytes: [3; 32] });
}

#[test]
fn bytes_are_written_at_their_offset_and_nowhere_else() {
    let mut buffer = [0u8; 8];
    write_bytes(&mut buffer, 2, &[1, 2, 3]);
    assert_eq!(buffer, [0, 0, 1, 2, 3, 0, 0, 0]);
    write_bytes(&mut buffer, 8, &[]);
    assert_eq!(buffer, [0, 0, 1, 2, 3, 0, 0, 0]);
    write_bytes(&mut buffer, 0, &[9; 8]);
    assert_eq!(buffer, [9; 8]);
}

#[test]
fn pushes_append() {
    let mut buffer = vec![7u8];
    push_u32(&mut buffer, 0x0102_0304);
    assert_eq!(buffer, vec![7, 4, 3, 2, 1]);
    push_bytes(&mut buffer, &[8, 9]);
    assert_eq!(buffer, vec![7, 4, 3, 2, 1, 8, 9]);
    push_bytes(&mut buffer, &[]);
    assert_eq!(buffer.len(), 7);
}

#[test]
fn operations_name_the_positions_of_the_oracles() {
    let key = Pubkey { bytes: [1; 32] };
    let init = LotteryInstruction::InitLottery {
        lottery_id: 1,
        holding_wallet: key,
        rewards_wallet: key,
        randomness_account: key,
    };
    let purchase =
        LotteryInstruction::PurchaseTicket { user_wallet_pk: key, ticket_number_arr: [1; 6] };
    let store = LotteryInstruction::StoreWinningNumbers {};
    let reward = LotteryInstruction::RewardWinners {};
    let update =
        LotteryInstruction::UpdateSollottoWallets { holding_wallet: key, rewards_wallet: key };
    assert_eq!(init.rent_position(), Some(1));
    assert_eq!(purchase.rent_position(), Some(7));
    assert_eq!(store.rent_position(), None);
    assert_eq!(reward.rent_position(), None);
    assert_eq!(update.rent_position(), None);
    assert_eq!(store.randomness_position(), Some(1));
    assert_eq!(init.randomness_position(), None);
    assert_eq!(purchase.randomness_position(), None);
    assert_eq!(reward.randomness_position(), None);
    assert_eq!(update.randomness_position(), None);
}
