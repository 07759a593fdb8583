use sollotto::error::LotteryError;
use sollotto::pubkey::Pubkey;
use sollotto::state::{LotteryData, LotteryResultData, TicketData};

fn key(byte: u8) -> Pubkey {
    Pubkey { bytes: [byte; 32] }
}

fn sample_lottery() -> LotteryData {
    LotteryData {
        is_initialized: true,
        is_finaled: false,
        lottery_id: 112233,
        total_registrations: 2,
        winning_numbers: [2, 3, 4, 5, 66, 7],
        prize_pool_amount: 200_000_000,
        holding_wallet: key(1),
        rewards_wallet: key(2),
        randomness_account: key(3),
    }
}

fn sample_lottery_bytes() -> Vec<u8> {
    let mut bytes = vec![1u8, 0];
    bytes.extend_from_slice(&[0x69, 0xb6, 0x01, 0x00]);
    bytes.extend_from_slice(&[2, 0, 0, 0]);
    bytes.extend_from_slice(&[2, 3, 4, 5, 66, 7]);
    bytes.extend_from_slice(&[0x00, 0xc2, 0xeb, 0x0b, 0, 0, 0, 0]);
    bytes.extend_from_slice(&[1u8; 32]);
    bytes.extend_from_slice(&[2u8; 32]);
    bytes.extend_from_slice(&[3u8; 32]);
    bytes
}

fn sample_ticket() -> TicketData {
    TicketData {
        is_purchased: true,
        charity: key(9),
        user_wallet_pk: key(8),
        ticket_number_arr: [11, 22, 33, 44, 51, 1],
    }
}

fn sample_ticket_bytes() -> Vec<u8> {
    let mut bytes = vec![1u8];
    bytes.extend_from_slice(&[9u8; 32]);
    bytes.extend_from_slice(&[8u8; 32]);
    bytes.extend_from_slice(&[11, 22, 33, 44, 51, 1]);
    bytes
}

#[test]
fn record_lengths_are_the_sums_of_their_fields() {
    assert_eq!(LotteryData::LEN, 120);
    assert_eq!(LotteryData::get_packed_len(), 1 + 1 + 4 + 4 + 6 + 8 + 32 + 32 + 32);
    assert_eq!(TicketData::LEN, 71);
    assert_eq!(TicketData::get_packed_len(), 1 + 32 + 32 + 6);
    assert_eq!(LotteryResultData::LEN, 10);
    assert_eq!(LotteryResultData::get_packed_len(), 4 + 6);
}

#[test]
fn lottery_data_packs_fields_in_order_little_endian() {
    let bytes = sample_lottery().to_bytes();
    assert_eq!(bytes.len(), 120);
    assert_eq!(bytes, sample_lottery_bytes());
}

#[test]
fn lottery_data_unpacks_what_it_packed() {
    assert_eq!(LotteryData::unpack_from_slice(&sample_lottery_bytes()), Ok(sample_lottery()));
    assert_eq!(LotteryData::unpack_unchecked(&sample_lottery_bytes()), Ok(sample_lottery()));
    let all_set = LotteryData {
        is_initialized: true,
        is_finaled: true,
        lottery_id: u32::MAX,
        total_registrations: 0x0102_0304,
        winning_numbers: [69, 1, 69, 1, 69, 29],
        prize_pool_amount: 0x0102_0304_0506_0708,
        holding_wallet: key(255),
        rewards_wallet: key(0),
        randomness_account: key(128),
    };
    let bytes = all_set.to_bytes();
    assert_eq!(&bytes[2..6], &[0xff, 0xff, 0xff, 0xff]);
    assert_eq!(&bytes[6..10], &[4, 3, 2, 1]);
    assert_eq!(&bytes[16..24], &[8, 7, 6, 5, 4, 3, 2, 1]);
    assert_eq!(LotteryData::unpack_from_slice(&bytes), Ok(all_set));
}

#[test]
fn lottery_data_pack_into_slice_leaves_the_tail() {
    let mut buffer = vec![0xaau8; 125];
    sample_lottery().pack_into_slice(&mut buffer);
    assert_eq!(&buffer[..120], &sample_lottery_bytes()[..]);
    assert_eq!(&buffer[120..], &[0xaa; 5]);
}

#[test]
fn lottery_data_reads_only_the_first_120_bytes() {
    let mut bytes = sample_lottery_bytes();
    bytes.extend_from_slice(&[7, 7, 7]);
    assert_eq!(LotteryData::unpack_from_slice(&bytes), Ok(sample_lottery()));
    assert_eq!(LotteryData::unpack_unchecked(&bytes), Err(LotteryError::InvalidAccountData));
}

#[test]
fn lottery_data_short_buffer_does_not_decode() {
    let bytes = sample_lottery_bytes();
    assert_eq!(
        LotteryData::unpack_from_slice(&bytes[..119]),
        Err(LotteryError::InvalidAccountData)
    );
    assert_eq!(LotteryData::unpack_from_slice(&[]), Err(LotteryError::InvalidAccountData));
    assert_eq!(LotteryData::unpack_unchecked(&bytes[..119]), Err(LotteryError::InvalidAccountData));
}

#[test]
fn lottery_data_flag_bytes_must_be_0_or_1() {
    let mut bytes = sample_lottery_bytes();
    bytes[0] = 2;
    assert_eq!(LotteryData::unpack_from_slice(&bytes), Err(LotteryError::InvalidAccountData));
    bytes[0] = 1;
    bytes[1] = 255;
    assert_eq!(LotteryData::unpack_from_slice(&bytes), Err(LotteryError::InvalidAccountData));
    bytes[1] = 1;
    let decoded = LotteryData::unpack_from_slice(&bytes).unwrap();
    assert!(decoded.is_initialized && decoded.is_finaled);
}

#[test]
fn zeroed_lottery_record_is_an_empty_round() {
    let round = LotteryData::unpack_unchecked(&[0u8; 120]).unwrap();
    assert!(!round.is_initialized());
    assert!(!round.is_finaled);
    assert_eq!(round.lottery_id, 0);
    assert_eq!(round.total_registrations, 0);
    assert_eq!(round.winning_numbers, [0; 6]);
    assert_eq!(round.prize_pool_amount, 0);
    assert_eq!(round.holding_wallet, key(0));
    assert!(sample_lottery().is_initialized());
}

#[test]
fn ticket_data_packs_fields_in_order() {
    let bytes = sample_ticket().to_bytes();
    assert_eq!(bytes.len(), 71);
    assert_eq!(bytes, sample_ticket_bytes());
}

#[test]
fn ticket_data_unpacks_what_it_packed() {
    assert_eq!(TicketData::unpack_from_slice(&sample_ticket_bytes()), Ok(sample_ticket()));
    assert_eq!(TicketData::unpack_unchecked(&sample_ticket_bytes()), Ok(sample_ticket()));
    let blank = TicketData::unpack_unchecked(&[0u8; 71]).unwrap();
    assert!(!blank.is_purchased);
    assert_eq!(blank.ticket_number_arr, [0; 6]);
}

#[test]
fn ticket_data_pack_into_slice_leaves_the_tail() {
    let mut buffer = vec![0x55u8; 73];
    sample_ticket().pack_into_slice(&mut buffer);
    assert_eq!(&buffer[..71], &sample_ticket_bytes()[..]);
    assert_eq!(&buffer[71..], &[0x55; 2]);
}

#[test]
fn ticket_data_rejects_short_buffers_and_bad_flags() {
    let mut bytes = sample_ticket_bytes();
    assert_eq!(TicketData::unpack_from_slice(&bytes[..70]), Err(LotteryError::InvalidAccountData));
    bytes[0] = 3;
    assert_eq!(TicketData::unpack_from_slice(&bytes), Err(LotteryError::InvalidAccountData));
    bytes[0] = 0;
    bytes.push(0);
    assert_eq!(TicketData::unpack_unchecked(&bytes), Err(LotteryError::InvalidAccountData));
    assert!(TicketData::unpack_from_slice(&bytes).is_ok());
}

#[test]
fn result_data_packs_id_and_numbers() {
    let result = LotteryResultData { lottery_id: 112233, winning_numbers: [2, 3, 4, 5, 66, 7] };
    let bytes = result.to_bytes();
    assert_eq!(bytes, vec![0x69, 0xb6, 0x01, 0x00, 2, 3, 4, 5, 66, 7]);
    assert_eq!(LotteryResultData::unpack_from_slice(&bytes), Ok(result));
    assert_eq!(LotteryResultData::unpack_unchecked(&bytes), Ok(result));
}

#[test]
fn result_data_pack_into_slice_leaves_the_tail() {
    let result = LotteryResultData { lottery_id: 1, winning_numbers: [6, 5, 4, 3, 2, 1] };
    let mut buffer = vec![9u8; 12];
    result.pack_into_slice(&mut buffer);
    assert_eq!(buffer, vec![1, 0, 0, 0, 6, 5, 4, 3, 2, 1, 9, 9]);
}

#[test]
fn result_data_rejects_wrong_lengths() {
    assert_eq!(
        LotteryResultData::unpack_from_slice(&[0u8; 9]),
        Err(LotteryError::InvalidAccountData)
    );
    assert_eq!(
        LotteryResultData::unpack_unchecked(&[0u8; 11]),
        Err(LotteryError::InvalidAccountData)
    );
    assert!(LotteryResultData::unpack_from_slice(&[0u8; 11]).is_ok());
}

#[test]
fn default_records_are_all_zero() {
    assert_eq!(LotteryData::default().to_bytes(), vec![0u8; 120]);
    assert_eq!(TicketData::default().to_bytes(), vec![0u8; 71]);
    assert_eq!(LotteryResultData::default().to_bytes(), vec![0u8; 10]);
    assert_eq!(LotteryData::unpack_unchecked(&[0u8; 120]), Ok(LotteryData::default()));
    assert_eq!(TicketData::unpack_unchecked(&[0u8; 71]), Ok(TicketData::default()));
    assert_eq!(LotteryResultData::unpack_unchecked(&[0u8; 10]), Ok(LotteryResultData::default()));
    assert_eq!(Pubkey::default(), key(0));
}

#[test]
fn pack_fills_a_buffer_of_the_exact_length() {
    let mut buffer = vec![0xaau8; 120];
    assert_eq!(sample_lottery().pack(&mut buffer), Ok(()));
    assert_eq!(buffer, sample_lottery_bytes());
    let mut buffer = vec![0xaau8; 71];
    assert_eq!(sample_ticket().pack(&mut buffer), Ok(()));
    assert_eq!(buffer, sample_ticket_bytes());
    let mut buffer = vec![0xaau8; 10];
    let result = LotteryResultData { lottery_id: 258, winning_numbers: [1, 2, 3, 4, 5, 6] };
    assert_eq!(result.pack(&mut buffer), Ok(()));
    assert_eq!(buffer, vec![2, 1, 0, 0, 1, 2, 3, 4, 5, 6]);
}

#[test]
fn pack_refuses_any_other_length_and_writes_nothing() {
    for len in [0usize, 119, 121, 328] {
        let mut buffer = vec![0xaau8; len];
        assert_eq!(sample_lottery().pack(&mut buffer), Err(LotteryError::InvalidAccountData));
        assert_eq!(buffer, vec![0xaau8; len]);
    }
    let mut buffer = vec![0xaau8; 70];
    assert_eq!(sample_ticket().pack(&mut buffer), Err(LotteryError::InvalidAccountData));
    assert_eq!(buffer, vec![0xaau8; 70]);
    let mut buffer = vec![0xaau8; 11];
    let result = LotteryResultData { lottery_id: 1, winning_numbers: [1, 2, 3, 4, 5, 6] };
    assert_eq!(result.pack(&mut buffer), Err(LotteryError::InvalidAccountData));
    assert_eq!(buffer, vec![0xaau8; 11]);
}
