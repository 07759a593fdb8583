use sollotto::error::LotteryError;
use sollotto::instruction::LotteryInstruction;
use sollotto::pubkey::Pubkey;

fn key(byte: u8) -> Pubkey {
    Pubkey { bytes: [byte; 32] }
}

fn all_kinds() -> Vec<LotteryInstruction> {
    vec![
        LotteryInstruction::InitLottery {
            lottery_id: 112233,
            holding_wallet: key(1),
            rewards_wallet: key(2),
            randomness_account: key(3),
        },
        LotteryInstruction::PurchaseTicket {
            user_wallet_pk: key(4),
            ticket_number_arr: [10, 20, 30, 40, 50, 15],
        },
        LotteryInstruction::StoreWinningNumbers {},
        LotteryInstruction::RewardWinners {},
        LotteryInstruction::UpdateSollottoWallets { holding_wallet: key(5), rewards_wallet: key(6) },
    ]
}

#[test]
fn init_lottery_payload_is_tag_id_and_three_keys() {
    let mut expected = vec![0u8, 0x69, 0xb6, 0x01, 0x00];
    expected.extend_from_slice(&[1u8; 32]);
    expected.extend_from_slice(&[2u8; 32]);
    expected.extend_from_slice(&[3u8; 32]);
    assert_eq!(all_kinds()[0].pack(), expected);
    assert_eq!(expected.len(), 101);
}

#[test]
fn purchase_ticket_payload_is_tag_key_and_numbers() {
    let mut expected = vec![1u8];
    expected.extend_from_slice(&[4u8; 32]);
    expected.extend_from_slice(&[10, 20, 30, 40, 50, 15]);
    assert_eq!(all_kinds()[1].pack(), expected);
    assert_eq!(expected.len(), 39);
}

#[test]
fn operations_without_fields_are_one_tag_byte() {
    assert_eq!(LotteryInstruction::StoreWinningNumbers {}.pack(), vec![2u8]);
    assert_eq!(LotteryInstruction::RewardWinners {}.pack(), vec![3u8]);
}

#[test]
fn update_wallets_payload_is_tag_and_two_keys() {
    let mut expected = vec![4u8];
    expected.extend_from_slice(&[5u8; 32]);
    expected.extend_from_slice(&[6u8; 32]);
    assert_eq!(all_kinds()[4].pack(), expected);
    assert_eq!(expected.len(), 65);
}

#[test]
fn unpack_undoes_pack_for_every_kind() {
    for op in all_kinds() {
        assert_eq!(LotteryInstruction::unpack(&op.pack()), Ok(op));
    }
    let edge = LotteryInstruction::InitLottery {
        lottery_id: u32::MAX,
        holding_wallet: key(0),
        rewards_wallet: key(255),
        randomness_account: key(0),
    };
    assert_eq!(LotteryInstruction::unpack(&edge.pack()), Ok(edge));
}

#[test]
fn pack_undoes_unpack() {
    for op in all_kinds() {
        let bytes = op.pack();
        let decoded = LotteryInstruction::unpack(&bytes).unwrap();
        assert_eq!(decoded.pack(), bytes);
    }
}

#[test]
fn empty_payload_is_invalid() {
    assert_eq!(LotteryInstruction::unpack(&[]), Err(LotteryError::InvalidInstruction));
}

#[test]
fn unknown_tags_are_invalid() {
    assert_eq!(LotteryInstruction::unpack(&[5]), Err(LotteryError::InvalidInstruction));
    assert_eq!(LotteryInstruction::unpack(&[255; 200]), Err(LotteryError::InvalidInstruction));
}

#[test]
fn truncated_payloads_are_invalid() {
    for op in all_kinds() {
        let bytes = op.pack();
        for keep in 1..bytes.len() {
            assert_eq!(
                LotteryInstruction::unpack(&bytes[..keep]),
                Err(LotteryError::InvalidInstruction)
            );
        }
    }
    assert_eq!(LotteryInstruction::unpack(&[0]), Err(LotteryError::InvalidInstruction));
    assert_eq!(LotteryInstruction::unpack(&[0, 1, 2]), Err(LotteryError::InvalidInstruction));
    assert_eq!(LotteryInstruction::unpack(&[1]), Err(LotteryError::InvalidInstruction));
    assert_eq!(LotteryInstruction::unpack(&[4]), Err(LotteryError::InvalidInstruction));
}

#[test]
fn bytes_behind_the_last_field_are_ignored() {
    for op in all_kinds() {
        let mut bytes = op.pack();
        bytes.extend_from_slice(&[0xee, 0xff]);
        assert_eq!(LotteryInstruction::unpack(&bytes), Ok(op));
    }
}
