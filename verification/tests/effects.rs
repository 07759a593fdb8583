use sollotto::effect::Effect;
use sollotto::instruction::AccountMeta;
use sollotto::pubkey::Pubkey;
use sollotto::token::token_amount;

fn key(byte: u8) -> Pubkey {
    Pubkey { bytes: [byte; 32] }
}

fn host_key(byte: u8) -> solana_program::pubkey::Pubkey {
    solana_program::pubkey::Pubkey::new_from_array([byte; 32])
}

#[test]
fn transfer_becomes_a_request_to_the_system_program() {
    let effect = Effect::Transfer { from: key(1), to: key(2), lamports: 100_000_000 };
    let ix = effect.instruction();
    assert_eq!(ix.program_id.bytes, [0u8; 32]);
    assert_eq!(
        ix.accounts,
        vec![
            AccountMeta { pubkey: key(1), is_signer: true, is_writable: true },
            AccountMeta { pubkey: key(2), is_signer: false, is_writable: true },
        ]
    );
    assert_eq!(ix.data, vec![2, 0, 0, 0, 0x00, 0xe1, 0xf5, 0x05, 0, 0, 0, 0]);
}

#[test]
fn transfer_request_is_the_one_the_host_crate_builds() {
    let ix = Effect::Transfer { from: key(7), to: key(8), lamports: 0x0102_0304_0506_0708 }
        .instruction();
    let expected =
        solana_program::system_instruction::transfer(&host_key(7), &host_key(8), 0x0102_0304_0506_0708);
    assert_eq!(ix.program_id.bytes, expected.program_id.to_bytes());
    assert_eq!(ix.data, expected.data);
    assert_eq!(ix.accounts.len(), expected.accounts.len());
    for (ours, theirs) in ix.accounts.iter().zip(expected.accounts.iter()) {
        assert_eq!(ours.pubkey.bytes, theirs.pubkey.to_bytes());
        assert_eq!(ours.is_signer, theirs.is_signer);
        assert_eq!(ours.is_writable, theirs.is_writable);
    }
}

#[test]
fn transfer_payload_depends_on_the_amount_alone() {
    let one = Effect::Transfer { from: key(1), to: key(2), lamports: 5 }.instruction();
    let other = Effect::Transfer { from: key(3), to: key(4), lamports: 5 }.instruction();
    let more = Effect::Transfer { from: key(1), to: key(2), lamports: 6 }.instruction();
    assert_eq!(one.data, other.data);
    assert_ne!(one.data, more.data);
}

#[test]
fn mint_becomes_a_request_to_the_token_program() {
    let effect =
        Effect::MintTo { mint: key(1), account: key(2), authority: key(3), amount: 1_000_000_000 };
    let ix = effect.instruction();
    assert_eq!(ix.program_id.bytes, spl_token::id().to_bytes());
    assert_eq!(
        ix.accounts,
        vec![
            AccountMeta { pubkey: key(1), is_signer: false, is_writable: true },
            AccountMeta { pubkey: key(2), is_signer: false, is_writable: true },
            AccountMeta { pubkey: key(3), is_signer: true, is_writable: false },
        ]
    );
    assert_eq!(ix.data, vec![7, 0x00, 0xca, 0x9a, 0x3b, 0, 0, 0, 0]);
}

#[test]
fn mint_request_is_the_one_the_token_crate_builds() {
    let ix = Effect::MintTo { mint: key(1), account: key(2), authority: key(3), amount: u64::MAX }
        .instruction();
    let expected = spl_token::instruction::mint_to(
        &spl_token::id(),
        &host_key(1),
        &host_key(2),
        &host_key(3),
        &[],
        u64::MAX,
    )
    .unwrap();
    assert_eq!(ix.program_id.bytes, expected.program_id.to_bytes());
    assert_eq!(ix.data, expected.data);
    assert_eq!(ix.data, vec![7, 255, 255, 255, 255, 255, 255, 255, 255]);
    assert_eq!(ix.accounts.len(), 3);
    for (ours, theirs) in ix.accounts.iter().zip(expected.accounts.iter()) {
        assert_eq!(ours.pubkey.bytes, theirs.pubkey.to_bytes());
        assert_eq!(ours.is_signer, theirs.is_signer);
        assert_eq!(ours.is_writable, theirs.is_writable);
    }
}

#[test]
fn token_amount_is_tokens_times_ten_to_the_decimals() {
    assert_eq!(token_amount(1, 0), Some(1));
    assert_eq!(token_amount(1, 1), Some(10));
    assert_eq!(token_amount(1, 9), Some(1_000_000_000));
    assert_eq!(token_amount(3, 2), Some(300));
    assert_eq!(token_amount(0, 255), Some(0));
    assert_eq!(token_amount(1, 19), Some(10_000_000_000_000_000_000));
    assert_eq!(token_amount(18, 18), Some(18_000_000_000_000_000_000));
}

#[test]
fn token_amount_is_none_beyond_64_bits() {
    assert_eq!(token_amount(1, 20), None);
    assert_eq!(token_amount(2, 19), None);
    assert_eq!(token_amount(19, 18), None);
    assert_eq!(token_amount(1, 255), None);
    assert_eq!(token_amount(u64::MAX, 1), None);
    assert_eq!(token_amount(u64::MAX, 0), Some(u64::MAX));
}

#[test]
fn one_whole_token_matches_the_token_crate() {
    for decimals in 0..=19u8 {
        assert_eq!(token_amount(1, decimals), Some(spl_token::ui_amount_to_amount(1.0, decimals)));
    }
}
