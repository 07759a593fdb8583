//! What an operation asks the host to do, and the requests that ask for it.
use vstd::prelude::*;
use crate::codec::u64_to_le;
use crate::instruction::{readonly, writable, AccountMeta, Instruction, InstructionView};
use crate::program_ids::{system_program_bytes, token_program_bytes};
use crate::pubkey::Pubkey;

verus! {

/// Something the caller must have the host carry out.
#[derive(Clone, Copy, Debug, PartialEq, Eq)]
pub enum Effect {
    /// Move `lamports` of native currency from one wallet to another.
    Transfer { from: Pubkey, to: Pubkey, lamports: u64 },
    /// Mint `amount` base units of the loyalty token `mint` to `account`,
    /// authorized by `authority`.
    MintTo { mint: Pubkey, account: Pubkey, authority: Pubkey, amount: u64 },
}

/// What an [`Effect`] holds, as mathematical values.
pub enum EffectView {
    Transfer { from: Seq<u8>, to: Seq<u8>, lamports: u64 },
    MintTo { mint: Seq<u8>, account: Seq<u8>, authority: Seq<u8>, amount: u64 },
}

impl View for Effect {
    type V = EffectView;

    open spec fn view(&self) -> EffectView {
        match *self {
            Effect::Transfer { from, to, lamports } => EffectView::Transfer {
                from: from@,
                to: to@,
                lamports,
            },
            Effect::MintTo { mint, account, authority, amount } => EffectView::MintTo {
                mint: mint@,
                account: account@,
                authority: authority@,
                amount,
            },
        }
    }
}

/// The views of a list of effects, in order.
pub open spec fn effect_views(effects: Seq<Effect>) -> Seq<EffectView> {
    Seq::new(effects.len(), |i: int| effects[i]@)
}

/// The native currency that a list of effects moves, all transfers taken
/// together.
pub open spec fn lamports_moved(effects: Seq<EffectView>) -> int
    decreases effects.len(),
{
    if effects.len() == 0 {
        0
    } else {
        lamports_moved(effects.drop_last()) + match effects.last() {
            EffectView::Transfer { lamports, .. } => lamports as int,
            EffectView::MintTo { .. } => 0,
        }
    }
}

/// What two lists of effects move together is the sum of what each moves.
pub proof fn lemma_lamports_moved_adds(first: Seq<EffectView>, second: Seq<EffectView>)
    ensures
        lamports_moved(first + second) == lamports_moved(first) + lamports_moved(second),
    decreases second.len(),
{
    if second.len() == 0 {
        assert(first + second =~= first);
    } else {
        lemma_lamports_moved_adds(first, second.drop_last());
        assert((first + second).drop_last() =~= first + second.drop_last());
    }
}

/// The payload of the system program's transfer of `lamports`, as
/// `solana_program::system_instruction::transfer` encodes it.
pub uninterp spec fn system_transfer_data(lamports: u64) -> Seq<u8>;

/// The payload of the token program's mint of `amount` base units: the tag 7
/// and the amount, little-endian.
pub open spec fn token_mint_to_data(amount: u64) -> Seq<u8> {
    seq![7u8] + u64_to_le(amount)
}

/// The request that asks the host for an effect.
pub open spec fn effect_instruction(effect: EffectView) -> InstructionView {
    match effect {
        EffectView::Transfer { from, to, lamports } => InstructionView {
            program_id: system_program_bytes(),
            accounts: seq![writable(from, true), writable(to, false)],
            data: system_transfer_data(lamports),
        },
        EffectView::MintTo { mint, account, authority, amount } => InstructionView {
            program_id: token_program_bytes(),
            accounts: seq![
                writable(mint, false),
                writable(account, false),
                readonly(authority, true),
            ],
            data: token_mint_to_data(amount),
        },
    }
}

/// Calls `solana_program::system_instruction::transfer`. Trusted: the
/// request it builds is for the system program, names the sender as a
/// writable signer and the receiver as writable, and carries the payload
/// that the function encodes from the amount alone.
#[verifier::external_body]
fn system_transfer(from: &Pubkey, to: &Pubkey, lamports: u64) -> (ix: Instruction)
    ensures
        ix@ == (InstructionView {
            program_id: system_program_bytes(),
            accounts: seq![writable(from@, true), writable(to@, false)],
            data: system_transfer_data(lamports),
        }),
{
    let from = solana_program::pubkey::Pubkey::new_from_array(from.bytes);
    let to = solana_program::pubkey::Pubkey::new_from_array(to.bytes);
    let ix = solana_program::system_instruction::transfer(&from, &to, lamports);
    Instruction {
        program_id: Pubkey { bytes: ix.program_id.to_bytes() },
        accounts: ix.accounts.iter().map(|meta| AccountMeta {
            pubkey: Pubkey { bytes: meta.pubkey.to_bytes() },
            is_signer: meta.is_signer,
            is_writable: meta.is_writable,
        }).collect(),
        data: ix.data,
    }
}

/// Calls `spl_token::instruction::mint_to` for the token program itself and
/// without further signers. Trusted: on that program identifier the function
/// succeeds; the request it builds is for the token program, names the mint
/// and the receiving account as writable and the authority as a read-only
/// signer, and carries the tag 7 followed by the amount, little-endian.
#[verifier::external_body]
fn token_mint_to(mint: &Pubkey, account: &Pubkey, authority: &Pubkey, amount: u64) -> (ix:
    Instruction)
    ensures
        ix@ == (InstructionView {
            program_id: token_program_bytes(),
            accounts: seq![
                writable(mint@, false),
                writable(account@, false),
                readonly(authority@, true),
            ],
            data: token_mint_to_data(amount),
        }),
{
    let mint = solana_program::pubkey::Pubkey::new_from_array(mint.bytes);
    let account = solana_program::pubkey::Pubkey::new_from_array(account.bytes);
    let authority = solana_program::pubkey::Pubkey::new_from_array(authority.bytes);
    let ix = spl_token::instruction::mint_to(&spl_token::id(), &mint, &account, &authority, &[], amount).unwrap();
    Instruction {
        program_id: Pubkey { bytes: ix.program_id.to_bytes() },
        accounts: ix.accounts.iter().map(|meta| AccountMeta {
            pubkey: Pubkey { bytes: meta.pubkey.to_bytes() },
            is_signer: meta.is_signer,
            is_writable: meta.is_writable,
        }).collect(),
        data: ix.data,
    }
}

impl Effect {
    /// The request that asks the host for the effect.
    pub fn instruction(&self) -> (ix: Instruction)
        ensures
            ix@ == effect_instruction(self@),
    {
        match self {
            Effect::Transfer { from, to, lamports } => system_transfer(from, to, *lamports),
            Effect::MintTo { mint, account, authority, amount } => token_mint_to(
                mint,
                account,
                authority,
                *amount,
            ),
        }
    }
}

} // verus!
