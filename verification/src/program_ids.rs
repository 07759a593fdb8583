//! Identifiers of the host's own records and programs.
use vstd::prelude::*;
use crate::pubkey::{zeros, Pubkey};

verus! {

/// The identifier of the host's rent record.
pub open spec fn rent_sysvar_bytes() -> Seq<u8> {
    seq![
        6u8, 167, 213, 23, 25, 44, 92, 81, 33, 140, 201, 76, 61, 74, 241, 127,
        88, 218, 238, 8, 155, 161, 253, 68, 227, 219, 217, 138, 0, 0, 0, 0,
    ]
}

/// The identifier of the host's system program: 32 zero bytes.
pub open spec fn system_program_bytes() -> Seq<u8> {
    zeros(32)
}

/// The identifier of the token program.
pub open spec fn token_program_bytes() -> Seq<u8> {
    seq![
        6u8, 221, 246, 225, 215, 101, 161, 147, 217, 203, 225, 70, 206, 235, 121, 172,
        28, 180, 133, 237, 95, 91, 55, 145, 58, 140, 245, 133, 126, 255, 0, 169,
    ]
}

/// Calls `solana_program::sysvar::rent::id`. Trusted: that function returns
/// the constant it declares as `SysvarRent111111111111111111111111111111111`,
/// whose 32 bytes are those of [`rent_sysvar_bytes`].
#[verifier::external_body]
pub(crate) fn rent_sysvar_id() -> (id: Pubkey)
    ensures
        id@ == rent_sysvar_bytes(),
{
    Pubkey { bytes: solana_program::sysvar::rent::id().to_bytes() }
}

/// Calls `solana_program::system_program::id`. Trusted: that function
/// returns the constant it declares as `11111111111111111111111111111111`,
/// which is 32 zero bytes.
#[verifier::external_body]
pub(crate) fn system_program_id() -> (id: Pubkey)
    ensures
        id@ == system_program_bytes(),
{
    Pubkey { bytes: solana_program::system_program::id().to_bytes() }
}

/// Calls `spl_token::id`. Trusted: that function returns the constant it
/// declares as `TokenkegQfeZyiNwAJbNbGKPFXCWuBvf9Ss623VQ5DA`, whose 32 bytes
/// are those of [`token_program_bytes`].
#[verifier::external_body]
pub(crate) fn token_program_id() -> (id: Pubkey)
    ensures
        id@ == token_program_bytes(),
{
    Pubkey { bytes: spl_token::id().to_bytes() }
}

} // verus!
