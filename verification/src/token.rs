//! The loyalty token: how many base units make a whole token.
use vstd::prelude::*;

verus! {

/// Length of a mint record of the token program.
pub const MINT_LEN: usize = 82;

/// The four bytes at `at` are the tag of an optional identifier: 0 or 1,
/// little-endian.
pub open spec fn option_tag(data: Seq<u8>, at: int) -> bool {
    (data[at] == 0 || data[at] == 1) && data[at + 1] == 0 && data[at + 2] == 0 && data[at + 3]
        == 0
}

/// The number of decimals of the mint that `data` holds. There is none
/// unless `data` is 82 bytes long, the tags of its two optional authorities
/// (bytes 0 to 3 and 46 to 49) are well formed and its flag (byte 45) says
/// that the mint is initialized. The decimals are byte 44.
pub open spec fn mint_decimals(data: Seq<u8>) -> Option<u8> {
    if data.len() == MINT_LEN && option_tag(data, 0) && data[45] == 1 && option_tag(data, 46) {
        Some(data[44])
    } else {
        None
    }
}

/// Calls `spl_token::state::Mint::unpack` and hands out the decimals of the
/// mint. Trusted: the function accepts exactly the records that
/// [`mint_decimals`] describes, and reads the decimals from byte 44.
#[verifier::external_body]
pub(crate) fn unpack_mint_decimals(data: &[u8]) -> (r: Option<u8>)
    ensures
        r == mint_decimals(data@),
{
    match <spl_token::state::Mint as solana_program::program_pack::Pack>::unpack(data) {
        Ok(mint) => Some(mint.decimals),
        Err(_) => None,
    }
}

/// Ten to the power of `n`.
pub open spec fn pow10(n: nat) -> nat
    decreases n,
{
    if n == 0 {
        1
    } else {
        10 * pow10((n - 1) as nat)
    }
}

proof fn lemma_pow10_grows(m: nat, n: nat)
    requires
        m <= n,
    ensures
        1 <= pow10(m) <= pow10(n),
    decreases n,
{
    if n > 0 {
        if m < n {
            lemma_pow10_grows(m, (n - 1) as nat);
        } else {
            lemma_pow10_grows((m - 1) as nat, (n - 1) as nat);
        }
    }
}

/// The base units of `tokens` whole tokens of a mint with `decimals`
/// decimals: `tokens` times ten to the power of `decimals`. There is none
/// when that exceeds 64 bits.
pub fn token_amount(tokens: u64, decimals: u8) -> (r: Option<u64>)
    ensures
        tokens * pow10(decimals as nat) <= u64::MAX ==> r == Some(
            (tokens * pow10(decimals as nat)) as u64,
        ),
        tokens * pow10(decimals as nat) > u64::MAX ==> r is None,
{
    let mut amount: u64 = tokens;
    let mut i: u8 = 0;
    assert(tokens * pow10(0) == tokens) by {
        assert(pow10(0) == 1);
    }
    while i < decimals
        invariant
            i <= decimals,
            amount == tokens * pow10(i as nat),
        decreases decimals - i,
    {
        let next = match amount.checked_mul(10) {
            Some(next) => next,
            None => {
                proof {
                    lemma_pow10_grows((i + 1) as nat, decimals as nat);
                    assert(tokens * pow10((i + 1) as nat) <= tokens * pow10(decimals as nat))
                        by (nonlinear_arith)
                        requires
                            pow10((i + 1) as nat) <= pow10(decimals as nat),
                    ;
                    assert(tokens * pow10((i + 1) as nat) == 10 * (tokens * pow10(i as nat)))
                        by (nonlinear_arith)
                        requires
                            pow10((i + 1) as nat) == 10 * pow10(i as nat),
                    ;
                }
                return None;
            },
        };
        proof {
            assert(tokens * pow10((i + 1) as nat) == 10 * (tokens * pow10(i as nat)))
                by (nonlinear_arith)
                requires
                    pow10((i + 1) as nat) == 10 * pow10(i as nat),
            ;
        }
        amount = next;
        i += 1;
    }
    Some(amount)
}

} // verus!
