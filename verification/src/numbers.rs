//! Ticket numbers: their ranges, and how winning numbers come from random
//! bytes.
use vstd::prelude::*;
use crate::error::LotteryError;

verus! {

/// Largest value of a main number; the smallest is 1.
pub const MAIN_NUMBER_MAX: u8 = 69;

/// Largest value of the bonus number; the smallest is 1.
pub const BONUS_NUMBER_MAX: u8 = 29;

/// A random byte is reduced modulo this to give a main winning number.
pub const MAIN_NUMBER_MODULUS: u8 = 49;

/// A random byte is reduced modulo this to give the bonus winning number.
pub const BONUS_NUMBER_MODULUS: u8 = 26;

/// How many random bytes the six winning numbers need.
pub const RANDOM_BYTES_NEEDED: usize = 6;

/// Six numbers are a valid ticket when each of the first five lies in 1..=69
/// and the sixth in 1..=29.
pub open spec fn valid_numbers(numbers: Seq<u8>) -> bool {
    &&& numbers.len() == 6
    &&& forall|i: int| 0 <= i < 5 ==> 1 <= #[trigger] numbers[i] <= MAIN_NUMBER_MAX
    &&& 1 <= numbers[5] <= BONUS_NUMBER_MAX
}

/// The winning numbers that six random bytes give: each of the first five
/// bytes modulo 49, the sixth modulo 26, each plus one.
pub open spec fn derived_numbers(random: Seq<u8>) -> Seq<u8>
    recommends
        random.len() >= 6,
{
    seq![
        (random[0] % MAIN_NUMBER_MODULUS + 1) as u8,
        (random[1] % MAIN_NUMBER_MODULUS + 1) as u8,
        (random[2] % MAIN_NUMBER_MODULUS + 1) as u8,
        (random[3] % MAIN_NUMBER_MODULUS + 1) as u8,
        (random[4] % MAIN_NUMBER_MODULUS + 1) as u8,
        (random[5] % BONUS_NUMBER_MODULUS + 1) as u8,
    ]
}

/// Accepts six numbers exactly when they are a valid ticket.
pub fn check_numbers(numbers: &[u8; 6]) -> (r: Result<(), LotteryError>)
    ensures
        valid_numbers(numbers@) ==> r == Ok::<(), LotteryError>(()),
        !valid_numbers(numbers@) ==> r == Err::<(), LotteryError>(LotteryError::InvalidNumber),
{
    let mut i: usize = 0;
    while i < 5
        invariant
            i <= 5,
            forall|j: int| 0 <= j < i ==> 1 <= #[trigger] numbers@[j] <= MAIN_NUMBER_MAX,
        decreases 5 - i,
    {
        if numbers[i] < 1 || numbers[i] > MAIN_NUMBER_MAX {
            return Err(LotteryError::InvalidNumber);
        }
        i += 1;
    }
    if numbers[5] < 1 || numbers[5] > BONUS_NUMBER_MAX {
        return Err(LotteryError::InvalidNumber);
    }
    Ok(())
}

/// Reduces the first six random bytes to winning numbers. Fewer than six
/// bytes give no numbers.
pub fn derive_winning_numbers(random: &[u8]) -> (r: Result<[u8; 6], LotteryError>)
    ensures
        random@.len() < RANDOM_BYTES_NEEDED ==> r == Err::<[u8; 6], LotteryError>(
            LotteryError::InvalidRandomResult,
        ),
        random@.len() >= RANDOM_BYTES_NEEDED ==> (r matches Ok(numbers) && numbers@
            == derived_numbers(random@) && valid_numbers(numbers@)),
{
    if random.len() < RANDOM_BYTES_NEEDED {
        return Err(LotteryError::InvalidRandomResult);
    }
    let mut numbers: [u8; 6] = [0u8; 6];
    let mut i: usize = 0;
    while i < 5
        invariant
            i <= 5,
            random.len() >= 6,
            forall|j: int|
                0 <= j < i ==> #[trigger] numbers@[j] == (random@[j] % MAIN_NUMBER_MODULUS + 1),
        decreases 5 - i,
    {
        numbers[i] = random[i] % MAIN_NUMBER_MODULUS + 1;
        i += 1;
    }
    numbers[5] = random[5] % BONUS_NUMBER_MODULUS + 1;
    assert(numbers@ =~= derived_numbers(random@));
    Ok(numbers)
}

/// Numbers derived from random bytes are always a valid ticket.
pub proof fn lemma_derived_numbers_valid(random: Seq<u8>)
    requires
        random.len() >= 6,
    ensures
        valid_numbers(derived_numbers(random)),
{
}

} // verus!
