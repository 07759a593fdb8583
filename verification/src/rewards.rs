//! The reward distribution engine: who wins what when a round closes.
//!
//! A ticket is ranked by how many of its five main numbers equal the winning
//! numbers at the same position. The bonus number takes no part, so five of
//! five is the top tier.
//!
//! All amounts are whole numbers of the smallest currency unit. A share of
//! the pool is the pool times the percentage, divided by one hundred, rounded
//! down; an even split is a division, rounded down. What rounding leaves over
//! stays in the pool, and so does the four-match part when no ticket has four
//! matches. A round whose flat rewards would take the payout beyond the pool
//! pays nothing: it is refused for insufficient funds.
use vstd::prelude::*;
use crate::effect::{
    effect_views, lamports_moved, lemma_lamports_moved_adds, Effect, EffectView,
};
use crate::error::LotteryError;
use crate::pubkey::Pubkey;
use crate::state::{TicketData, TicketDataView};

verus! {

/// Share of the pool that goes to the rewards wallet, in percent.
pub const PLATFORM_FEE_PERCENT: u64 = 5;

/// Share of the pool that the four-match tier splits, in percent.
pub const TIER_B_PERCENT: u64 = 5;

/// Share of the pool that is left for the winners once the fee is taken, in
/// percent.
pub const WINNERS_PERCENT: u64 = 95;

/// What every three-match ticket receives: a tenth of a currency unit.
pub const TIER_C_REWARD: u64 = 100_000_000;

/// The bracket of a ticket, by how many of its five main numbers match.
#[derive(Clone, Copy, Debug, PartialEq, Eq, Structural)]
pub enum Tier {
    /// All five main numbers match.
    A,
    /// Four of five match.
    B,
    /// Three of five match.
    C,
    /// Fewer than three match: no reward.
    Unplaced,
}

/// 1 if the two tickets agree at position `i`, else 0.
pub open spec fn match_at(numbers: Seq<u8>, winning: Seq<u8>, i: int) -> int {
    if numbers[i] == winning[i] {
        1
    } else {
        0
    }
}

/// How many of the first `n` positions agree.
pub open spec fn matches_in(numbers: Seq<u8>, winning: Seq<u8>, n: int) -> int
    decreases n,
{
    if n <= 0 {
        0
    } else {
        matches_in(numbers, winning, n - 1) + match_at(numbers, winning, n - 1)
    }
}

/// How many of the five main positions agree. The bonus number at the sixth
/// position is not looked at.
pub open spec fn match_count(numbers: Seq<u8>, winning: Seq<u8>) -> int {
    matches_in(numbers, winning, 5)
}

/// The tier of a ticket with `count` matching main numbers.
pub open spec fn tier_of_count(count: int) -> Tier {
    if count == 5 {
        Tier::A
    } else if count == 4 {
        Tier::B
    } else if count == 3 {
        Tier::C
    } else {
        Tier::Unplaced
    }
}

/// The tier of a ticket against the winning numbers.
pub open spec fn tier_of(numbers: Seq<u8>, winning: Seq<u8>) -> Tier {
    tier_of_count(match_count(numbers, winning))
}

/// The wallets of the tickets that fall in `tier`, in the order of the list.
pub open spec fn tier_wallets(tickets: Seq<TicketDataView>, winning: Seq<u8>, tier: Tier) -> Seq<
    Seq<u8>,
>
    decreases tickets.len(),
{
    if tickets.len() == 0 {
        Seq::empty()
    } else {
        let earlier = tier_wallets(tickets.drop_last(), winning, tier);
        if tier_of(tickets.last().ticket_number_arr, winning) == tier {
            earlier.push(tickets.last().user_wallet_pk)
        } else {
            earlier
        }
    }
}

/// The platform's fee on a pool.
pub open spec fn platform_fee(pool: u64) -> int {
    pool * PLATFORM_FEE_PERCENT / 100
}

/// The part of a pool that the four-match tier splits.
pub open spec fn tier_b_pool(pool: u64) -> int {
    pool * TIER_B_PERCENT / 100
}

/// What each of `members` four-match tickets receives.
pub open spec fn tier_b_reward(pool: u64, members: int) -> int {
    if members <= 0 {
        0
    } else {
        tier_b_pool(pool) / members
    }
}

/// What is left for the five-match tier: the winners' share of the pool less
/// the flat rewards of `tier_c_members` three-match tickets and less the
/// four-match part, whether or not anyone claims that part. Never below
/// zero.
pub open spec fn tier_a_pool(pool: u64, tier_c_members: int) -> int {
    let left = pool * WINNERS_PERCENT / 100 - tier_c_members * TIER_C_REWARD - tier_b_pool(pool);
    if left > 0 {
        left
    } else {
        0
    }
}

/// What each of `members` five-match tickets receives.
pub open spec fn tier_a_reward(pool: u64, tier_c_members: int, members: int) -> int {
    if members <= 0 {
        0
    } else {
        tier_a_pool(pool, tier_c_members) / members
    }
}

/// One transfer of `lamports` from `from` to each of `wallets`, in order.
pub open spec fn payments(from: Seq<u8>, wallets: Seq<Seq<u8>>, lamports: u64) -> Seq<EffectView> {
    Seq::new(
        wallets.len(),
        |i: int| EffectView::Transfer { from: from, to: wallets[i], lamports: lamports },
    )
}

/// Everything a closing round pays out, fee included.
pub open spec fn total_paid(pool: u64, c: int, b: int, a: int) -> int {
    platform_fee(pool) + c * TIER_C_REWARD + b * tier_b_reward(pool, b) + a * tier_a_reward(
        pool,
        c,
        a,
    )
}

/// How many tickets of the list fall in `tier`.
pub open spec fn tier_size(tickets: Seq<TicketDataView>, winning: Seq<u8>, tier: Tier) -> int {
    tier_wallets(tickets, winning, tier).len() as int
}

/// Everything that closing a round over `tickets` pays out of `pool`.
pub open spec fn round_total(tickets: Seq<TicketDataView>, winning: Seq<u8>, pool: u64) -> int {
    total_paid(
        pool,
        tier_size(tickets, winning, Tier::C),
        tier_size(tickets, winning, Tier::B),
        tier_size(tickets, winning, Tier::A),
    )
}

/// The transfers of a closing round, in the order in which they are issued:
/// the fee to the rewards wallet, then the three-match, the four-match and
/// the five-match tickets, each tier in the order of the list.
pub open spec fn round_transfers(
    holding: Seq<u8>,
    rewards: Seq<u8>,
    tickets: Seq<TicketDataView>,
    winning: Seq<u8>,
    pool: u64,
) -> Seq<EffectView> {
    let c = tier_wallets(tickets, winning, Tier::C);
    let b = tier_wallets(tickets, winning, Tier::B);
    let a = tier_wallets(tickets, winning, Tier::A);
    seq![
        EffectView::Transfer { from: holding, to: rewards, lamports: platform_fee(pool) as u64 },
    ] + payments(holding, c, TIER_C_REWARD) + payments(
        holding,
        b,
        tier_b_reward(pool, b.len() as int) as u64,
    ) + payments(holding, a, tier_a_reward(pool, c.len() as int, a.len() as int) as u64)
}

/// The views of a list of tickets, in order.
pub open spec fn ticket_views(tickets: Seq<TicketData>) -> Seq<TicketDataView> {
    Seq::new(tickets.len(), |i: int| tickets[i]@)
}

/// The views of a list of account identifiers, in order.
pub open spec fn key_views(keys: Seq<Pubkey>) -> Seq<Seq<u8>> {
    Seq::new(keys.len(), |i: int| keys[i]@)
}

/// Counts the main numbers of a ticket that match and names its tier.
pub fn classify(numbers: &[u8; 6], winning: &[u8; 6]) -> (tier: Tier)
    ensures
        tier == tier_of(numbers@, winning@),
{
    let mut matched: u8 = 0;
    let mut i: usize = 0;
    while i < 5
        invariant
            i <= 5,
            matched <= i,
            matched == matches_in(numbers@, winning@, i as int),
        decreases 5 - i,
    {
        if numbers[i] == winning[i] {
            matched += 1;
        }
        i += 1;
    }
    if matched == 5 {
        Tier::A
    } else if matched == 4 {
        Tier::B
    } else if matched == 3 {
        Tier::C
    } else {
        Tier::Unplaced
    }
}

/// The wallets of the three tiers, each in the order of the list.
pub struct Winners {
    pub tier_a: Vec<Pubkey>,
    pub tier_b: Vec<Pubkey>,
    pub tier_c: Vec<Pubkey>,
}

proof fn lemma_tier_wallets_step(
    tickets: Seq<TicketDataView>,
    winning: Seq<u8>,
    tier: Tier,
    i: int,
)
    requires
        0 <= i < tickets.len(),
    ensures
        tier_wallets(tickets.take(i + 1), winning, tier) == if tier_of(
            tickets[i].ticket_number_arr,
            winning,
        ) == tier {
            tier_wallets(tickets.take(i), winning, tier).push(tickets[i].user_wallet_pk)
        } else {
            tier_wallets(tickets.take(i), winning, tier)
        },
{
    assert(tickets.take(i + 1).drop_last() =~= tickets.take(i));
}

/// Sorts the tickets of a round into the three winning tiers.
pub fn find_winners(tickets: &Vec<TicketData>, winning: &[u8; 6]) -> (w: Winners)
    ensures
        key_views(w.tier_a@) == tier_wallets(ticket_views(tickets@), winning@, Tier::A),
        key_views(w.tier_b@) == tier_wallets(ticket_views(tickets@), winning@, Tier::B),
        key_views(w.tier_c@) == tier_wallets(ticket_views(tickets@), winning@, Tier::C),
{
    let mut tier_a: Vec<Pubkey> = Vec::new();
    let mut tier_b: Vec<Pubkey> = Vec::new();
    let mut tier_c: Vec<Pubkey> = Vec::new();
    let ghost all = ticket_views(tickets@);
    let mut i: usize = 0;
    assert(key_views(tier_a@) =~= tier_wallets(all.take(0), winning@, Tier::A));
    assert(key_views(tier_b@) =~= tier_wallets(all.take(0), winning@, Tier::B));
    assert(key_views(tier_c@) =~= tier_wallets(all.take(0), winning@, Tier::C));
    while i < tickets.len()
        invariant
            i <= tickets.len(),
            all == ticket_views(tickets@),
            key_views(tier_a@) == tier_wallets(all.take(i as int), winning@, Tier::A),
            key_views(tier_b@) == tier_wallets(all.take(i as int), winning@, Tier::B),
            key_views(tier_c@) == tier_wallets(all.take(i as int), winning@, Tier::C),
        decreases tickets.len() - i,
    {
        let ticket = &tickets[i];
        proof {
            lemma_tier_wallets_step(all, winning@, Tier::A, i as int);
            lemma_tier_wallets_step(all, winning@, Tier::B, i as int);
            lemma_tier_wallets_step(all, winning@, Tier::C, i as int);
        }
        let ghost before_a = tier_a@;
        let ghost before_b = tier_b@;
        let ghost before_c = tier_c@;
        match classify(&ticket.ticket_number_arr, winning) {
            Tier::A => {
                tier_a.push(ticket.user_wallet_pk);
                assert(key_views(tier_a@) =~= key_views(before_a).push(ticket.user_wallet_pk@));
            },
            Tier::B => {
                tier_b.push(ticket.user_wallet_pk);
                assert(key_views(tier_b@) =~= key_views(before_b).push(ticket.user_wallet_pk@));
            },
            Tier::C => {
                tier_c.push(ticket.user_wallet_pk);
                assert(key_views(tier_c@) =~= key_views(before_c).push(ticket.user_wallet_pk@));
            },
            Tier::Unplaced => {},
        }
        i += 1;
    }
    assert(all.take(tickets.len() as int) =~= all);
    Winners { tier_a, tier_b, tier_c }
}

/// The platform's fee on `pool`.
pub fn fee_for(pool: u64) -> (fee: u64)
    ensures
        fee == platform_fee(pool),
        fee <= pool,
{
    let scaled: u128 = pool as u128 * 5;
    (scaled / 100) as u64
}

/// What each of `members` four-match tickets receives from `pool`.
pub fn tier_b_share(pool: u64, members: usize) -> (reward: u64)
    ensures
        reward == tier_b_reward(pool, members as int),
        members * reward <= pool,
{
    if members == 0 {
        return 0;
    }
    let scaled: u128 = pool as u128 * 5;
    let part: u64 = (scaled / 100) as u64;
    let reward: u64 = part / (members as u64);
    assert(members * reward <= part) by (nonlinear_arith)
        requires
            members > 0,
            reward == part / (members as u64),
    ;
    reward
}

/// What each of `members` five-match tickets receives from `pool` when
/// `tier_c_members` tickets take the flat reward.
pub fn tier_a_share(pool: u64, tier_c_members: usize, members: usize) -> (reward: u64)
    ensures
        reward == tier_a_reward(pool, tier_c_members as int, members as int),
        members * reward <= pool,
{
    if members == 0 {
        return 0;
    }
    let winners_part: u128 = pool as u128 * 95 / 100;
    let flat: u128 = tier_c_members as u128 * 100_000_000;
    let tier_b_part: u128 = pool as u128 * 5 / 100;
    let taken: u128 = flat + tier_b_part;
    let left: u64 = if winners_part > taken {
        (winners_part - taken) as u64
    } else {
        0
    };
    let reward: u64 = left / (members as u64);
    assert(members * reward <= left) by (nonlinear_arith)
        requires
            members > 0,
            reward == left / (members as u64),
    ;
    reward
}

/// Appends one transfer of `lamports` from `from` to each of `wallets`.
pub fn push_payments(effects: &mut Vec<Effect>, from: &Pubkey, wallets: &Vec<Pubkey>, lamports: u64)
    ensures
        effect_views(final(effects)@) == effect_views(old(effects)@) + payments(
            from@,
            key_views(wallets@),
            lamports,
        ),
{
    let ghost start = effect_views(effects@);
    let ghost all = payments(from@, key_views(wallets@), lamports);
    let mut i: usize = 0;
    assert(effect_views(effects@) =~= start + all.take(0));
    while i < wallets.len()
        invariant
            i <= wallets.len(),
            all == payments(from@, key_views(wallets@), lamports),
            effect_views(effects@) == start + all.take(i as int),
        decreases wallets.len() - i,
    {
        let ghost before = effects@;
        effects.push(Effect::Transfer { from: *from, to: wallets[i], lamports });
        assert(effect_views(effects@) =~= effect_views(before).push(all[i as int]));
        assert(start + all.take(i + 1) =~= (start + all.take(i as int)).push(all[i as int]));
        i += 1;
    }
    assert(all.take(wallets.len() as int) =~= all);
}

/// Works out what closing a round pays: the transfers in the order in which
/// they are issued, and what is left of the pool after them. When the
/// transfers together exceed the pool, nothing is paid and the funds are
/// reported as insufficient.
pub fn distribute(
    holding: &Pubkey,
    rewards: &Pubkey,
    tickets: &Vec<TicketData>,
    winning: &[u8; 6],
    pool: u64,
) -> (r: Result<(Vec<Effect>, u64), LotteryError>)
    ensures
        round_total(ticket_views(tickets@), winning@, pool) > pool ==> r == Err::<
            (Vec<Effect>, u64),
            LotteryError,
        >(LotteryError::InsufficientFunds),
        round_total(ticket_views(tickets@), winning@, pool) <= pool ==> (r matches Ok(paid)
            && effect_views(paid.0@) == round_transfers(
            holding@,
            rewards@,
            ticket_views(tickets@),
            winning@,
            pool,
        ) && paid.1 == pool - round_total(ticket_views(tickets@), winning@, pool)),
{
    let winners = find_winners(tickets, winning);
    let c: usize = winners.tier_c.len();
    let b: usize = winners.tier_b.len();
    let a: usize = winners.tier_a.len();
    let fee: u64 = fee_for(pool);
    let reward_b: u64 = tier_b_share(pool, b);
    let reward_a: u64 = tier_a_share(pool, c, a);
    proof {
        let tv = ticket_views(tickets@);
        assert(c == tier_size(tv, winning@, Tier::C));
        assert(b == tier_size(tv, winning@, Tier::B));
        assert(a == tier_size(tv, winning@, Tier::A));
    }
    let flat: u128 = c as u128 * 100_000_000;
    let paid_b: u128 = (b as u128 * reward_b as u128) as u128;
    let paid_a: u128 = (a as u128 * reward_a as u128) as u128;
    let total: u128 = fee as u128 + flat + paid_b + paid_a;
    if total > pool as u128 {
        return Err(LotteryError::InsufficientFunds);
    }
    let mut effects: Vec<Effect> = Vec::new();
    effects.push(Effect::Transfer { from: *holding, to: *rewards, lamports: fee });
    assert(effect_views(effects@) =~= seq![
        EffectView::Transfer { from: holding@, to: rewards@, lamports: fee },
    ]);
    push_payments(&mut effects, holding, &winners.tier_c, TIER_C_REWARD);
    push_payments(&mut effects, holding, &winners.tier_b, reward_b);
    push_payments(&mut effects, holding, &winners.tier_a, reward_a);
    Ok((effects, pool - total as u64))
}

/// A ticket falls in the five-match tier exactly when its five main numbers
/// are the winning ones, position by position. The bonus number plays no
/// part.
pub proof fn lemma_tier_a_is_exact_match(numbers: Seq<u8>, winning: Seq<u8>)
    ensures
        tier_of(numbers, winning) == Tier::A <==> (forall|i: int|
            0 <= i < 5 ==> numbers[i] == winning[i]),
{
    reveal_with_fuel(matches_in, 6);
    if tier_of(numbers, winning) == Tier::A {
        assert(match_at(numbers, winning, 0) == 1);
        assert(match_at(numbers, winning, 1) == 1);
        assert(match_at(numbers, winning, 2) == 1);
        assert(match_at(numbers, winning, 3) == 1);
        assert(match_at(numbers, winning, 4) == 1);
    }
    if forall|i: int| 0 <= i < 5 ==> numbers[i] == winning[i] {
        assert(numbers[0] == winning[0]);
        assert(numbers[1] == winning[1]);
        assert(numbers[2] == winning[2]);
        assert(numbers[3] == winning[3]);
        assert(numbers[4] == winning[4]);
    }
}

/// The tier of a ticket goes by its count of matching main numbers alone:
/// four make the four-match tier, three the three-match tier, fewer none.
/// A ticket has one tier, so one that is in a tier is in no other.
pub proof fn lemma_tier_follows_count(numbers: Seq<u8>, winning: Seq<u8>)
    ensures
        0 <= match_count(numbers, winning) <= 5,
        tier_of(numbers, winning) == Tier::A <==> match_count(numbers, winning) == 5,
        tier_of(numbers, winning) == Tier::B <==> match_count(numbers, winning) == 4,
        tier_of(numbers, winning) == Tier::C <==> match_count(numbers, winning) == 3,
        tier_of(numbers, winning) == Tier::Unplaced <==> match_count(numbers, winning) < 3,
{
    reveal_with_fuel(matches_in, 6);
}

/// Every ticket of a list is counted in exactly one tier.
pub proof fn lemma_tiers_partition(tickets: Seq<TicketDataView>, winning: Seq<u8>)
    ensures
        tier_size(tickets, winning, Tier::A) + tier_size(tickets, winning, Tier::B) + tier_size(
            tickets,
            winning,
            Tier::C,
        ) + tier_size(tickets, winning, Tier::Unplaced) == tickets.len(),
    decreases tickets.len(),
{
    if tickets.len() > 0 {
        lemma_tiers_partition(tickets.drop_last(), winning);
    }
}

/// As long as the flat rewards and the four-match part fit in the winners'
/// share, a closing round pays out no more than its pool.
pub proof fn lemma_total_paid_within_pool(pool: u64, c: int, b: int, a: int)
    requires
        c >= 0,
        b >= 0,
        a >= 0,
        c * TIER_C_REWARD + tier_b_pool(pool) <= pool * WINNERS_PERCENT / 100,
    ensures
        total_paid(pool, c, b, a) <= pool,
{
    let part_b = tier_b_pool(pool);
    let part_a = tier_a_pool(pool, c);
    assert(b * tier_b_reward(pool, b) <= part_b) by (nonlinear_arith)
        requires
            b >= 0,
            part_b >= 0,
            tier_b_reward(pool, b) == if b <= 0 {
                0
            } else {
                part_b / b
            },
    ;
    assert(a * tier_a_reward(pool, c, a) <= part_a) by (nonlinear_arith)
        requires
            a >= 0,
            part_a >= 0,
            tier_a_reward(pool, c, a) == if a <= 0 {
                0
            } else {
                part_a / a
            },
    ;
}

/// One payment to each of a list of wallets moves the amount once for each
/// wallet.
pub proof fn lemma_payments_move(from: Seq<u8>, wallets: Seq<Seq<u8>>, lamports: u64)
    ensures
        lamports_moved(payments(from, wallets, lamports)) == wallets.len() * lamports,
    decreases wallets.len(),
{
    let all = payments(from, wallets, lamports);
    if wallets.len() == 0 {
        assert(all.len() == 0);
        assert(wallets.len() * lamports == 0) by (nonlinear_arith)
            requires
                wallets.len() == 0,
        ;
    } else {
        lemma_payments_move(from, wallets.drop_last(), lamports);
        assert(all.drop_last() =~= payments(from, wallets.drop_last(), lamports));
        assert(all.last() == EffectView::Transfer {
            from: from,
            to: wallets.last(),
            lamports: lamports,
        });
        let n = wallets.len() as int;
        assert(wallets.drop_last().len() == n - 1);
        assert(n * lamports == (n - 1) * lamports + lamports) by (nonlinear_arith);
    }
}

/// The transfers of a closing round move exactly what the round pays out,
/// provided the pool covers it: what leaves the holding wallet and what
/// stays in the pool add up to the pool.
pub proof fn lemma_round_transfers_move_the_total(
    holding: Seq<u8>,
    rewards: Seq<u8>,
    tickets: Seq<TicketDataView>,
    winning: Seq<u8>,
    pool: u64,
)
    requires
        round_total(tickets, winning, pool) <= pool,
    ensures
        lamports_moved(round_transfers(holding, rewards, tickets, winning, pool)) == round_total(
            tickets,
            winning,
            pool,
        ),
{
    let c = tier_wallets(tickets, winning, Tier::C);
    let b = tier_wallets(tickets, winning, Tier::B);
    let a = tier_wallets(tickets, winning, Tier::A);
    let fee = platform_fee(pool);
    let reward_b = tier_b_reward(pool, b.len() as int);
    let reward_a = tier_a_reward(pool, c.len() as int, a.len() as int);
    let part_b = tier_b_pool(pool);
    let part_a = tier_a_pool(pool, c.len() as int);
    assert(0 <= fee <= pool);
    assert(0 <= part_b <= pool);
    assert(0 <= part_a <= pool);
    assert(0 <= reward_b <= part_b) by (nonlinear_arith)
        requires
            part_b >= 0,
            b.len() >= 0,
            reward_b == if b.len() <= 0 {
                0
            } else {
                part_b / (b.len() as int)
            },
    ;
    assert(0 <= reward_a <= part_a) by (nonlinear_arith)
        requires
            part_a >= 0,
            a.len() >= 0,
            reward_a == if a.len() <= 0 {
                0
            } else {
                part_a / (a.len() as int)
            },
    ;
    let head = seq![
        EffectView::Transfer { from: holding, to: rewards, lamports: fee as u64 },
    ];
    let to_c = payments(holding, c, TIER_C_REWARD);
    let to_b = payments(holding, b, reward_b as u64);
    let to_a = payments(holding, a, reward_a as u64);
    assert(lamports_moved(head) == fee) by {
        assert(head.drop_last() =~= Seq::<EffectView>::empty());
        reveal_with_fuel(lamports_moved, 2);
    }
    lemma_payments_move(holding, c, TIER_C_REWARD);
    lemma_payments_move(holding, b, reward_b as u64);
    lemma_payments_move(holding, a, reward_a as u64);
    lemma_lamports_moved_adds(head, to_c);
    lemma_lamports_moved_adds(head + to_c, to_b);
    lemma_lamports_moved_adds(head + to_c + to_b, to_a);
}

} // verus!
