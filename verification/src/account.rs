//! What an operation is handed and what it hands back.
//!
//! An operation reads an ordered list of records and decides, without
//! touching them, what has to happen: which outside effects must be carried
//! out and which records get new contents. The caller carries out the
//! effects first and stores the new contents only when all of them went
//! through, so that an operation either happens as a whole or not at all.
use vstd::prelude::*;
use crate::codec::push_bytes;
use crate::effect::{effect_views, Effect, EffectView};
use crate::error::LotteryError;
use crate::pubkey::Pubkey;

verus! {

/// One record of the list that an operation is handed.
#[derive(Clone, Debug, PartialEq, Eq)]
pub struct Account {
    /// The record's own identifier.
    pub key: Pubkey,
    /// The program that owns the record.
    pub owner: Pubkey,
    /// Whether the record signed the operation.
    pub is_signer: bool,
    /// The record's balance, in the smallest currency unit.
    pub lamports: u64,
    /// The least balance that the host asks of a record with this much data.
    pub rent_exempt_minimum: u64,
    /// The record's bytes.
    pub data: Vec<u8>,
}

/// What an [`Account`] holds, as mathematical values.
pub struct AccountView {
    pub key: Seq<u8>,
    pub owner: Seq<u8>,
    pub is_signer: bool,
    pub lamports: u64,
    pub rent_exempt_minimum: u64,
    pub data: Seq<u8>,
}

impl View for Account {
    type V = AccountView;

    open spec fn view(&self) -> AccountView {
        AccountView {
            key: self.key@,
            owner: self.owner@,
            is_signer: self.is_signer,
            lamports: self.lamports,
            rent_exempt_minimum: self.rent_exempt_minimum,
            data: self.data@,
        }
    }
}

impl AccountView {
    /// The balance covers the minimum for the record's size.
    pub open spec fn rent_exempt(self) -> bool {
        self.lamports >= self.rent_exempt_minimum
    }
}

impl Account {
    /// Whether the balance covers the minimum for the record's size.
    pub fn is_rent_exempt(&self) -> (r: bool)
        ensures
            r == self@.rent_exempt(),
    {
        self.lamports >= self.rent_exempt_minimum
    }

    /// Accepts the record exactly when `program_id` owns it.
    pub fn check_owner(&self, program_id: &Pubkey) -> (r: Result<(), LotteryError>)
        ensures
            self@.owner == program_id@ ==> r == Ok::<(), LotteryError>(()),
            self@.owner != program_id@ ==> r == Err::<(), LotteryError>(
                LotteryError::IncorrectOwner,
            ),
    {
        if self.owner != *program_id {
            return Err(LotteryError::IncorrectOwner);
        }
        Ok(())
    }

    /// Accepts the record exactly when it signed the operation.
    pub fn check_signer(&self) -> (r: Result<(), LotteryError>)
        ensures
            self@.is_signer ==> r == Ok::<(), LotteryError>(()),
            !self@.is_signer ==> r == Err::<(), LotteryError>(LotteryError::MissingSignature),
    {
        if !self.is_signer {
            return Err(LotteryError::MissingSignature);
        }
        Ok(())
    }

    /// Accepts the record exactly when its balance covers the minimum for
    /// its size.
    pub fn check_rent_exempt(&self) -> (r: Result<(), LotteryError>)
        ensures
            self@.rent_exempt() ==> r == Ok::<(), LotteryError>(()),
            !self@.rent_exempt() ==> r == Err::<(), LotteryError>(LotteryError::NotRentExempt),
    {
        if !self.is_rent_exempt() {
            return Err(LotteryError::NotRentExempt);
        }
        Ok(())
    }
}

/// The views of a list of records, in order.
pub open spec fn account_views(accounts: Seq<Account>) -> Seq<AccountView> {
    Seq::new(accounts.len(), |i: int| accounts[i]@)
}

/// New contents for the record at position `index` of the list.
#[derive(Clone, Debug, PartialEq, Eq)]
pub struct RecordWrite {
    pub index: usize,
    pub data: Vec<u8>,
}

/// What a [`RecordWrite`] holds, as mathematical values.
pub struct RecordWriteView {
    pub index: usize,
    pub data: Seq<u8>,
}

impl View for RecordWrite {
    type V = RecordWriteView;

    open spec fn view(&self) -> RecordWriteView {
        RecordWriteView { index: self.index, data: self.data@ }
    }
}

/// The views of a list of writes, in order.
pub open spec fn write_views(writes: Seq<RecordWrite>) -> Seq<RecordWriteView> {
    Seq::new(writes.len(), |i: int| writes[i]@)
}

/// What a successful operation asks for: the effects, in the order in which
/// they must be carried out, and the writes that follow them.
#[derive(Clone, Debug, PartialEq, Eq)]
pub struct Outcome {
    pub effects: Vec<Effect>,
    pub writes: Vec<RecordWrite>,
}

/// What an [`Outcome`] holds, as mathematical values.
pub struct OutcomeView {
    pub effects: Seq<EffectView>,
    pub writes: Seq<RecordWriteView>,
}

impl View for Outcome {
    type V = OutcomeView;

    open spec fn view(&self) -> OutcomeView {
        OutcomeView { effects: effect_views(self.effects@), writes: write_views(self.writes@) }
    }
}

/// The list once `writes` are stored, one after the other: each gives the
/// record at its position new bytes and leaves everything else as it was. A
/// write to a position that the list does not have changes nothing.
pub open spec fn stored(accounts: Seq<AccountView>, writes: Seq<RecordWriteView>) -> Seq<
    AccountView,
>
    decreases writes.len(),
{
    if writes.len() == 0 {
        accounts
    } else {
        let earlier = stored(accounts, writes.drop_last());
        let write = writes.last();
        if write.index < earlier.len() {
            earlier.update(
                write.index as int,
                AccountView { data: write.data, ..earlier[write.index as int] },
            )
        } else {
            earlier
        }
    }
}

impl Outcome {
    /// Stores the writes of the outcome in `accounts`. This is the last step
    /// of an operation: it comes after the effects have been carried out.
    pub fn store(&self, accounts: &mut Vec<Account>)
        ensures
            account_views(final(accounts)@) == stored(account_views(old(accounts)@), self@.writes),
    {
        let ghost all = self@.writes;
        let mut i: usize = 0;
        assert(all.take(0) =~= Seq::empty());
        while i < self.writes.len()
            invariant
                i <= self.writes.len(),
                all == self@.writes,
                account_views(accounts@) == stored(account_views(old(accounts)@), all.take(i as int)),
            decreases self.writes.len() - i,
        {
            let write = &self.writes[i];
            let ghost before = account_views(accounts@);
            proof {
                assert(all.take(i + 1).drop_last() =~= all.take(i as int));
                assert(all.take(i + 1).last() == write@);
            }
            if write.index < accounts.len() {
                let mut data: Vec<u8> = Vec::new();
                push_bytes(&mut data, write.data.as_slice());
                accounts[write.index].data = data;
                assert(account_views(accounts@) =~= before.update(
                    write.index as int,
                    AccountView { data: write@.data, ..before[write.index as int] },
                ));
            }
            i += 1;
        }
        assert(all.take(self.writes.len() as int) =~= all);
    }
}

/// Storing writes keeps the length of the list.
pub proof fn lemma_stored_keeps_length(accounts: Seq<AccountView>, writes: Seq<RecordWriteView>)
    ensures
        stored(accounts, writes).len() == accounts.len(),
    decreases writes.len(),
{
    if writes.len() > 0 {
        lemma_stored_keeps_length(accounts, writes.drop_last());
    }
}

/// Storing writes changes no record but those that a write names, and of
/// those only the bytes.
pub proof fn lemma_stored_keeps_the_rest(
    accounts: Seq<AccountView>,
    writes: Seq<RecordWriteView>,
    i: int,
)
    requires
        0 <= i < accounts.len(),
    ensures
        stored(accounts, writes)[i] == (AccountView {
            data: stored(accounts, writes)[i].data,
            ..accounts[i]
        }),
        (forall|j: int| 0 <= j < writes.len() ==> writes[j].index != i) ==> stored(
            accounts,
            writes,
        )[i] == accounts[i],
    decreases writes.len(),
{
    if writes.len() > 0 {
        lemma_stored_keeps_the_rest(accounts, writes.drop_last(), i);
        lemma_stored_keeps_length(accounts, writes.drop_last());
        if forall|j: int| 0 <= j < writes.len() ==> writes[j].index != i {
            assert forall|j: int| 0 <= j < writes.drop_last().len() implies writes.drop_last()[j].index
                != i by {
                assert(writes.drop_last()[j] == writes[j]);
            }
        }
    }
}

} // verus!
