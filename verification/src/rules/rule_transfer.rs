//! When a transfer is acceptable, and what it does to a state.
use vstd::prelude::*;
use crate::account::Account;
use crate::address::{lemma_address_view_injective, same_address};
use crate::chain_config::ChainConfig;
use crate::chain_id::ChainId;
use crate::chain_version::ChainVersion;
use crate::crypto::VerificationError;
use crate::entries::{
    lemma_lookup_merge, lemma_merge_assoc, lemma_merge_sorted, lemma_total_balance_set, lookup, merge,
    sorted, total_balance, Entry,
};
use crate::state::{StateDelta, StateView};
use crate::transactions::tx_transfer::{transfer_signature_outcome, TxTransfer};

verus! {

#[allow(inconsistent_fields)]
#[derive(Debug, Clone, Copy, PartialEq, Eq)]
pub enum TransferVerificationError {
    InvalidChainId { expected: ChainId, actual: ChainId },
    InvalidChainVersion { expected: ChainVersion, actual: ChainVersion },
    UnableToTransferToSelf,
    ZeroAmount,
    InvalidSignature(VerificationError),
}

/// The checks a transfer must pass whatever the state, in the order they are made.
pub open spec fn transfer_verification(tx: TxTransfer, config: ChainConfig) -> Result<
    (),
    TransferVerificationError,
> {
    if tx.payload.chain_id != config.chain_id {
        Err(
            TransferVerificationError::InvalidChainId {
                expected: config.chain_id,
                actual: tx.payload.chain_id,
            },
        )
    } else if tx.payload.chain_version != config.chain_version {
        Err(
            TransferVerificationError::InvalidChainVersion {
                expected: config.chain_version,
                actual: tx.payload.chain_version,
            },
        )
    } else if tx.payload.from == tx.payload.to {
        Err(TransferVerificationError::UnableToTransferToSelf)
    } else if tx.payload.amount == 0 {
        Err(TransferVerificationError::ZeroAmount)
    } else {
        match transfer_signature_outcome(tx) {
            Err(e) => Err(TransferVerificationError::InvalidSignature(e)),
            Ok(()) => Ok(()),
        }
    }
}

/// Checks a transfer against the chain's configuration and its signature.
pub fn verify_transfer_stateless(tx: &TxTransfer, config: &ChainConfig) -> (r: Result<
    (),
    TransferVerificationError,
>)
    ensures
        r == transfer_verification(*tx, *config),
{
    if tx.payload.chain_id != config.chain_id {
        return Err(
            TransferVerificationError::InvalidChainId {
                expected: config.chain_id,
                actual: tx.payload.chain_id,
            },
        );
    }
    if tx.payload.chain_version != config.chain_version {
        return Err(
            TransferVerificationError::InvalidChainVersion {
                expected: config.chain_version,
                actual: tx.payload.chain_version,
            },
        );
    }
    if same_address(&tx.payload.from, &tx.payload.to) {
        return Err(TransferVerificationError::UnableToTransferToSelf);
    }
    if tx.payload.amount == 0 {
        return Err(TransferVerificationError::ZeroAmount);
    }
    if let Err(err) = tx.verify_signature() {
        return Err(TransferVerificationError::InvalidSignature(err));
    }
    Ok(())
}

#[allow(inconsistent_fields)]
#[derive(Debug, Clone, Copy, PartialEq, Eq)]
pub enum TransferExecutionError {
    VerificationError(TransferVerificationError),
    InvalidNonce { expected: u128, actual: u128 },
    NonceOverflow,
    InsufficientBalance { balance: u128, amount: u128 },
    BalanceOverflow,
}

/// The sender's account after a transfer out of it.
pub open spec fn debited(from: Account, amount: u128) -> Account {
    Account { balance: (from.balance - amount) as u128, nonce: (from.nonce + 1) as u128 }
}

/// The receiver's account after a transfer into it.
pub open spec fn credited(to: Account, amount: u128) -> Account {
    Account { balance: (to.balance + amount) as u128, nonce: to.nonce }
}

/// What a transfer that passed its checks does to the state whose rows are `entries`:
/// the change it makes (the sender's and the receiver's new accounts), or why it is
/// refused.
pub open spec fn transfer_application(tx: TxTransfer, entries: Seq<Entry>) -> Result<
    Seq<Entry>,
    TransferExecutionError,
> {
    let from = lookup(entries, tx.payload.from@);
    let to = lookup(entries, tx.payload.to@);
    let amount = tx.payload.amount;
    if from.nonce != tx.payload.nonce {
        Err(TransferExecutionError::InvalidNonce { expected: from.nonce, actual: tx.payload.nonce })
    } else if from.nonce == u128::MAX {
        Err(TransferExecutionError::NonceOverflow)
    } else if from.balance < amount {
        Err(TransferExecutionError::InsufficientBalance { balance: from.balance, amount })
    } else if to.balance + amount > u128::MAX {
        Err(TransferExecutionError::BalanceOverflow)
    } else {
        Ok(
            merge(
                merge(Seq::empty(), seq![(tx.payload.from, debited(from, amount))]),
                seq![(tx.payload.to, credited(to, amount))],
            ),
        )
    }
}

/// What a transfer does to the state whose rows are `entries`: the change it makes,
/// or why it is refused.
pub open spec fn transfer_execution(tx: TxTransfer, config: ChainConfig, entries: Seq<Entry>) -> Result<
    Seq<Entry>,
    TransferExecutionError,
> {
    match transfer_verification(tx, config) {
        Err(e) => Err(TransferExecutionError::VerificationError(e)),
        Ok(()) => transfer_application(tx, entries),
    }
}

/// Applies a transfer to `state`: checks it, then moves `amount` from the sender to
/// the receiver and counts the sender's nonce up by one. `state` is not changed; the
/// new accounts come back as a change.
pub fn execute_transfer<S: StateView>(tx: &TxTransfer, config: &ChainConfig, state: &S) -> (r: Result<
    StateDelta,
    TransferExecutionError,
>)
    requires
        state.wf(),
    ensures
        match transfer_execution(*tx, *config, state.entries()) {
            Ok(d) => r matches Ok(delta) && delta@ == d && delta.wf(),
            Err(e) => r matches Err(err) && err == e,
        },
{
    if let Err(err) = verify_transfer_stateless(tx, config) {
        return Err(TransferExecutionError::VerificationError(err));
    }
    apply_transfer(tx, state)
}

/// Moves the amount of a transfer that passed its checks from the sender to the
/// receiver, and counts the sender's nonce up by one.
pub(crate) fn apply_transfer<S: StateView>(tx: &TxTransfer, state: &S) -> (r: Result<
    StateDelta,
    TransferExecutionError,
>)
    requires
        state.wf(),
    ensures
        match transfer_application(*tx, state.entries()) {
            Ok(d) => r matches Ok(delta) && delta@ == d && delta.wf(),
            Err(e) => r matches Err(err) && err == e,
        },
{
    let mut from_account = state.get_account(&tx.payload.from);
    let mut to_account = state.get_account(&tx.payload.to);
    if from_account.nonce != tx.payload.nonce {
        return Err(
            TransferExecutionError::InvalidNonce {
                expected: from_account.nonce,
                actual: tx.payload.nonce,
            },
        );
    }
    let new_nonce = match from_account.nonce.checked_add(1) {
        Some(n) => n,
        None => return Err(TransferExecutionError::NonceOverflow),
    };
    let new_from_balance = match from_account.balance.checked_sub(tx.payload.amount) {
        Some(b) => b,
        None => return Err(
            TransferExecutionError::InsufficientBalance {
                balance: from_account.balance,
                amount: tx.payload.amount,
            },
        ),
    };
    let new_to_balance = match to_account.balance.checked_add(tx.payload.amount) {
        Some(b) => b,
        None => return Err(TransferExecutionError::BalanceOverflow),
    };
    from_account.nonce = new_nonce;
    from_account.balance = new_from_balance;
    to_account.balance = new_to_balance;
    let mut state_delta = StateDelta::new();
    state_delta.update_account(tx.payload.from, from_account);
    state_delta.update_account(tx.payload.to, to_account);
    Ok(state_delta)
}

/// The change an accepted transfer makes is a table in address order.
pub proof fn lemma_transfer_change_sorted(tx: TxTransfer, config: ChainConfig, entries: Seq<Entry>)
    ensures
        transfer_execution(tx, config, entries) matches Ok(d) ==> sorted(d),
{
    if let Ok(d) = transfer_execution(tx, config, entries) {
        let from = lookup(entries, tx.payload.from@);
        let to = lookup(entries, tx.payload.to@);
        let ef = (tx.payload.from, debited(from, tx.payload.amount));
        let et = (tx.payload.to, credited(to, tx.payload.amount));
        assert(merge(Seq::empty(), seq![ef]) == seq![ef]);
        lemma_merge_sorted(seq![ef], seq![et]);
    }
}

/// An accepted transfer moves balance from one account to another: the total balance
/// of all accounts stays the same.
pub proof fn lemma_transfer_keeps_total_balance(
    tx: TxTransfer,
    config: ChainConfig,
    entries: Seq<Entry>,
)
    requires
        sorted(entries),
    ensures
        transfer_execution(tx, config, entries) matches Ok(d) ==> total_balance(merge(entries, d))
            == total_balance(entries),
{
    if let Ok(d) = transfer_execution(tx, config, entries) {
        let a = tx.payload.from;
        let b = tx.payload.to;
        let from = lookup(entries, a@);
        let to = lookup(entries, b@);
        let ef = (a, debited(from, tx.payload.amount));
        let et = (b, credited(to, tx.payload.amount));
        assert(transfer_verification(tx, config) is Ok);
        assert(a != b);
        if a@ == b@ {
            lemma_address_view_injective(a, b);
        }
        assert(a@ != b@);
        assert(merge(Seq::empty(), seq![ef]) == seq![ef]);
        lemma_merge_assoc(entries, seq![ef], seq![et]);
        lemma_total_balance_set(entries, ef);
        lemma_merge_sorted(entries, seq![ef]);
        lemma_total_balance_set(merge(entries, seq![ef]), et);
        lemma_lookup_merge(entries, seq![ef], b@);
        assert(seq![ef].drop_first() =~= Seq::<Entry>::empty());
        assert(!crate::entries::has_key(Seq::<Entry>::empty(), b@));
        assert(!crate::entries::has_key(seq![ef], b@));
        assert(lookup(merge(entries, seq![ef]), b@) == to);
        assert(d == merge(seq![ef], seq![et]));
        assert(merge(entries, d) == merge(merge(entries, seq![ef]), seq![et]));
    }
}

} // verus!
