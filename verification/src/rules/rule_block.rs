//! When a block is acceptable, and what executing it does to a state.
use vstd::prelude::*;
use crate::block::{Block, BlockModel};
use crate::bytes::{array_of, lemma_array_of};
use crate::chain_config::ChainConfig;
use crate::chain_id::ChainId;
use crate::chain_version::ChainVersion;
use crate::entries::{
    lemma_lookup_merge, lemma_lookup_nonempty, lemma_merge_assoc, lemma_merge_sorted,
    lemma_nonempty_merge, lemma_nonempty_props, lookup, merge, nonempty, sorted, total_balance,
    Entry,
};
use crate::hash::{compute_state_hash, lemma_state_hash_ignores_empty, same_hash, state_hash, zero_hash};
use crate::rules::rule_transfer::{
    lemma_transfer_change_sorted, lemma_transfer_keeps_total_balance,
};
use crate::state::{StateDelta, StateView, WorkingState};
use crate::transaction::{
    transaction_application, transaction_execution, transaction_verification, Transaction, TransactionExecutionError,
    TransactionVerificationError,
};

verus! {

#[allow(inconsistent_fields)]
#[derive(Debug, Clone, Copy, PartialEq, Eq)]
pub enum BlockVerificationError {
    InvalidChainId { expected: ChainId, actual: ChainId },
    InvalidChainVersion { expected: ChainVersion, actual: ChainVersion },
    InvalidGenesisPreviousBlockHash,
    NonEmptyTransactionsInGenesisBlock,
    TooManyTransactions { count: usize, max: usize },
    TxVerifyError { index: usize, error: TransactionVerificationError },
}

/// Another name for [`BlockVerificationError`].
pub type BlockVerifyError = BlockVerificationError;

/// What executing a block gives: the change it makes and the hash of the state after it.
#[derive(Debug, Clone, PartialEq, Eq)]
pub struct ExecutionOutcome {
    pub state_delta: StateDelta,
    pub state_hash: crate::hash::Hash,
}

/// How many transactions a block may carry under `config`: the configured maximum,
/// and never more than a two-byte count can hold.
pub open spec fn max_transactions(config: ChainConfig) -> usize {
    if config.max_transactions_per_block < 0xffff {
        config.max_transactions_per_block
    } else {
        0xffff
    }
}

/// The first of `txs[i..]` that fails its checks, if any.
pub open spec fn transactions_verification(
    txs: Seq<Transaction>,
    config: ChainConfig,
    i: int,
) -> Result<(), BlockVerificationError>
    decreases txs.len() - i,
{
    if i < 0 || i >= txs.len() {
        Ok(())
    } else {
        match transaction_verification(txs[i], config) {
            Err(e) => Err(BlockVerificationError::TxVerifyError { index: i as usize, error: e }),
            Ok(()) => transactions_verification(txs, config, i + 1),
        }
    }
}

/// The checks a block must pass whatever the state, in the order they are made.
pub open spec fn block_verification(b: BlockModel, config: ChainConfig) -> Result<
    (),
    BlockVerificationError,
> {
    if b.chain_id != config.chain_id {
        Err(
            BlockVerificationError::InvalidChainId {
                expected: config.chain_id,
                actual: b.chain_id,
            },
        )
    } else if b.chain_version != config.chain_version {
        Err(
            BlockVerificationError::InvalidChainVersion {
                expected: config.chain_version,
                actual: b.chain_version,
            },
        )
    } else if b.block_height == 0 && b.previous_block_hash@ != zero_hash() {
        Err(BlockVerificationError::InvalidGenesisPreviousBlockHash)
    } else if b.block_height == 0 && b.transactions.len() > 0 {
        Err(BlockVerificationError::NonEmptyTransactionsInGenesisBlock)
    } else if b.transactions.len() > max_transactions(config) {
        Err(
            BlockVerificationError::TooManyTransactions {
                count: b.transactions.len() as usize,
                max: max_transactions(config),
            },
        )
    } else {
        transactions_verification(b.transactions, config, 0)
    }
}

/// When the transactions from `i` on pass their checks, each of them does.
proof fn lemma_transactions_verified(txs: Seq<Transaction>, config: ChainConfig, i: int)
    requires
        0 <= i,
        transactions_verification(txs, config, i) is Ok,
    ensures
        forall|k: int| i <= k < txs.len() ==> transaction_verification(#[trigger] txs[k], config) is Ok,
    decreases txs.len() - i,
{
    if i < txs.len() {
        lemma_transactions_verified(txs, config, i + 1);
    }
}

/// Checks a block against the chain's configuration, and each of its transactions
/// in order.
pub fn verify_block_stateless(block: &Block, config: &ChainConfig) -> (r: Result<
    (),
    BlockVerificationError,
>)
    ensures
        r == block_verification(block@, *config),
{
    if block.chain_id != config.chain_id {
        return Err(
            BlockVerificationError::InvalidChainId {
                expected: config.chain_id,
                actual: block.chain_id,
            },
        );
    }
    if block.chain_version != config.chain_version {
        return Err(
            BlockVerificationError::InvalidChainVersion {
                expected: config.chain_version,
                actual: block.chain_version,
            },
        );
    }
    if block.is_genesis() {
        let zero = crate::hash::Hash::zero();
        if !same_hash(&block.previous_block_hash, &zero) {
            return Err(BlockVerificationError::InvalidGenesisPreviousBlockHash);
        }
        if block.transactions.len() != 0 {
            return Err(BlockVerificationError::NonEmptyTransactionsInGenesisBlock);
        }
    }
    let max_transactions: usize = if config.max_transactions_per_block < 0xffff {
        config.max_transactions_per_block
    } else {
        0xffff
    };
    if block.transactions.len() > max_transactions {
        return Err(
            BlockVerificationError::TooManyTransactions {
                count: block.transactions.len(),
                max: max_transactions,
            },
        );
    }
    let mut index: usize = 0;
    while index < block.transactions.len()
        invariant
            index <= block.transactions@.len(),
            block_verification(block@, *config) == transactions_verification(
                block.transactions@,
                *config,
                index as int,
            ),
        decreases block.transactions@.len() - index,
    {
        if let Err(error) = block.transactions[index].verify_stateless(config) {
            return Err(BlockVerificationError::TxVerifyError { index, error });
        }
        index = index + 1;
    }
    Ok(())
}

#[allow(inconsistent_fields)]
#[derive(Debug, Clone, Copy, PartialEq, Eq)]
pub enum BlockExecutionError {
    VerifyError(BlockVerificationError),
    TxExecuteError { index: usize, error: TransactionExecutionError },
    InvalidStateHash { expected: crate::hash::Hash, actual: crate::hash::Hash },
}

/// Another name for [`BlockExecutionError`].
pub type BlockExecuteError = BlockExecutionError;

/// Executes `txs[i..]` one after the other on the state whose rows are `base`, after
/// the change `d` made by the transactions before them: the whole change, or the
/// first transaction that is refused.
pub open spec fn transactions_execution(
    txs: Seq<Transaction>,
    config: ChainConfig,
    base: Seq<Entry>,
    d: Seq<Entry>,
    i: int,
) -> Result<Seq<Entry>, BlockExecutionError>
    decreases txs.len() - i,
{
    if i < 0 || i >= txs.len() {
        Ok(d)
    } else {
        match transaction_execution(txs[i], config, merge(base, d)) {
            Err(e) => Err(BlockExecutionError::TxExecuteError { index: i as usize, error: e }),
            Ok(dd) => transactions_execution(txs, config, base, merge(d, dd), i + 1),
        }
    }
}

/// What executing a block on the state whose rows are `entries` gives: the change it
/// makes and the hash of the state after it, or why it is refused.
pub open spec fn block_execution(b: BlockModel, config: ChainConfig, entries: Seq<Entry>) -> Result<
    (Seq<Entry>, Seq<u8>),
    BlockExecutionError,
> {
    match block_verification(b, config) {
        Err(e) => Err(BlockExecutionError::VerifyError(e)),
        Ok(()) => match transactions_execution(b.transactions, config, entries, Seq::empty(), 0) {
            Err(e) => Err(e),
            Ok(d) => {
                let h = state_hash(merge(entries, d));
                if b.state_hash@ != h {
                    Err(
                        BlockExecutionError::InvalidStateHash {
                            expected: b.state_hash,
                            actual: crate::hash::Hash(array_of::<32>(h)),
                        },
                    )
                } else {
                    Ok((d, h))
                }
            },
        },
    }
}

/// Executes `block` on `state`: checks it, runs its transactions in order, each on
/// the state the ones before it left, and checks the state hash it claims. `state`
/// is not changed; the change comes back with the new state hash.
pub fn execute_block<S: StateView>(block: &Block, config: &ChainConfig, state: &S) -> (r: Result<
    ExecutionOutcome,
    BlockExecutionError,
>)
    requires
        state.wf(),
    ensures
        match block_execution(block@, *config, state.entries()) {
            Ok((d, h)) => r matches Ok(outcome) && outcome.state_delta@ == d
                && outcome.state_delta.wf() && outcome.state_hash@ == h,
            Err(e) => r matches Err(err) && err == e,
        },
{
    if let Err(err) = verify_block_stateless(block, config) {
        return Err(BlockExecutionError::VerifyError(err));
    }
    proof {
        lemma_transactions_verified(block.transactions@, *config, 0);
    }
    let mut working_state = WorkingState::new(state);
    let mut index: usize = 0;
    while index < block.transactions.len()
        invariant
            index <= block.transactions@.len(),
            state.wf(),
            block_verification(block@, *config) is Ok,
            forall|k: int|
                0 <= k < block.transactions@.len() ==> transaction_verification(
                    #[trigger] block.transactions@[k],
                    *config,
                ) is Ok,
            working_state.base() == *state,
            working_state.delta().wf(),
            transactions_execution(block.transactions@, *config, state.entries(), Seq::empty(), 0)
                == transactions_execution(
                block.transactions@,
                *config,
                state.entries(),
                working_state.delta()@,
                index as int,
            ),
        decreases block.transactions@.len() - index,
    {
        proof {
            working_state.lemma_entries();
        }
        assert(transaction_verification(block.transactions@[index as int], *config) is Ok);
        let delta = match block.transactions[index].apply_verified(&working_state) {
            Ok(delta) => delta,
            Err(error) => {
                return Err(BlockExecutionError::TxExecuteError { index, error });
            },
        };
        working_state.apply_delta(delta);
        index = index + 1;
    }
    proof {
        working_state.lemma_entries();
    }
    let state_hash = compute_state_hash(&working_state);
    proof {
        lemma_array_of::<32>(state_hash.0);
        if block.state_hash@ == state_hash@ {
            crate::hash::lemma_hash_view_injective(block.state_hash, state_hash);
        }
    }
    check_state_hash(block, state_hash, working_state.into_delta())
}

/// Accepts the change a block's transactions made when the hash of the state they
/// reached is the state hash the block claims.
pub fn check_state_hash(
    block: &Block,
    state_hash: crate::hash::Hash,
    state_delta: StateDelta,
) -> (r: Result<ExecutionOutcome, BlockExecutionError>)
    ensures
        block.state_hash == state_hash ==> r == Ok::<ExecutionOutcome, BlockExecutionError>(
            ExecutionOutcome { state_delta, state_hash },
        ),
        block.state_hash != state_hash ==> r == Err::<ExecutionOutcome, BlockExecutionError>(
            BlockExecutionError::InvalidStateHash { expected: block.state_hash, actual: state_hash },
        ),
{
    if !same_hash(&block.state_hash, &state_hash) {
        return Err(
            BlockExecutionError::InvalidStateHash { expected: block.state_hash, actual: state_hash },
        );
    }
    Ok(ExecutionOutcome { state_delta, state_hash })
}

/// Runs `txs[i..]` one after the other, each on the state the ones before it left,
/// starting from the state whose rows are `entries`: the state reached, or the first
/// transaction that is refused.
pub open spec fn apply_transactions(
    txs: Seq<Transaction>,
    config: ChainConfig,
    entries: Seq<Entry>,
    i: int,
) -> Result<Seq<Entry>, BlockExecutionError>
    decreases txs.len() - i,
{
    if i < 0 || i >= txs.len() {
        Ok(entries)
    } else {
        match transaction_execution(txs[i], config, entries) {
            Err(e) => Err(BlockExecutionError::TxExecuteError { index: i as usize, error: e }),
            Ok(dd) => apply_transactions(txs, config, merge(entries, dd), i + 1),
        }
    }
}

/// The change an accepted transaction makes is a table in address order.
pub proof fn lemma_transaction_change_sorted(t: Transaction, config: ChainConfig, entries: Seq<Entry>)
    ensures
        transaction_execution(t, config, entries) matches Ok(d) ==> sorted(d),
{
    match t {
        Transaction::Transfer(tx) => lemma_transfer_change_sorted(tx, config, entries),
    }
}

/// What a transaction does depends on the accounts a state holds, not on how its
/// rows are laid out.
pub proof fn lemma_transaction_execution_lookup(
    t: Transaction,
    config: ChainConfig,
    e1: Seq<Entry>,
    e2: Seq<Entry>,
)
    requires
        forall|a: Seq<u8>| #[trigger] lookup(e1, a) == lookup(e2, a),
    ensures
        transaction_execution(t, config, e1) == transaction_execution(t, config, e2),
{
    match t {
        Transaction::Transfer(tx) => {
            assert(lookup(e1, tx.payload.from@) == lookup(e2, tx.payload.from@));
            assert(lookup(e1, tx.payload.to@) == lookup(e2, tx.payload.to@));
        },
    }
}

/// Executing transactions against a base and the change made so far is running them
/// in turn on the base with that change laid over it.
pub proof fn lemma_transactions_in_turn(
    txs: Seq<Transaction>,
    config: ChainConfig,
    base: Seq<Entry>,
    d: Seq<Entry>,
    i: int,
)
    requires
        sorted(base),
        sorted(d),
    ensures
        match transactions_execution(txs, config, base, d, i) {
            Ok(dd) => sorted(dd) && apply_transactions(txs, config, merge(base, d), i) == Ok::<
                Seq<Entry>,
                BlockExecutionError,
            >(merge(base, dd)),
            Err(e) => apply_transactions(txs, config, merge(base, d), i) == Err::<
                Seq<Entry>,
                BlockExecutionError,
            >(e),
        },
    decreases txs.len() - i,
{
    if 0 <= i < txs.len() {
        lemma_transaction_change_sorted(txs[i], config, merge(base, d));
        if let Ok(dd) = transaction_execution(txs[i], config, merge(base, d)) {
            lemma_merge_assoc(base, d, dd);
            lemma_merge_sorted(d, dd);
            lemma_transactions_in_turn(txs, config, base, merge(d, dd), i + 1);
        }
    }
}

/// The change an accepted block makes, laid over the state, is the state its
/// transactions reach when each runs on the state the ones before it left, and the
/// state hash the block carries is the hash of that state.
pub proof fn lemma_block_change_in_turn(b: BlockModel, config: ChainConfig, entries: Seq<Entry>)
    requires
        sorted(entries),
    ensures
        block_execution(b, config, entries) matches Ok((d, h)) ==> {
            &&& apply_transactions(b.transactions, config, entries, 0) == Ok::<
                Seq<Entry>,
                BlockExecutionError,
            >(merge(entries, d))
            &&& h == state_hash(merge(entries, d))
            &&& b.state_hash@ == h
        },
{
    let e = Seq::<Entry>::empty();
    if entries.len() == 0 {
        assert(entries =~= e);
    }
    assert(merge(entries, e) == entries);
    lemma_transactions_in_turn(b.transactions, config, entries, e, 0);
}

/// Running transactions in turn keeps the total balance of all accounts.
pub proof fn lemma_in_turn_keeps_total_balance(
    txs: Seq<Transaction>,
    config: ChainConfig,
    entries: Seq<Entry>,
    i: int,
)
    requires
        sorted(entries),
    ensures
        apply_transactions(txs, config, entries, i) matches Ok(r) ==> total_balance(r)
            == total_balance(entries),
    decreases txs.len() - i,
{
    if 0 <= i < txs.len() {
        lemma_transaction_change_sorted(txs[i], config, entries);
        if let Ok(dd) = transaction_execution(txs[i], config, entries) {
            match txs[i] {
                Transaction::Transfer(tx) => lemma_transfer_keeps_total_balance(tx, config, entries),
            }
            lemma_merge_sorted(entries, dd);
            lemma_in_turn_keeps_total_balance(txs, config, merge(entries, dd), i + 1);
        }
    }
}

/// An accepted block keeps the total balance of all accounts.
pub proof fn lemma_block_keeps_total_balance(b: BlockModel, config: ChainConfig, entries: Seq<Entry>)
    requires
        sorted(entries),
    ensures
        block_execution(b, config, entries) matches Ok((d, h)) ==> total_balance(merge(entries, d))
            == total_balance(entries),
{
    lemma_block_change_in_turn(b, config, entries);
    lemma_in_turn_keeps_total_balance(b.transactions, config, entries, 0);
}

/// Executing transactions depends on the accounts the base holds, not on the empty
/// rows it keeps.
proof fn lemma_transactions_execution_nonempty(
    txs: Seq<Transaction>,
    config: ChainConfig,
    base: Seq<Entry>,
    d: Seq<Entry>,
    i: int,
)
    requires
        sorted(base),
        sorted(d),
    ensures
        transactions_execution(txs, config, base, d, i) == transactions_execution(
            txs,
            config,
            nonempty(base),
            d,
            i,
        ),
    decreases txs.len() - i,
{
    if 0 <= i < txs.len() {
        let n = nonempty(base);
        lemma_nonempty_props(base);
        assert forall|a: Seq<u8>| #[trigger] lookup(merge(base, d), a) == lookup(merge(n, d), a) by {
            lemma_lookup_merge(base, d, a);
            lemma_lookup_merge(n, d, a);
            lemma_lookup_nonempty(base, a);
        }
        lemma_transaction_execution_lookup(txs[i], config, merge(base, d), merge(n, d));
        lemma_transaction_change_sorted(txs[i], config, merge(base, d));
        if let Ok(dd) = transaction_execution(txs[i], config, merge(base, d)) {
            lemma_merge_sorted(d, dd);
            lemma_transactions_execution_nonempty(txs, config, base, merge(d, dd), i + 1);
        }
    }
}

/// Executing a block depends on the accounts a state holds, not on the empty rows it
/// keeps.
pub proof fn lemma_block_execution_nonempty(b: BlockModel, config: ChainConfig, entries: Seq<Entry>)
    requires
        sorted(entries),
    ensures
        block_execution(b, config, entries) == block_execution(b, config, nonempty(entries)),
{
    let e = Seq::<Entry>::empty();
    lemma_transactions_execution_nonempty(b.transactions, config, entries, e, 0);
    lemma_transactions_in_turn(b.transactions, config, entries, e, 0);
    if let Ok(d) = transactions_execution(b.transactions, config, entries, e, 0) {
        lemma_nonempty_props(entries);
        lemma_nonempty_merge(entries, d);
        lemma_state_hash_ignores_empty(zero_hash(), merge(entries, d));
        lemma_state_hash_ignores_empty(zero_hash(), merge(nonempty(entries), d));
    }
}

} // verus!
