use flexnet::account::Account;
use flexnet::address::Address;
use flexnet::block::Block;
use flexnet::chain::{Chain, ChainAppendError};
use flexnet::chain_config::ChainConfig;
use flexnet::chain_id::ChainId;
use flexnet::chain_version::ChainVersion;
use flexnet::crypto::{address_from_secret_key, sign, SecretKey};
use flexnet::genesis::Genesis;
use flexnet::hash::{compute_block_hash, compute_state_hash};
use flexnet::rules::rule_block::BlockExecuteError;
use flexnet::state::{InMemoryState, State, StateDelta, StateView, WritableState};
use flexnet::transaction::Transaction;
use flexnet::transactions::tx_transfer::{TransferPayload, TxTransfer};

fn config() -> ChainConfig {
    ChainConfig {
        chain_id: ChainId::new(1),
        chain_version: ChainVersion::new(1),
        max_transactions_per_block: 128,
    }
}

fn small_config() -> ChainConfig {
    ChainConfig {
        max_transactions_per_block: 16,
        ..config()
    }
}

fn secret_key(seed: u8) -> SecretKey {
    SecretKey::new([seed; 32])
}

fn address_for(secret_key: &SecretKey) -> Address {
    address_from_secret_key(secret_key)
}

fn state_with_accounts(accounts: &[(Address, Account)]) -> State {
    State::new(accounts.to_vec())
}

fn zero_hash() -> flexnet::hash::Hash {
    flexnet::hash::Hash::zero()
}

fn signed_transfer(secret_key: &SecretKey, to: Address, amount: u128, nonce: u128) -> Transaction {
    let payload = TransferPayload::new(
        ChainId::new(1),
        ChainVersion::new(1),
        address_for(secret_key),
        to,
        amount,
        nonce,
    );
    let mut signing_payload = Vec::with_capacity(payload.signing_payload_len());
    payload.encode_signing_payload(&mut signing_payload);
    Transaction::Transfer(TxTransfer::new(payload, sign(secret_key, &signing_payload)))
}

fn block_with_transactions(
    previous_state: &State,
    previous_block_hash: flexnet::hash::Hash,
    block_height: u128,
    transactions: Vec<Transaction>,
) -> (Block, State) {
    let mut next_state = previous_state.clone();

    for transaction in &transactions {
        let delta = transaction
            .execute(&config(), &next_state)
            .expect("block helper expects valid transactions");
        next_state.apply_delta(delta);
    }

    let block = Block::new(
        ChainId::new(1),
        ChainVersion::new(1),
        block_height,
        previous_block_hash,
        compute_state_hash(&next_state),
        transactions,
    );

    (block, next_state)
}

#[test]
fn append_block_updates_tip_and_state() {
    let alice_key = SecretKey::new([1; 32]);
    let bob_key = SecretKey::new([2; 32]);
    let alice = address_from_secret_key(&alice_key);
    let bob = address_from_secret_key(&bob_key);
    let mut chain = Chain::new(Genesis::new(
        small_config(),
        state_with_accounts(&[(alice, Account::new(100, 0)), (bob, Account::new(0, 0))]),
        vec![],
    ));
    let tx = signed_transfer(&alice_key, bob, 40, 0);
    let next_state = state_with_accounts(&[(alice, Account::new(60, 1)), (bob, Account::new(40, 0))]);
    let block = Block::new(
        ChainId::new(1),
        ChainVersion::new(1),
        chain.next_block_height().unwrap(),
        chain.tip_block_hash(),
        compute_state_hash(&next_state),
        vec![tx],
    );

    chain.append_block(block.clone()).unwrap();

    assert_eq!(chain.tip_height(), 1);
    assert_eq!(chain.tip_block(), &block);
    assert_eq!(chain.state().get_account(&alice), Account::new(60, 1));
    assert_eq!(chain.state().get_account(&bob), Account::new(40, 0));
}

#[test]
fn reject_block_with_wrong_previous_hash_without_mutating_chain() {
    let alice_key = SecretKey::new([1; 32]);
    let alice = address_from_secret_key(&alice_key);
    let mut chain = Chain::new(Genesis::new(
        small_config(),
        state_with_accounts(&[(alice, Account::new(100, 0))]),
        vec![],
    ));
    let before = chain.clone();
    let block = Block::new(
        ChainId::new(1),
        ChainVersion::new(1),
        1,
        flexnet::hash::Hash::new([9; 32]),
        zero_hash(),
        Vec::new(),
    );

    assert_eq!(
        chain.append_block(block),
        Err(ChainAppendError::PreviousBlockHashMismatch {
            expected: before.tip_block_hash(),
            actual: flexnet::hash::Hash::new([9; 32]),
        })
    );
    assert_eq!(chain, before);
}

#[test]
fn initialize_chain_from_genesis_and_append_blocks() {
    let alice_key = secret_key(1);
    let bob_key = secret_key(2);
    let carol_key = secret_key(3);
    let alice = address_for(&alice_key);
    let bob = address_for(&bob_key);
    let carol = address_for(&carol_key);
    let genesis = Genesis::new(
        config(),
        state_with_accounts(&[(alice, Account::new(1_000, 0)), (bob, Account::new(250, 0))]),
        vec![],
    );
    let mut chain = Chain::new(genesis.clone());

    assert_eq!(chain.tip_height(), 0);
    assert_eq!(chain.tip_block_hash(), compute_block_hash(&genesis.block()));
    assert_eq!(chain.tip_block(), &genesis.block());

    let tx1 = signed_transfer(&alice_key, bob, 150, 0);
    let (block1, _) = block_with_transactions(
        chain.state(),
        chain.tip_block_hash(),
        chain.next_block_height().unwrap(),
        vec![tx1],
    );
    chain.append_block(block1.clone()).unwrap();

    assert_eq!(chain.tip_height(), 1);
    assert_eq!(chain.tip_block(), &block1);
    assert_eq!(chain.state().get_account(&alice), Account::new(850, 1));
    assert_eq!(chain.state().get_account(&bob), Account::new(400, 0));

    let tx2 = signed_transfer(&bob_key, carol, 125, 0);
    let (block2, _) = block_with_transactions(
        chain.state(),
        chain.tip_block_hash(),
        chain.next_block_height().unwrap(),
        vec![tx2],
    );
    chain.append_block(block2.clone()).unwrap();

    assert_eq!(chain.tip_height(), 2);
    assert_eq!(chain.tip_block(), &block2);
    assert_eq!(chain.state().get_account(&alice), Account::new(850, 1));
    assert_eq!(chain.state().get_account(&bob), Account::new(275, 1));
    assert_eq!(chain.state().get_account(&carol), Account::new(125, 0));
}

#[test]
fn reject_out_of_sequence_block_height_without_mutating_chain() {
    let alice_key = secret_key(1);
    let bob_key = secret_key(2);
    let alice = address_for(&alice_key);
    let bob = address_for(&bob_key);
    let mut chain = Chain::new(Genesis::new(
        config(),
        state_with_accounts(&[(alice, Account::new(1_000, 0))]),
        vec![],
    ));
    let before = chain.clone();
    let tx = signed_transfer(&alice_key, bob, 100, 0);
    let (block, _) = block_with_transactions(chain.state(), chain.tip_block_hash(), 2, vec![tx]);

    let error = chain.append_block(block).unwrap_err();

    assert_eq!(
        error,
        ChainAppendError::UnexpectedBlockHeight {
            expected: 1,
            actual: 2,
        }
    );
    assert_eq!(chain, before);
}

#[test]
fn reject_invalid_block_without_mutating_chain() {
    let alice_key = secret_key(1);
    let bob_key = secret_key(2);
    let alice = address_for(&alice_key);
    let bob = address_for(&bob_key);
    let mut chain = Chain::new(Genesis::new(
        config(),
        state_with_accounts(&[(alice, Account::new(1_000, 0))]),
        vec![],
    ));
    let before = chain.clone();
    let tx = signed_transfer(&alice_key, bob, 100, 0);
    let (mut block, _) = block_with_transactions(
        chain.state(),
        chain.tip_block_hash(),
        chain.next_block_height().unwrap(),
        vec![tx],
    );
    block.state_hash = zero_hash();

    let error = chain.append_block(block).unwrap_err();

    assert!(matches!(
        error,
        ChainAppendError::BlockExecutionError(BlockExecuteError::InvalidStateHash { .. })
    ));
    assert_eq!(chain, before);
}

#[test]
fn reject_previous_hash_mismatch_without_mutating_chain() {
    let alice_key = secret_key(1);
    let alice = address_for(&alice_key);
    let mut chain = Chain::new(Genesis::new(
        config(),
        state_with_accounts(&[(alice, Account::new(1_000, 0))]),
        vec![],
    ));
    let before = chain.clone();
    let block = Block::new(
        config().chain_id,
        config().chain_version,
        1,
        flexnet::hash::Hash::new([9; 32]),
        zero_hash(),
        Vec::new(),
    );

    let error = chain.append_block(block).unwrap_err();

    assert_eq!(
        error,
        ChainAppendError::PreviousBlockHashMismatch {
            expected: before.tip_block_hash(),
            actual: flexnet::hash::Hash::new([9; 32]),
        }
    );
    assert_eq!(chain, before);
}

#[test]
fn genesis_chain_reports_its_tip_and_config() {
    let chain = Chain::new(Genesis::new(config(), state_with_accounts(&[]), vec![]));

    assert_eq!(chain.tip_height(), 0);
    assert_eq!(chain.next_block_height(), Some(1));
    assert_eq!(chain.config(), &config());
    assert_eq!(chain.tip_block().previous_block_hash, zero_hash());
    assert_eq!(chain.tip_block().state_hash, zero_hash());
    assert_eq!(chain.tip_block_hash(), compute_block_hash(chain.tip_block()));
}

fn build_long_scenario_block(
    addresses: &[Address],
    previous_state: &State,
    previous_block_hash: flexnet::hash::Hash,
    block_height: u128,
    transfers_per_block: usize,
    expected_nonces: &mut [u128],
) -> (Block, State) {
    let mut next_state = previous_state.clone();
    let mut transactions = Vec::with_capacity(transfers_per_block);

    for transfer_index in 0..transfers_per_block {
        let from_index = ((block_height as usize * 7) + (transfer_index * 3)) % addresses.len();
        let mut to_index =
            (from_index + transfer_index + 1 + (block_height as usize % 3)) % addresses.len();
        if to_index == from_index {
            to_index = (to_index + 1) % addresses.len();
        }

        let from = addresses[from_index];
        let to = addresses[to_index];
        let amount =
            1 + (((block_height as usize * 17) + (transfer_index * 13) + from_index) % 97) as u128;
        let nonce = next_state.get_account(&from).nonce;
        let transfer = signed_transfer(&secret_key((from_index + 1) as u8), to, amount, nonce);
        let delta = transfer.execute(&config(), &next_state).unwrap();

        WritableState::apply_delta(&mut next_state, delta);
        expected_nonces[from_index] += 1;
        transactions.push(transfer);
    }

    let block = Block::new(
        ChainId::new(1),
        ChainVersion::new(1),
        block_height,
        previous_block_hash,
        compute_state_hash(&next_state),
        transactions,
    );

    (block, next_state)
}

#[test]
fn replay_long_multi_transaction_multi_block_scenario_across_independent_chains() {
    const NODE_COUNT: usize = 2;
    const ACCOUNT_COUNT: usize = 6;
    const BLOCK_COUNT: usize = 64;
    const TRANSFERS_PER_BLOCK: usize = 5;
    const INITIAL_BALANCE: u128 = 100_000;

    let secret_keys = (1..=ACCOUNT_COUNT as u8).map(secret_key).collect::<Vec<_>>();
    let addresses = secret_keys.iter().map(address_for).collect::<Vec<_>>();
    let genesis_accounts = addresses
        .iter()
        .copied()
        .map(|address| (address, Account::new(INITIAL_BALANCE, 0)))
        .collect::<Vec<_>>();
    let genesis = Genesis::new(config(), state_with_accounts(&genesis_accounts), vec![]);
    let mut chains = (0..NODE_COUNT)
        .map(|_| Chain::new(genesis.clone()))
        .collect::<Vec<_>>();
    let mut expected_nonces = vec![0_u128; ACCOUNT_COUNT];
    let total_supply = INITIAL_BALANCE * ACCOUNT_COUNT as u128;

    for _ in 0..BLOCK_COUNT {
        let reference = &chains[0];
        let expected_height = reference.next_block_height().unwrap();
        let (block, expected_state) = build_long_scenario_block(
            &addresses,
            reference.state(),
            reference.tip_block_hash(),
            expected_height,
            TRANSFERS_PER_BLOCK,
            &mut expected_nonces,
        );

        for chain in &mut chains {
            chain.append_block(block.clone()).unwrap();
            assert_eq!(chain.tip_height(), expected_height);
            assert_eq!(
                compute_state_hash(chain.state()),
                compute_state_hash(&expected_state)
            );
        }
    }

    let reference = &chains[0];
    assert_eq!(reference.tip_height(), BLOCK_COUNT as u128);

    for (index, address) in addresses.iter().copied().enumerate() {
        assert_eq!(
            reference.state().get_account(&address).nonce,
            expected_nonces[index]
        );
    }

    let final_total_supply = reference
        .state()
        .accounts()
        .iter()
        .map(|(_, account)| account.balance)
        .sum::<u128>();
    assert_eq!(final_total_supply, total_supply);

    for chain in &chains[1..] {
        assert_eq!(chain.tip_height(), reference.tip_height());
        assert_eq!(chain.tip_block_hash(), reference.tip_block_hash());
        assert_eq!(
            compute_state_hash(chain.state()),
            compute_state_hash(reference.state())
        );
        assert_eq!(chain.state(), reference.state());
    }
}

#[test]
fn chains_that_keep_empty_rows_agree_with_chains_that_drop_them() {
    let alice_key = secret_key(1);
    let alice = address_for(&alice_key);
    let bob = address_for(&secret_key(2));
    let mut keeping_state = InMemoryState::new();
    let mut delta = StateDelta::new();
    delta.update_account(alice, Account::new(10, 0));
    delta.update_account(bob, Account::new(0, 0));
    keeping_state.apply_delta(delta);
    let dropping_state = state_with_accounts(&[(alice, Account::new(10, 0))]);

    let mut keeping = Chain::new(Genesis::new(config(), keeping_state, vec![]));
    let mut dropping = Chain::new(Genesis::new(config(), dropping_state, vec![]));
    assert_eq!(keeping.tip_block_hash(), dropping.tip_block_hash());

    let (block, _) = block_with_transactions(
        dropping.state(),
        dropping.tip_block_hash(),
        1,
        vec![signed_transfer(&alice_key, bob, 10, 0)],
    );
    keeping.append_block(block.clone()).unwrap();
    dropping.append_block(block).unwrap();

    assert_eq!(compute_state_hash(keeping.state()), compute_state_hash(dropping.state()));
    assert_eq!(keeping.tip_block_hash(), dropping.tip_block_hash());
    assert_eq!(keeping.state().get_account(&bob), Account::new(10, 0));
}
