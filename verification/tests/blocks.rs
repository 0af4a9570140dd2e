use flexnet::account::Account;
use flexnet::address::Address;
use flexnet::block::Block;
use flexnet::chain_config::ChainConfig;
use flexnet::chain_id::ChainId;
use flexnet::chain_version::ChainVersion;
use flexnet::codec::DecodeError;
use flexnet::crypto::{address_from_secret_key, sign, SecretKey};
use flexnet::genesis::Genesis;
use flexnet::hash::{
    compute_block_hash, compute_state_hash, compute_state_hash_from_delta,
    compute_transactions_hash, encode_state_hash_preimage, encode_transactions_hash_preimage,
};
use flexnet::rules::rule_block::{
    check_state_hash, execute_block, verify_block_stateless, BlockExecutionError,
    BlockVerificationError,
};
use flexnet::rules::rule_transfer::{execute_transfer, TransferExecutionError};
use flexnet::state::{State, StateDelta, StateView, WritableState};
use flexnet::transaction::{Transaction, TransactionExecutionError};
use flexnet::transactions::tx_transfer::{TransferPayload, TxTransfer};

fn config() -> ChainConfig {
    ChainConfig {
        chain_id: ChainId::new(1),
        chain_version: ChainVersion::new(1),
        max_transactions_per_block: 16,
    }
}

fn secret_key(seed: u8) -> SecretKey {
    SecretKey::new([seed; 32])
}

fn address_for(secret_key: &SecretKey) -> Address {
    address_from_secret_key(secret_key)
}

fn state_with_accounts(accounts: &[(Address, Account)]) -> State {
    State::new(accounts.to_vec())
}

fn zero_hash() -> flexnet::hash::Hash {
    flexnet::hash::Hash::zero()
}

fn signed_transfer(secret_key: &SecretKey, to: Address, amount: u128, nonce: u128) -> Transaction {
    let from = address_from_secret_key(secret_key);
    let payload = TransferPayload::new(ChainId::new(1), ChainVersion::new(1), from, to, amount, nonce);
    let mut signing_payload = Vec::with_capacity(payload.signing_payload_len());
    payload.encode_signing_payload(&mut signing_payload);
    Transaction::Transfer(TxTransfer::new(payload, sign(secret_key, &signing_payload)))
}

fn transfer(seed: u8, to_seed: u8, amount: u128, nonce: u128) -> Transaction {
    signed_transfer(&SecretKey::new([seed; 32]), Address::new([to_seed; 32]), amount, nonce)
}

#[test]
fn state_hash_ignores_empty_accounts() {
    let a = Address::new([1; 32]);
    let b = Address::new([2; 32]);
    let left = state_with_accounts(&[(a, Account::new(10, 0)), (b, Account::new(0, 0))]);
    let right = state_with_accounts(&[(a, Account::new(10, 0))]);

    assert_eq!(compute_state_hash(&left), compute_state_hash(&right));
}

#[test]
fn state_hash_ignores_empty_rows_a_state_keeps() {
    let a = Address::new([1; 32]);
    let b = Address::new([2; 32]);
    let mut left = flexnet::state::InMemoryState::new();
    let mut delta = StateDelta::new();
    delta.update_account(a, Account::new(10, 0));
    delta.update_account(b, Account::new(0, 0));
    left.apply_delta(delta);
    let right = state_with_accounts(&[(a, Account::new(10, 0))]);

    assert_eq!(left.all_accounts_in_order().len(), 2);
    assert_eq!(compute_state_hash(&left), compute_state_hash(&right));
}

#[test]
fn state_hash_of_empty_state_is_zero() {
    assert_eq!(compute_state_hash(&State::new(Vec::new())), zero_hash());
}

#[test]
fn state_hash_folds_accounts_in_address_order() {
    let a = Address::new([1; 32]);
    let account = Account::new(10, 3);
    let state = state_with_accounts(&[(a, account)]);
    let preimage = encode_state_hash_preimage(&zero_hash(), &a, &account);

    assert_eq!(preimage.len(), 96);
    assert_eq!(&preimage[32..64], &[1; 32]);
    assert_eq!(preimage[64], 10);
    assert_eq!(preimage[80], 3);
    assert_eq!(
        compute_state_hash(&state),
        flexnet::hash::Hash::compute(&preimage)
    );
}

#[test]
fn state_hash_from_delta_matches_state_after_delta() {
    let a = Address::new([1; 32]);
    let b = Address::new([2; 32]);
    let state = state_with_accounts(&[(a, Account::new(10, 0)), (b, Account::new(4, 0))]);
    let mut delta = StateDelta::new();
    delta.update_account(b, Account::new(0, 0));
    delta.update_account(Address::new([3; 32]), Account::new(5, 1));
    let mut after = state.clone();
    after.apply_delta(delta.clone());

    assert_eq!(
        compute_state_hash_from_delta(&state, &delta),
        compute_state_hash(&after)
    );
}

#[test]
fn hash_displays_as_hex() {
    let hash = flexnet::hash::Hash::new([0xab; 32]);
    let text = hash.to_string();

    assert_eq!(text.len(), 66);
    assert!(text.starts_with("0xabab"));
    assert_eq!(zero_hash().to_string(), format!("0x{}", "0".repeat(64)));
}

#[test]
fn sha256_of_empty_input_is_the_known_digest() {
    assert_eq!(
        flexnet::hash::Hash::compute(&[]).to_string(),
        "0xe3b0c44298fc1c149afbf4c8996fb92427ae41e4649b934ca495991b7852b855"
    );
}

#[test]
fn transactions_hash_preimage_starts_with_u16_count() {
    let txs = vec![transfer(1, 2, 5, 0), transfer(2, 3, 3, 0)];
    let preimage = encode_transactions_hash_preimage(&txs);

    assert_eq!(&preimage[..2], &2_u16.to_le_bytes());
    assert_eq!(compute_transactions_hash(&txs), flexnet::hash::Hash::compute(&preimage));
}

#[test]
fn block_hash_changes_when_transactions_change() {
    let base_block = Block::new(
        ChainId::new(1),
        ChainVersion::new(1),
        1,
        zero_hash(),
        compute_state_hash(&state_with_accounts(&[(
            Address::new([1; 32]),
            Account::new(10, 0),
        )])),
        vec![transfer(1, 2, 5, 0)],
    );
    let changed_block = Block::new(
        base_block.chain_id,
        base_block.chain_version,
        base_block.block_height,
        base_block.previous_block_hash,
        base_block.state_hash,
        vec![transfer(1, 2, 6, 0)],
    );

    assert_ne!(
        compute_block_hash(&base_block),
        compute_block_hash(&changed_block)
    );
}

#[test]
fn block_roundtrips_through_its_canonical_bytes() {
    let block = Block::new(
        ChainId::new(3),
        ChainVersion::new(4),
        77,
        flexnet::hash::Hash::new([5; 32]),
        flexnet::hash::Hash::new([6; 32]),
        vec![transfer(1, 2, 5, 0), transfer(2, 3, 3, 1)],
    );
    let mut encoded = Vec::new();
    block.encode_canonical(&mut encoded);

    assert_eq!(encoded.len(), block.encoded_len());
    assert_eq!(encoded.len(), 86 + 2 * 165);
    assert_eq!(&encoded[84..86], &[2, 0]);
    assert_eq!(Block::decode_canonical(&encoded), Ok(block.clone()));

    encoded.push(0);
    assert_eq!(
        Block::decode_canonical(&encoded),
        Err(DecodeError::LengthExceeded {
            expected: 416,
            actual: 417
        })
    );
}

#[test]
fn genesis_builds_empty_genesis_block_with_state_hash() {
    let state = state_with_accounts(&[(Address::new([1; 32]), Account::new(10, 0))]);
    let genesis = Genesis::new(
        ChainConfig {
            chain_id: ChainId::new(1),
            chain_version: ChainVersion::new(1),
            max_transactions_per_block: 16,
        },
        state.clone(),
        vec![],
    );
    let block = genesis.block();

    assert_eq!(block.block_height, 0);
    assert_eq!(block.previous_block_hash, zero_hash());
    assert!(block.transactions.is_empty());
    assert_eq!(block.state_hash, compute_state_hash(&state));
    assert_eq!(genesis.state_hash(), compute_state_hash(&state));

    let (config, initial_state, validators, genesis_block) = genesis.into_genesis_block();
    assert_eq!(config, genesis_config_copy());
    assert_eq!(initial_state, state);
    assert!(validators.is_empty());
    assert_eq!(genesis_block, block);
}

fn genesis_config_copy() -> ChainConfig {
    config()
}

#[test]
fn reject_block_when_transaction_count_exceeds_canonical_limit() {
    let repeated = signed_transfer(&secret_key(1), address_from_secret_key(&secret_key(2)), 1, 0);
    let mut block = Block::new(
        ChainId::new(1),
        ChainVersion::new(1),
        1,
        zero_hash(),
        zero_hash(),
        Vec::new(),
    );
    block.transactions = vec![repeated; u16::MAX as usize + 1];

    assert_eq!(
        verify_block_stateless(
            &block,
            &ChainConfig {
                max_transactions_per_block: usize::MAX,
                ..config()
            }
        ),
        Err(BlockVerificationError::TooManyTransactions {
            count: u16::MAX as usize + 1,
            max: u16::MAX as usize,
        })
    );
}

#[test]
fn reject_block_over_the_configured_limit() {
    let tx = signed_transfer(&secret_key(1), address_from_secret_key(&secret_key(2)), 1, 0);
    let block = Block::new(
        ChainId::new(1),
        ChainVersion::new(1),
        1,
        zero_hash(),
        zero_hash(),
        vec![tx; 17],
    );

    assert_eq!(
        verify_block_stateless(&block, &config()),
        Err(BlockVerificationError::TooManyTransactions { count: 17, max: 16 })
    );
}

#[test]
fn reject_malformed_genesis_blocks_and_foreign_blocks() {
    let tx = signed_transfer(&secret_key(1), address_from_secret_key(&secret_key(2)), 1, 0);
    let with_parent = Block::new(
        ChainId::new(1),
        ChainVersion::new(1),
        0,
        flexnet::hash::Hash::new([1; 32]),
        zero_hash(),
        Vec::new(),
    );
    let with_transactions = Block::new(
        ChainId::new(1),
        ChainVersion::new(1),
        0,
        zero_hash(),
        zero_hash(),
        vec![tx],
    );
    let foreign = Block::new(ChainId::new(2), ChainVersion::new(1), 5, zero_hash(), zero_hash(), Vec::new());
    let old_version =
        Block::new(ChainId::new(1), ChainVersion::new(0), 5, zero_hash(), zero_hash(), Vec::new());

    assert_eq!(
        verify_block_stateless(&with_parent, &config()),
        Err(BlockVerificationError::InvalidGenesisPreviousBlockHash)
    );
    assert_eq!(
        verify_block_stateless(&with_transactions, &config()),
        Err(BlockVerificationError::NonEmptyTransactionsInGenesisBlock)
    );
    assert_eq!(
        verify_block_stateless(&foreign, &config()),
        Err(BlockVerificationError::InvalidChainId {
            expected: ChainId::new(1),
            actual: ChainId::new(2)
        })
    );
    assert_eq!(
        verify_block_stateless(&old_version, &config()),
        Err(BlockVerificationError::InvalidChainVersion {
            expected: ChainVersion::new(1),
            actual: ChainVersion::new(0)
        })
    );
    assert!(matches!(
        execute_block(&foreign, &config(), &State::new(Vec::new())),
        Err(BlockExecutionError::VerifyError(BlockVerificationError::InvalidChainId { .. }))
    ));
}

#[test]
fn reject_block_naming_the_first_transaction_that_fails_its_checks() {
    let good = signed_transfer(&secret_key(1), address_from_secret_key(&secret_key(2)), 1, 0);
    let bad = signed_transfer(&secret_key(1), address_from_secret_key(&secret_key(2)), 0, 1);
    let block = Block::new(
        ChainId::new(1),
        ChainVersion::new(1),
        1,
        zero_hash(),
        zero_hash(),
        vec![good, bad, bad],
    );

    assert!(matches!(
        verify_block_stateless(&block, &config()),
        Err(BlockVerificationError::TxVerifyError { index: 1, .. })
    ));
}

#[test]
fn execute_block_returns_delta_for_valid_block() {
    let alice_key = secret_key(1);
    let bob_key = secret_key(2);
    let alice = address_from_secret_key(&alice_key);
    let bob = address_from_secret_key(&bob_key);
    let state = state_with_accounts(&[(alice, Account::new(100, 0)), (bob, Account::new(5, 0))]);
    let tx = signed_transfer(&alice_key, bob, 40, 0);
    let expected_state = {
        let mut next = state.clone();
        let delta = execute_transfer(
            match &tx {
                Transaction::Transfer(tx) => tx,
            },
            &config(),
            &state,
        )
        .unwrap();
        next.apply_delta(delta);
        next
    };
    let block = Block::new(
        ChainId::new(1),
        ChainVersion::new(1),
        1,
        zero_hash(),
        compute_state_hash(&expected_state),
        vec![tx],
    );

    let outcome = execute_block(&block, &config(), &state).unwrap();
    let mut next_state = state.clone();
    next_state.apply_delta(outcome.state_delta);

    assert_eq!(outcome.state_hash, compute_state_hash(&expected_state));
    assert_eq!(next_state, expected_state);
}

#[test]
fn reject_block_when_state_hash_is_wrong() {
    let alice_key = secret_key(1);
    let bob = address_from_secret_key(&secret_key(2));
    let state = state_with_accounts(&[(address_from_secret_key(&alice_key), Account::new(100, 0))]);
    let tx = signed_transfer(&alice_key, bob, 40, 0);
    let block = Block::new(
        ChainId::new(1),
        ChainVersion::new(1),
        1,
        zero_hash(),
        zero_hash(),
        vec![tx],
    );

    assert!(matches!(
        execute_block(&block, &config(), &state),
        Err(BlockExecutionError::InvalidStateHash { .. })
    ));
}

#[test]
fn execute_block_matches_expected_hashes_and_state() {
    let config = ChainConfig {
        max_transactions_per_block: 128,
        ..config()
    };
    let alice_key = secret_key(1);
    let bob_key = secret_key(2);
    let carol_key = secret_key(3);
    let alice = address_for(&alice_key);
    let bob = address_for(&bob_key);
    let carol = address_for(&carol_key);
    let previous_state =
        state_with_accounts(&[(alice, Account::new(1_000, 0)), (bob, Account::new(100, 0))]);
    let previous_block_hash = flexnet::hash::Hash::new([7; 32]);
    let tx1 = signed_transfer(&alice_key, bob, 150, 0);
    let tx2 = signed_transfer(&bob_key, carol, 75, 0);
    let expected_state = {
        let mut next = previous_state.clone();
        let delta1 = tx1.execute(&config, &next).unwrap();
        WritableState::apply_delta(&mut next, delta1);
        let delta2 = tx2.execute(&config, &next).unwrap();
        WritableState::apply_delta(&mut next, delta2);
        next
    };
    let block = Block::new(
        config.chain_id,
        config.chain_version,
        1,
        previous_block_hash,
        compute_state_hash(&expected_state),
        vec![tx1.clone(), tx2.clone()],
    );

    let outcome = execute_block(&block, &config, &previous_state).unwrap();
    let mut next_state = previous_state.clone();
    WritableState::apply_delta(&mut next_state, outcome.state_delta.clone());

    assert_eq!(next_state, expected_state);
    assert_eq!(outcome.state_hash, compute_state_hash(&expected_state));
    assert_eq!(
        compute_transactions_hash(&block.transactions),
        compute_transactions_hash(&[tx1, tx2])
    );
    assert_eq!(compute_block_hash(&block), compute_block_hash(&block));
    assert_eq!(next_state.get_account(&alice), Account::new(850, 1));
    assert_eq!(next_state.get_account(&bob), Account::new(175, 1));
    assert_eq!(next_state.get_account(&carol), Account::new(75, 0));
}

#[test]
fn reject_block_when_any_transaction_is_invalid() {
    let config = ChainConfig {
        max_transactions_per_block: 128,
        ..config()
    };
    let alice_key = secret_key(1);
    let bob_key = secret_key(2);
    let alice = address_for(&alice_key);
    let bob = address_for(&bob_key);
    let previous_state = state_with_accounts(&[(alice, Account::new(1_000, 0))]);
    let tx1 = signed_transfer(&alice_key, bob, 100, 0);
    let tx2 = signed_transfer(&alice_key, bob, 50, 0);
    let block = Block::new(
        config.chain_id,
        config.chain_version,
        1,
        zero_hash(),
        zero_hash(),
        vec![tx1, tx2],
    );

    assert_eq!(
        execute_block(&block, &config, &previous_state),
        Err(BlockExecutionError::TxExecuteError {
            index: 1,
            error: TransactionExecutionError::Transfer(TransferExecutionError::InvalidNonce {
                expected: 1,
                actual: 0,
            },),
        })
    );
}

#[test]
fn block_keeps_total_balance() {
    let keys: Vec<SecretKey> = (1..=4).map(secret_key).collect();
    let addresses: Vec<Address> = keys.iter().map(address_for).collect();
    let state = state_with_accounts(&[
        (addresses[0], Account::new(300, 0)),
        (addresses[1], Account::new(200, 0)),
    ]);
    let txs = vec![
        signed_transfer(&keys[0], addresses[2], 120, 0),
        signed_transfer(&keys[1], addresses[3], 200, 0),
        signed_transfer(&keys[2], addresses[0], 20, 0),
    ];
    let mut expected = state.clone();
    for tx in &txs {
        let delta = tx.execute(&config(), &expected).unwrap();
        expected.apply_delta(delta);
    }
    let block = Block::new(
        ChainId::new(1),
        ChainVersion::new(1),
        1,
        zero_hash(),
        compute_state_hash(&expected),
        txs,
    );

    let outcome = execute_block(&block, &config(), &state).unwrap();
    let mut next = state.clone();
    next.apply_delta(outcome.state_delta);

    let total = |s: &State| -> u128 { s.accounts().iter().map(|(_, a)| a.balance).sum() };
    assert_eq!(total(&next), 500);
    assert_eq!(next, expected);
    assert_eq!(next.get_account(&addresses[1]), Account::new(0, 1));
}

#[test]
fn state_hash_check_accepts_only_the_claimed_hash() {
    let claimed = flexnet::hash::Hash::new([3; 32]);
    let other = flexnet::hash::Hash::new([4; 32]);
    let block = Block::new(ChainId::new(1), ChainVersion::new(1), 1, zero_hash(), claimed, Vec::new());
    let mut delta = StateDelta::new();
    delta.update_account(Address::new([1; 32]), Account::new(1, 0));

    let outcome = check_state_hash(&block, claimed, delta.clone()).unwrap();
    assert_eq!(outcome.state_hash, claimed);
    assert_eq!(outcome.state_delta, delta);
    assert_eq!(
        check_state_hash(&block, other, delta),
        Err(BlockExecutionError::InvalidStateHash {
            expected: claimed,
            actual: other
        })
    );
}
