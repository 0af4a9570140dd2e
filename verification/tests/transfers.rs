use flexnet::account::Account;
use flexnet::address::Address;
use flexnet::chain_config::ChainConfig;
use flexnet::chain_id::ChainId;
use flexnet::chain_version::ChainVersion;
use flexnet::crypto::{address_from_secret_key, sign, SecretKey, VerificationError};
use flexnet::rules::rule_transfer::{
    execute_transfer, verify_transfer_stateless, TransferExecutionError,
    TransferVerificationError,
};
use flexnet::state::{State, StateView, WritableState};
use flexnet::transaction::{Transaction, TransactionExecutionError, TransactionVerificationError};
use flexnet::transactions::tx_transfer::{TransferPayload, TxTransfer};

fn config() -> ChainConfig {
    ChainConfig {
        chain_id: ChainId::new(1),
        chain_version: ChainVersion::new(1),
        max_transactions_per_block: 16,
    }
}

fn secret_key(seed: u8) -> SecretKey {
    SecretKey::new([seed; 32])
}

fn address_for(secret_key: &SecretKey) -> Address {
    address_from_secret_key(secret_key)
}

fn state_with_accounts(accounts: &[(Address, Account)]) -> State {
    State::new(accounts.to_vec())
}

fn signed_tx(secret_key: &SecretKey, to: Address, amount: u128, nonce: u128) -> TxTransfer {
    let payload = TransferPayload::new(
        ChainId::new(1),
        ChainVersion::new(1),
        address_from_secret_key(secret_key),
        to,
        amount,
        nonce,
    );
    let mut signing_payload = Vec::with_capacity(payload.signing_payload_len());
    payload.encode_signing_payload(&mut signing_payload);
    TxTransfer::new(payload, sign(secret_key, &signing_payload))
}

fn signed_transfer(secret_key: &SecretKey, to: Address, amount: u128, nonce: u128) -> Transaction {
    Transaction::Transfer(signed_tx(secret_key, to, amount, nonce))
}

fn total_balance(state: &State) -> u128 {
    state.accounts().iter().map(|(_, account)| account.balance).sum()
}

#[test]
fn reject_transfer_to_self() {
    let secret_key = SecretKey::new([1; 32]);
    let address = address_from_secret_key(&secret_key);
    let tx = signed_tx(&secret_key, address, 5, 0);

    assert_eq!(
        verify_transfer_stateless(&tx, &config()),
        Err(TransferVerificationError::UnableToTransferToSelf)
    );
}

#[test]
fn rule_transfer_reject_transfer_with_wrong_nonce() {
    let alice_key = SecretKey::new([1; 32]);
    let bob = Address::new([2; 32]);
    let alice = address_from_secret_key(&alice_key);
    let tx = signed_tx(&alice_key, bob, 5, 3);
    let state = state_with_accounts(&[(alice, Account::new(10, 2))]);

    assert_eq!(
        execute_transfer(&tx, &config(), &state),
        Err(TransferExecutionError::InvalidNonce {
            expected: 2,
            actual: 3,
        })
    );
}

#[test]
fn reject_transfer_with_insufficient_balance() {
    let alice_key = SecretKey::new([1; 32]);
    let bob = Address::new([2; 32]);
    let alice = address_from_secret_key(&alice_key);
    let tx = signed_tx(&alice_key, bob, 11, 0);
    let state = state_with_accounts(&[(alice, Account::new(10, 0))]);

    assert_eq!(
        execute_transfer(&tx, &config(), &state),
        Err(TransferExecutionError::InsufficientBalance {
            balance: 10,
            amount: 11,
        })
    );
}

#[test]
fn apply_valid_transfer_updates_balances_and_nonce() {
    let alice_key = secret_key(1);
    let bob_key = secret_key(2);
    let alice = address_for(&alice_key);
    let bob = address_for(&bob_key);
    let state = state_with_accounts(&[(alice, Account::new(1_000, 0)), (bob, Account::new(5, 0))]);
    let tx = signed_transfer(&alice_key, bob, 250, 0);

    let delta = match &tx {
        Transaction::Transfer(tx) => execute_transfer(tx, &config(), &state).unwrap(),
    };
    let mut next_state = state.clone();
    WritableState::apply_delta(&mut next_state, delta);

    assert_eq!(next_state.get_account(&alice), Account::new(750, 1));
    assert_eq!(next_state.get_account(&bob), Account::new(255, 0));
}

#[test]
fn reject_transfer_with_invalid_signature() {
    let alice_key = secret_key(1);
    let bob_key = secret_key(2);
    let alice = address_for(&alice_key);
    let bob = address_for(&bob_key);
    let state = state_with_accounts(&[(alice, Account::new(1_000, 0))]);
    let tx = signed_transfer(&alice_key, bob, 250, 0);
    let tampered = match tx {
        Transaction::Transfer(tx) => Transaction::Transfer(TxTransfer {
            payload: TransferPayload {
                amount: 251,
                ..tx.payload
            },
            signature: tx.signature,
        }),
    };

    assert!(matches!(
        match &tampered {
            Transaction::Transfer(tx) => verify_transfer_stateless(tx, &config()),
        },
        Err(TransferVerificationError::InvalidSignature(_))
    ));
    assert_eq!(state.get_account(&alice), Account::new(1_000, 0));
}

#[test]
fn transfer_reject_transfer_with_wrong_nonce() {
    let alice_key = secret_key(1);
    let bob_key = secret_key(2);
    let alice = address_for(&alice_key);
    let bob = address_for(&bob_key);
    let state = state_with_accounts(&[(alice, Account::new(1_000, 4)), (bob, Account::new(0, 0))]);
    let tx = signed_transfer(&alice_key, bob, 250, 3);

    assert_eq!(
        match &tx {
            Transaction::Transfer(tx) => execute_transfer(tx, &config(), &state),
        },
        Err(TransferExecutionError::InvalidNonce {
            expected: 4,
            actual: 3,
        })
    );
}

#[test]
fn reject_transfer_for_another_chain_or_version() {
    let alice_key = secret_key(1);
    let bob = address_for(&secret_key(2));
    let tx = signed_tx(&alice_key, bob, 5, 0);
    let other_chain = ChainConfig {
        chain_id: ChainId::new(2),
        ..config()
    };
    let other_version = ChainConfig {
        chain_version: ChainVersion::new(9),
        ..config()
    };

    assert_eq!(
        verify_transfer_stateless(&tx, &other_chain),
        Err(TransferVerificationError::InvalidChainId {
            expected: ChainId::new(2),
            actual: ChainId::new(1),
        })
    );
    assert_eq!(
        verify_transfer_stateless(&tx, &other_version),
        Err(TransferVerificationError::InvalidChainVersion {
            expected: ChainVersion::new(9),
            actual: ChainVersion::new(1),
        })
    );
}

#[test]
fn reject_zero_amount_transfer() {
    let alice_key = secret_key(1);
    let bob = address_for(&secret_key(2));
    let tx = signed_tx(&alice_key, bob, 0, 0);

    assert_eq!(
        verify_transfer_stateless(&tx, &config()),
        Err(TransferVerificationError::ZeroAmount)
    );
    let state = state_with_accounts(&[(address_for(&alice_key), Account::new(1, 0))]);
    assert_eq!(
        Transaction::Transfer(tx).execute(&config(), &state),
        Err(TransactionExecutionError::Transfer(
            TransferExecutionError::VerificationError(TransferVerificationError::ZeroAmount)
        ))
    );
    assert_eq!(
        Transaction::Transfer(tx).verify_stateless(&config()),
        Err(TransactionVerificationError::Transfer(
            TransferVerificationError::ZeroAmount
        ))
    );
}

#[test]
fn reject_transfer_signed_by_someone_else() {
    let mallory_key = secret_key(3);
    let alice = address_for(&secret_key(1));
    let bob = address_for(&secret_key(2));
    let payload = TransferPayload::new(ChainId::new(1), ChainVersion::new(1), alice, bob, 5, 0);
    let mut signing_payload = Vec::new();
    payload.encode_signing_payload(&mut signing_payload);
    let tx = TxTransfer::new(payload, sign(&mallory_key, &signing_payload));

    assert_eq!(
        verify_transfer_stateless(&tx, &config()),
        Err(TransferVerificationError::InvalidSignature(
            VerificationError::FailedToVerify
        ))
    );
}

#[test]
fn reject_transfer_when_nonce_or_balance_would_overflow() {
    let alice_key = secret_key(1);
    let alice = address_for(&alice_key);
    let bob = address_for(&secret_key(2));
    let full_nonce = state_with_accounts(&[(alice, Account::new(10, u128::MAX))]);
    let tx = signed_tx(&alice_key, bob, 5, u128::MAX);
    assert_eq!(
        execute_transfer(&tx, &config(), &full_nonce),
        Err(TransferExecutionError::NonceOverflow)
    );

    let full_balance = state_with_accounts(&[
        (alice, Account::new(10, 0)),
        (bob, Account::new(u128::MAX - 4, 0)),
    ]);
    let tx = signed_tx(&alice_key, bob, 5, 0);
    assert_eq!(
        execute_transfer(&tx, &config(), &full_balance),
        Err(TransferExecutionError::BalanceOverflow)
    );
}

#[test]
fn transfer_keeps_total_balance() {
    let alice_key = secret_key(1);
    let alice = address_for(&alice_key);
    let bob = address_for(&secret_key(2));
    let carol = address_for(&secret_key(3));
    let mut state = state_with_accounts(&[
        (alice, Account::new(500, 0)),
        (bob, Account::new(20, 0)),
        (carol, Account::new(7, 4)),
    ]);
    let before = total_balance(&state);

    let delta = execute_transfer(&signed_tx(&alice_key, bob, 500, 0), &config(), &state).unwrap();
    assert_eq!(
        delta.account_updates().len(),
        2,
    );
    state.apply_delta(delta);

    assert_eq!(total_balance(&state), before);
    assert_eq!(state.get_account(&alice), Account::new(0, 1));
    assert_eq!(state.get_account(&bob), Account::new(520, 0));
}
