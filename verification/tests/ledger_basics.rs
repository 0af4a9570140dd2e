use flexnet::account::Account;
use flexnet::address::Address;
use flexnet::chain_id::ChainId;
use flexnet::chain_version::ChainVersion;
use flexnet::codec::{DecodeError, Decoder};
use flexnet::crypto::{address_from_secret_key, sign, verify, SecretKey, Signature, VerificationError};
use flexnet::state::{InMemoryState, State, StateDelta, StateView, WritableState};
use flexnet::transaction::Transaction;
use flexnet::transaction_kind::TransactionKind;
use flexnet::transactions::tx_transfer::{TransferPayload, TxTransfer};

fn address(seed: u8) -> Address {
    Address::new([seed; 32])
}

#[test]
fn empty_account_detection_matches_balance_and_nonce() {
    assert!(Account::new(0, 0).is_empty());
    assert!(!Account::new(1, 0).is_empty());
    assert!(!Account::new(0, 1).is_empty());
}

#[test]
fn exposes_underlying_bytes() {
    let address = Address::new([3; 32]);

    assert_eq!(address.as_bytes(), &[3; 32]);
}

#[test]
fn displays_as_fixed_width_hex() {
    assert_eq!(ChainVersion::new(0x0011).to_string(), "0x0011");
}

#[test]
fn chain_id_displays_as_fixed_width_hex() {
    assert_eq!(ChainId::new(0xab).to_string(), "0x00ab");
    assert_eq!(ChainId::new(0xbeef).to_string(), "0xbeef");
    assert_eq!(ChainId::new(7).into_u16(), 7);
}

#[test]
fn decoder_reads_values_and_rejects_trailing_bytes() {
    let input = [7, 1, 0, 9, 0, 0, 0, 0, 0, 0, 0, 0, 0, 0, 0, 0, 0, 0, 0, 0];
    let mut decoder = Decoder::new(&input);

    assert_eq!(decoder.read_u8_le().unwrap(), 7);
    assert_eq!(decoder.read_u16_le().unwrap(), 1);
    assert_eq!(decoder.read_u128_le().unwrap(), 9);
    assert_eq!(
        decoder.finish(),
        Err(DecodeError::LengthExceeded {
            expected: 19,
            actual: input.len(),
        })
    );
}

#[test]
fn decoder_rejects_insufficient_input() {
    let mut decoder = Decoder::new(&[1, 2, 3]);

    assert_eq!(
        decoder.read_fixed::<4>(),
        Err(DecodeError::InsufficientInput)
    );
}

#[test]
fn decoder_reads_wider_integers_and_dynamic_runs() {
    let input = [1, 2, 3, 4, 5, 6, 7, 8, 9, 10, 11, 12, 13, 14];
    let mut decoder = Decoder::new(&input);

    assert_eq!(decoder.read_u32_le().unwrap(), 0x0403_0201);
    assert_eq!(decoder.read_u64_le().unwrap(), 0x0c0b_0a09_0807_0605);
    assert_eq!(decoder.read_dynamic(2).unwrap(), vec![13, 14]);
    assert_eq!(decoder.read_dynamic(1), Err(DecodeError::InsufficientInput));
    assert_eq!(decoder.finish(), Ok(()));
}

#[test]
fn transaction_kind_reads_only_known_bytes() {
    assert_eq!(TransactionKind::new(1), Some(TransactionKind::Transfer));
    assert_eq!(TransactionKind::new(2), None);
    assert_eq!(TransactionKind::decode_canonical(&[1]), Ok(TransactionKind::Transfer));
    assert_eq!(TransactionKind::decode_canonical(&[9]), Err(DecodeError::InvalidInput));
    assert_eq!(
        TransactionKind::decode_canonical(&[1, 0]),
        Err(DecodeError::LengthExceeded {
            expected: 1,
            actual: 2
        })
    );
}

#[test]
fn sign_and_verify_roundtrip() {
    let secret_key = SecretKey::new([7; 32]);
    let address = address_from_secret_key(&secret_key);
    let message = b"flexnet";
    let signature = sign(&secret_key, message);

    assert_eq!(verify(&address, &signature, message), Ok(()));
    assert_eq!(
        verify(&address, &signature, b"other-message"),
        Err(VerificationError::FailedToVerify)
    );
}

#[test]
fn signing_is_deterministic_and_keyed() {
    let a = SecretKey::new([7; 32]);
    let b = SecretKey::new([8; 32]);

    assert_eq!(sign(&a, b"m").as_bytes(), sign(&a, b"m").as_bytes());
    assert_ne!(sign(&a, b"m").as_bytes(), sign(&b, b"m").as_bytes());
    assert_ne!(address_from_secret_key(&a), address_from_secret_key(&b));
    assert_ne!(address_from_secret_key(&a).as_bytes(), a.as_bytes());
}

#[test]
fn verify_rejects_a_key_that_is_not_a_point() {
    let mut bytes = [0; 32];
    bytes[0] = 2;
    let not_a_key = Address::new(bytes);
    let signature = Signature::new([0; 64]);

    assert_eq!(
        verify(&not_a_key, &signature, b"flexnet"),
        Err(VerificationError::InvalidVerifyingKey)
    );
}

#[test]
fn transfer_roundtrips_and_verifies_signature() {
    let secret_key = SecretKey::new([1; 32]);
    let payload = TransferPayload::new(
        ChainId::new(1),
        ChainVersion::new(1),
        address_from_secret_key(&secret_key),
        Address::new([2; 32]),
        55,
        9,
    );
    let mut signing_payload = Vec::with_capacity(payload.signing_payload_len());
    payload.encode_signing_payload(&mut signing_payload);
    let tx = TxTransfer::new(payload, sign(&secret_key, &signing_payload));
    let mut encoded = Vec::with_capacity(tx.encoded_len());
    tx.encode_canonical(&mut encoded);

    let decoded = TxTransfer::decode_canonical(&encoded).unwrap();

    assert_eq!(decoded, tx);
    assert_eq!(decoded.verify_signature(), Ok(()));
}

#[test]
fn transfer_bytes_have_the_canonical_layout() {
    let payload = TransferPayload::new(
        ChainId::new(0x0102),
        ChainVersion::new(3),
        Address::new([4; 32]),
        Address::new([5; 32]),
        6,
        7,
    );
    let mut signing = Vec::new();
    payload.encode_signing_payload(&mut signing);
    assert_eq!(signing.len(), payload.signing_payload_len());
    assert_eq!(signing.len(), 101);
    assert_eq!(&signing[..5], &[1, 2, 1, 3, 0]);
    assert_eq!(signing[69], 6);
    assert_eq!(signing[85], 7);

    let tx = TxTransfer::new(payload, Signature::new([9; 64]));
    let transaction = Transaction::Transfer(tx);
    let mut encoded = Vec::new();
    transaction.encode_canonical(&mut encoded);
    assert_eq!(encoded.len(), 165);
    assert_eq!(transaction.encoded_len(), 165);
    assert_eq!(encoded[0], 1);
    assert_eq!(&encoded[1..5], &[2, 1, 3, 0]);
    assert_eq!(Transaction::decode_canonical(&encoded), Ok(transaction));

    let mut truncated = encoded.clone();
    truncated.pop();
    assert_eq!(
        Transaction::decode_canonical(&truncated),
        Err(DecodeError::InsufficientInput)
    );
    let mut wrong_kind = encoded.clone();
    wrong_kind[0] = 2;
    assert_eq!(
        Transaction::decode_canonical(&wrong_kind),
        Err(DecodeError::InvalidInput)
    );
}

#[test]
fn state_delta_starts_empty_and_tracks_updates() {
    let mut delta = StateDelta::new();

    assert!(delta.is_empty());

    delta.update_account(address(1), Account::new(8, 1));

    assert!(!delta.is_empty());
    assert_eq!(delta.account_updates().len(), 1);
}

#[test]
fn local_test_state_can_apply_delta() {
    let mut state = State::new(vec![
        (address(1), Account::new(10, 0)),
        (address(2), Account::new(5, 1)),
    ]);
    let mut delta = StateDelta::new();
    delta.update_account(address(1), Account::new(8, 1));
    delta.update_account(address(2), Account::new(0, 0));
    delta.update_account(address(3), Account::new(7, 0));

    state.apply_delta(delta);

    assert_eq!(state.get_account(&address(1)), Account::new(8, 1));
    assert_eq!(state.get_account(&address(2)), Account::new(0, 0));
    assert_eq!(state.get_account(&address(3)), Account::new(7, 0));
}

#[test]
fn state_keeps_rows_in_address_order_without_empty_accounts() {
    let state = State::new(vec![
        (address(3), Account::new(1, 0)),
        (address(1), Account::new(2, 0)),
        (address(2), Account::new(0, 0)),
        (address(3), Account::new(4, 0)),
    ]);

    assert_eq!(
        state.accounts(),
        &vec![
            (address(1), Account::new(2, 0)),
            (address(3), Account::new(4, 0)),
        ]
    );
    assert_eq!(state.all_accounts_in_order(), state.accounts().clone());
}

#[test]
fn later_updates_win_when_deltas_merge() {
    let mut first = StateDelta::new();
    first.update_account(address(1), Account::new(1, 0));
    first.update_account(address(2), Account::new(2, 0));
    let mut second = StateDelta::new();
    second.update_account(address(2), Account::new(20, 1));
    second.update_account(address(3), Account::new(30, 0));

    let merged = StateDelta::merge(first, second);

    assert_eq!(
        merged.into_account_updates(),
        vec![
            (address(1), Account::new(1, 0)),
            (address(2), Account::new(20, 1)),
            (address(3), Account::new(30, 0)),
        ]
    );
}

#[test]
fn applying_merged_deltas_matches_applying_them_in_turn() {
    let base = State::new(vec![
        (address(1), Account::new(5, 0)),
        (address(4), Account::new(9, 2)),
    ]);
    let mut first = StateDelta::new();
    first.update_account(address(1), Account::new(0, 0));
    first.update_account(address(2), Account::new(3, 0));
    let mut second = StateDelta::new();
    second.update_account(address(2), Account::new(6, 1));
    second.update_account(address(4), Account::new(1, 3));

    let mut in_turn = base.clone();
    in_turn.apply_delta(first.clone());
    in_turn.apply_delta(second.clone());
    let mut at_once = base.clone();
    at_once.apply_delta(StateDelta::merge(first, second));

    assert_eq!(in_turn, at_once);
}

#[test]
fn in_memory_state_keeps_empty_rows() {
    let mut state = InMemoryState::new();
    let mut delta = StateDelta::new();
    delta.update_account(address(2), Account::new(0, 0));
    delta.update_account(address(1), Account::new(3, 0));

    state.apply_delta(delta);

    assert_eq!(
        state.all_accounts_in_order(),
        vec![
            (address(1), Account::new(3, 0)),
            (address(2), Account::new(0, 0)),
        ]
    );
    assert_eq!(state.get_account(&address(9)), Account::new(0, 0));
}
