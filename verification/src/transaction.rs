//! Transactions: what a block carries.
use vstd::prelude::*;
use crate::address::same_address;
use crate::bytes::lemma_subrange_of;
use crate::crypto::same_signature;
use crate::chain_config::ChainConfig;
use crate::codec::{DecodeError, Decoder};
use crate::entries::Entry;
use crate::rules::rule_transfer::{
    apply_transfer, execute_transfer, transfer_application, transfer_execution,
    transfer_verification, verify_transfer_stateless, TransferExecutionError,
    TransferVerificationError,
};
use crate::state::{StateDelta, StateView};
use crate::transaction_kind::{kind_byte, parse_kind, whole, TransactionKind};
use crate::transactions::tx_transfer::{
    lemma_transfer_roundtrip, parse_transfer, transfer_bytes, TxTransfer,
};

verus! {

#[derive(Debug, Clone, Copy, PartialEq, Eq, Hash)]
pub enum Transaction {
    Transfer(TxTransfer),
}

#[derive(Debug, Clone, Copy, PartialEq, Eq)]
pub enum TransactionVerificationError {
    Transfer(TransferVerificationError),
}

#[derive(Debug, Clone, Copy, PartialEq, Eq)]
pub enum TransactionExecutionError {
    Transfer(TransferExecutionError),
}

/// The canonical bytes of a transaction: its kind, then its body.
pub open spec fn transaction_bytes(t: Transaction) -> Seq<u8> {
    match t {
        Transaction::Transfer(tx) => seq![1u8] + transfer_bytes(tx),
    }
}

/// Reading a transaction at `pos`.
pub open spec fn parse_transaction(input: Seq<u8>, pos: int) -> Result<(Transaction, int), DecodeError> {
    match parse_kind(input, pos) {
        Err(e) => Err(e),
        Ok((TransactionKind::Transfer, p)) => match parse_transfer(input, p) {
            Err(e) => Err(e),
            Ok((tx, q)) => Ok((Transaction::Transfer(tx), q)),
        },
    }
}

/// The checks a transaction must pass whatever the state.
pub open spec fn transaction_verification(t: Transaction, config: ChainConfig) -> Result<
    (),
    TransactionVerificationError,
> {
    match t {
        Transaction::Transfer(tx) => match transfer_verification(tx, config) {
            Err(e) => Err(TransactionVerificationError::Transfer(e)),
            Ok(()) => Ok(()),
        },
    }
}

/// The change a transaction makes to the state whose rows are `entries`, or why it is refused.
pub open spec fn transaction_execution(t: Transaction, config: ChainConfig, entries: Seq<Entry>) -> Result<
    Seq<Entry>,
    TransactionExecutionError,
> {
    match t {
        Transaction::Transfer(tx) => match transfer_execution(tx, config, entries) {
            Err(e) => Err(TransactionExecutionError::Transfer(e)),
            Ok(d) => Ok(d),
        },
    }
}

/// What a transaction that passed its checks does to the state whose rows are
/// `entries`.
pub open spec fn transaction_application(t: Transaction, entries: Seq<Entry>) -> Result<
    Seq<Entry>,
    TransactionExecutionError,
> {
    match t {
        Transaction::Transfer(tx) => match transfer_application(tx, entries) {
            Err(e) => Err(TransactionExecutionError::Transfer(e)),
            Ok(d) => Ok(d),
        },
    }
}

/// Reading back the bytes of a transaction, wherever they stand, gives the transaction.
pub proof fn lemma_transaction_roundtrip(t: Transaction, input: Seq<u8>, pos: int)
    requires
        0 <= pos,
        pos + 165 <= input.len(),
        input.len() <= usize::MAX,
        input.subrange(pos, pos + 165) == transaction_bytes(t),
    ensures
        parse_transaction(input, pos) == Ok::<(Transaction, int), DecodeError>((t, pos + 165)),
{
    match t {
        Transaction::Transfer(tx) => {
            let b = transaction_bytes(t);
            crate::bytes::lemma_le_bytes_len(tx.payload.chain_id.0 as nat, 2);
            crate::bytes::lemma_le_bytes_len(tx.payload.chain_version.0 as nat, 2);
            crate::bytes::lemma_le_bytes_len(tx.payload.amount as nat, 16);
            crate::bytes::lemma_le_bytes_len(tx.payload.nonce as nat, 16);
            assert(transfer_bytes(tx).len() == 164);
            lemma_subrange_of(input, pos, 165, b, 0, 1);
            assert(b.subrange(0, 1) =~= seq![1u8]);
            lemma_subrange_of(input, pos, 165, b, 1, 164);
            assert(b.subrange(1, 165) =~= transfer_bytes(tx));
            assert(crate::bytes::le_value(seq![1u8]) == 1) by {
                reveal_with_fuel(crate::bytes::le_value, 2);
                assert(seq![1u8].drop_first() =~= Seq::<u8>::empty());
            }
            lemma_transfer_roundtrip(tx, input, pos + 1);
        },
    }
}

impl Transaction {
    pub fn kind(&self) -> (r: TransactionKind)
        ensures
            r == TransactionKind::Transfer,
    {
        match self {
            Transaction::Transfer(_) => TransactionKind::Transfer,
        }
    }

    pub fn encoded_len(&self) -> (r: usize)
        ensures
            r == transaction_bytes(*self).len(),
            r == 165,
    {
        let kind: usize = 1;
        let tx = match self {
            Transaction::Transfer(tx) => tx.encoded_len(),
        };
        kind + tx
    }

    pub fn encode_canonical(&self, out: &mut Vec<u8>)
        ensures
            final(out)@ == old(out)@ + transaction_bytes(*self),
    {
        let ghost start = out@;
        self.kind().encode_canonical(out);
        match self {
            Transaction::Transfer(tx) => {
                tx.encode_canonical(out);
                assert(out@ =~= start + transaction_bytes(*self));
            },
        }
    }

    pub fn decode_canonical(input: &[u8]) -> (r: Result<Self, DecodeError>)
        ensures
            r == whole(parse_transaction(input@, 0), input@.len() as int),
    {
        let mut decoder = Decoder::new(input);
        let decoded = Self::decode_from(&mut decoder)?;
        decoder.finish()?;
        Ok(decoded)
    }

    pub fn decode_from(decoder: &mut Decoder) -> (r: Result<Self, DecodeError>)
        ensures
            final(decoder).data() == old(decoder).data(),
            match parse_transaction(old(decoder).data(), old(decoder).position()) {
                Ok((t, p)) => r == Ok::<Transaction, DecodeError>(t) && final(decoder).position() == p,
                Err(e) => r == Err::<Transaction, DecodeError>(e),
            },
    {
        let kind = TransactionKind::decode_from(decoder)?;
        let transaction = match kind {
            TransactionKind::Transfer => Self::Transfer(TxTransfer::decode_from(decoder)?),
        };
        Ok(transaction)
    }

    pub fn verify_stateless(&self, config: &ChainConfig) -> (r: Result<(), TransactionVerificationError>)
        ensures
            r == transaction_verification(*self, *config),
    {
        match self {
            Transaction::Transfer(tx) => match verify_transfer_stateless(tx, config) {
                Err(e) => Err(TransactionVerificationError::Transfer(e)),
                Ok(()) => Ok(()),
            },
        }
    }

    /// Applies a transaction that passed its checks to `state`.
    pub(crate) fn apply_verified<S: StateView>(&self, state: &S) -> (r: Result<
        StateDelta,
        TransactionExecutionError,
    >)
        requires
            state.wf(),
        ensures
            match transaction_application(*self, state.entries()) {
                Ok(d) => r matches Ok(delta) && delta@ == d && delta.wf(),
                Err(e) => r matches Err(err) && err == e,
            },
    {
        match self {
            Transaction::Transfer(tx) => match apply_transfer(tx, state) {
                Err(e) => Err(TransactionExecutionError::Transfer(e)),
                Ok(d) => Ok(d),
            },
        }
    }

    pub fn execute<S: StateView>(&self, config: &ChainConfig, state: &S) -> (r: Result<
        StateDelta,
        TransactionExecutionError,
    >)
        requires
            state.wf(),
        ensures
            match transaction_execution(*self, *config, state.entries()) {
                Ok(d) => r matches Ok(delta) && delta@ == d && delta.wf(),
                Err(e) => r matches Err(err) && err == e,
            },
    {
        match self {
            Transaction::Transfer(tx) => match execute_transfer(tx, config, state) {
                Err(e) => Err(TransactionExecutionError::Transfer(e)),
                Ok(d) => Ok(d),
            },
        }
    }
}

/// Whether two transactions are the same.
pub fn same_transaction(a: &Transaction, b: &Transaction) -> (r: bool)
    ensures
        r <==> *a == *b,
{
    match (a, b) {
        (Transaction::Transfer(x), Transaction::Transfer(y)) => {
            let p = &x.payload;
            let q = &y.payload;
            p.chain_id == q.chain_id && p.chain_version == q.chain_version && same_address(
                &p.from,
                &q.from,
            ) && same_address(&p.to, &q.to) && p.amount == q.amount && p.nonce == q.nonce
                && same_signature(&x.signature, &y.signature)
        },
    }
}

} // verus!
