//! Transfers of balance from one address to another, signed by the sender.
use vstd::prelude::*;
use crate::address::Address;
use crate::bytes::{
    array_of, le_bytes, lemma_subrange_of, le_value, lemma_array_of, lemma_le_bytes_len, lemma_le_roundtrip,
    lemma_pow256_values, push_bytes, push_le,
};
use crate::chain_id::ChainId;
use crate::chain_version::ChainVersion;
use crate::codec::{take_outcome, uint_outcome, DecodeError, Decoder};
use crate::crypto::{verify, verify_outcome, Signature, VerificationError};
use crate::transaction_kind::{whole, TransactionKind};

verus! {

/// What the sender of a transfer signs.
#[derive(Debug, Clone, Copy, PartialEq, Eq, Hash)]
pub struct TransferPayload {
    pub chain_id: ChainId,
    pub chain_version: ChainVersion,
    pub from: Address,
    pub to: Address,
    pub amount: u128,
    pub nonce: u128,
}

/// The bytes the sender signs: the transfer kind, then the payload's fields.
pub open spec fn transfer_signing_bytes(p: TransferPayload) -> Seq<u8> {
    seq![1u8] + le_bytes(p.chain_id.0 as nat, 2) + le_bytes(p.chain_version.0 as nat, 2) + p.from@
        + p.to@ + le_bytes(p.amount as nat, 16) + le_bytes(p.nonce as nat, 16)
}

impl TransferPayload {
    pub fn new(
        chain_id: ChainId,
        chain_version: ChainVersion,
        from: Address,
        to: Address,
        amount: u128,
        nonce: u128,
    ) -> (r: Self)
        ensures
            r == (TransferPayload { chain_id, chain_version, from, to, amount, nonce }),
    {
        Self { chain_id, chain_version, from, to, amount, nonce }
    }

    pub fn signing_payload_len(&self) -> (r: usize)
        ensures
            r == transfer_signing_bytes(*self).len(),
    {
        proof {
            lemma_le_bytes_len(self.chain_id.0 as nat, 2);
            lemma_le_bytes_len(self.chain_version.0 as nat, 2);
            lemma_le_bytes_len(self.amount as nat, 16);
            lemma_le_bytes_len(self.nonce as nat, 16);
        }
        let kind: usize = 1;
        let chain_id: usize = 2;
        let chain_version: usize = 2;
        let from: usize = 32;
        let to: usize = 32;
        let amount: usize = 16;
        let nonce: usize = 16;
        kind + chain_id + chain_version + from + to + amount + nonce
    }

    pub fn encode_signing_payload(&self, out: &mut Vec<u8>)
        ensures
            final(out)@ == old(out)@ + transfer_signing_bytes(*self),
    {
        proof {
            lemma_pow256_values();
        }
        let ghost start = out@;
        TransactionKind::Transfer.encode_canonical(out);
        push_le(out, self.chain_id.into_u16() as u128, 2);
        push_le(out, self.chain_version.into_u16() as u128, 2);
        push_bytes(out, self.from.as_bytes().as_slice());
        push_bytes(out, self.to.as_bytes().as_slice());
        push_le(out, self.amount, 16);
        push_le(out, self.nonce, 16);
        assert(out@ =~= start + transfer_signing_bytes(*self));
    }
}

/// A transfer: its payload and the sender's signature of it.
#[derive(Debug, Clone, Copy, PartialEq, Eq, Hash)]
pub struct TxTransfer {
    pub payload: TransferPayload,
    pub signature: Signature,
}

/// The canonical bytes of a transfer.
pub open spec fn transfer_bytes(tx: TxTransfer) -> Seq<u8> {
    le_bytes(tx.payload.chain_id.0 as nat, 2) + le_bytes(tx.payload.chain_version.0 as nat, 2)
        + tx.payload.from@ + tx.payload.to@ + le_bytes(tx.payload.amount as nat, 16) + le_bytes(
        tx.payload.nonce as nat,
        16,
    ) + tx.signature@
}

/// Reading a transfer at `pos`.
pub open spec fn parse_transfer(input: Seq<u8>, pos: int) -> Result<(TxTransfer, int), DecodeError> {
    match uint_outcome(input, pos, 2) {
        Err(e) => Err(e),
        Ok((chain_id, p1)) => match uint_outcome(input, p1, 2) {
            Err(e) => Err(e),
            Ok((chain_version, p2)) => match take_outcome(input, p2, 32) {
                Err(e) => Err(e),
                Ok(from) => match take_outcome(input, p2 + 32, 32) {
                    Err(e) => Err(e),
                    Ok(to) => match uint_outcome(input, p2 + 64, 16) {
                        Err(e) => Err(e),
                        Ok((amount, p5)) => match uint_outcome(input, p5, 16) {
                            Err(e) => Err(e),
                            Ok((nonce, p6)) => match take_outcome(input, p6, 64) {
                                Err(e) => Err(e),
                                Ok(signature) => Ok(
                                    (
                                        TxTransfer {
                                            payload: TransferPayload {
                                                chain_id: ChainId(chain_id as u16),
                                                chain_version: ChainVersion(chain_version as u16),
                                                from: Address(array_of::<32>(from)),
                                                to: Address(array_of::<32>(to)),
                                                amount: amount as u128,
                                                nonce: nonce as u128,
                                            },
                                            signature: Signature(array_of::<64>(signature)),
                                        },
                                        p6 + 64,
                                    ),
                                ),
                            },
                        },
                    },
                },
            },
        },
    }
}

/// Reading back the bytes of a transfer, wherever they stand, gives the transfer.
pub proof fn lemma_transfer_roundtrip(tx: TxTransfer, input: Seq<u8>, pos: int)
    requires
        0 <= pos,
        pos + 164 <= input.len(),
        input.len() <= usize::MAX,
        input.subrange(pos, pos + 164) == transfer_bytes(tx),
    ensures
        parse_transfer(input, pos) == Ok::<(TxTransfer, int), DecodeError>((tx, pos + 164)),
{
    lemma_pow256_values();
    let p = tx.payload;
    lemma_le_roundtrip(p.chain_id.0 as nat, 2);
    lemma_le_roundtrip(p.chain_version.0 as nat, 2);
    lemma_le_roundtrip(p.amount as nat, 16);
    lemma_le_roundtrip(p.nonce as nat, 16);
    lemma_array_of::<32>(p.from.0);
    lemma_array_of::<32>(p.to.0);
    lemma_array_of::<64>(tx.signature.0);
    let b = transfer_bytes(tx);
    lemma_subrange_of(input, pos, 164, b, 0, 2);
    assert(b.subrange(0, 2) =~= le_bytes(p.chain_id.0 as nat, 2));
    lemma_subrange_of(input, pos, 164, b, 2, 2);
    assert(b.subrange(2, 4) =~= le_bytes(p.chain_version.0 as nat, 2));
    lemma_subrange_of(input, pos, 164, b, 4, 32);
    assert(b.subrange(4, 36) =~= p.from@);
    lemma_subrange_of(input, pos, 164, b, 36, 32);
    assert(b.subrange(36, 68) =~= p.to@);
    lemma_subrange_of(input, pos, 164, b, 68, 16);
    assert(b.subrange(68, 84) =~= le_bytes(p.amount as nat, 16));
    lemma_subrange_of(input, pos, 164, b, 84, 16);
    assert(b.subrange(84, 100) =~= le_bytes(p.nonce as nat, 16));
    lemma_subrange_of(input, pos, 164, b, 100, 64);
    assert(b.subrange(100, 164) =~= tx.signature@);
}

/// The outcome of checking a transfer's signature.
pub open spec fn transfer_signature_outcome(tx: TxTransfer) -> Result<(), VerificationError> {
    verify_outcome(tx.payload.from@, tx.signature@, transfer_signing_bytes(tx.payload))
}

impl TxTransfer {
    pub fn new(payload: TransferPayload, signature: Signature) -> (r: Self)
        ensures
            r == (TxTransfer { payload, signature }),
    {
        Self { payload, signature }
    }

    /// Checks that the signature is the sender's signature of the payload.
    pub fn verify_signature(&self) -> (r: Result<(), VerificationError>)
        ensures
            r == transfer_signature_outcome(*self),
    {
        let mut out: Vec<u8> = Vec::with_capacity(self.payload.signing_payload_len());
        self.payload.encode_signing_payload(&mut out);
        assert(out@ =~= transfer_signing_bytes(self.payload));
        verify(&self.payload.from, &self.signature, out.as_slice())
    }

    pub fn encoded_len(&self) -> (r: usize)
        ensures
            r == transfer_bytes(*self).len(),
            r == 164,
    {
        proof {
            lemma_le_bytes_len(self.payload.chain_id.0 as nat, 2);
            lemma_le_bytes_len(self.payload.chain_version.0 as nat, 2);
            lemma_le_bytes_len(self.payload.amount as nat, 16);
            lemma_le_bytes_len(self.payload.nonce as nat, 16);
        }
        let chain_id: usize = 2;
        let chain_version: usize = 2;
        let from: usize = 32;
        let to: usize = 32;
        let amount: usize = 16;
        let nonce: usize = 16;
        let signature: usize = 64;
        chain_id + chain_version + from + to + amount + nonce + signature
    }

    pub fn encode_canonical(&self, out: &mut Vec<u8>)
        ensures
            final(out)@ == old(out)@ + transfer_bytes(*self),
    {
        proof {
            lemma_pow256_values();
        }
        let ghost start = out@;
        push_le(out, self.payload.chain_id.into_u16() as u128, 2);
        push_le(out, self.payload.chain_version.into_u16() as u128, 2);
        push_bytes(out, self.payload.from.as_bytes().as_slice());
        push_bytes(out, self.payload.to.as_bytes().as_slice());
        push_le(out, self.payload.amount, 16);
        push_le(out, self.payload.nonce, 16);
        push_bytes(out, self.signature.as_bytes().as_slice());
        assert(out@ =~= start + transfer_bytes(*self));
    }

    pub fn decode_canonical(input: &[u8]) -> (r: Result<Self, DecodeError>)
        ensures
            r == whole(parse_transfer(input@, 0), input@.len() as int),
    {
        let mut decoder = Decoder::new(input);
        let decoded = Self::decode_from(&mut decoder)?;
        decoder.finish()?;
        Ok(decoded)
    }

    pub fn decode_from(decoder: &mut Decoder) -> (r: Result<Self, DecodeError>)
        ensures
            final(decoder).data() == old(decoder).data(),
            match parse_transfer(old(decoder).data(), old(decoder).position()) {
                Ok((t, p)) => r == Ok::<TxTransfer, DecodeError>(t) && final(decoder).position() == p,
                Err(e) => r == Err::<TxTransfer, DecodeError>(e),
            },
    {
        let chain_id = ChainId::new(decoder.read_u16_le()?);
        let chain_version = ChainVersion::new(decoder.read_u16_le()?);
        let from_bytes = decoder.read_fixed::<32>()?;
        let to_bytes = decoder.read_fixed::<32>()?;
        let amount = decoder.read_u128_le()?;
        let nonce = decoder.read_u128_le()?;
        let signature_bytes = decoder.read_fixed::<64>()?;
        proof {
            lemma_array_of::<32>(from_bytes);
            lemma_array_of::<32>(to_bytes);
            lemma_array_of::<64>(signature_bytes);
        }
        let from = Address::new(from_bytes);
        let to = Address::new(to_bytes);
        let signature = Signature::new(signature_bytes);
        Ok(Self::new(TransferPayload::new(chain_id, chain_version, from, to, amount, nonce), signature))
    }
}

} // verus!
