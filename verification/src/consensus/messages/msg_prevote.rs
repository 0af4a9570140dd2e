//! Prevotes: a validator's signed vote, at a height and round, for a proposal
//! or for none.
use vstd::prelude::*;
use crate::address::Address;
use crate::bytes::{array_of, lemma_array_of, lemma_subrange_of, push_bytes};
use crate::codec::{take_outcome, DecodeError, Decoder};
use crate::consensus::message_kind::{message_kind_byte, MessageKind};
use crate::consensus::messages::{
    lemma_vote_fields_len, lemma_vote_fields_roundtrip, parse_vote_fields, push_vote_fields,
    read_vote_fields, vote_fields_bytes, vote_fields_len, VoteFields,
};
use crate::crypto::{verify, verify_outcome, Signature, VerificationError};
use crate::transaction_kind::whole;

verus! {

/// What a validator signs when it prevotes.
#[derive(Debug, Clone, Copy, PartialEq, Eq, Hash)]
pub struct PrevotePayload {
    pub height: u128,
    pub round: u32,
    pub address: Address,
    pub proposal_hash: Option<crate::hash::Hash>,
}

/// The fields of a prevote payload.
pub open spec fn prevote_fields(p: PrevotePayload) -> VoteFields {
    (p.height, p.round, p.address, p.proposal_hash)
}

/// The bytes a validator signs when it prevotes: the prevote kind, then the fields.
pub open spec fn prevote_signing_bytes(p: PrevotePayload) -> Seq<u8> {
    seq![message_kind_byte(MessageKind::Prevote)] + vote_fields_bytes(prevote_fields(p))
}

impl PrevotePayload {
    pub fn new(
        height: u128,
        round: u32,
        address: Address,
        proposal_hash: Option<crate::hash::Hash>,
    ) -> (r: Self)
        ensures
            r == (PrevotePayload { height, round, address, proposal_hash }),
    {
        Self { height, round, address, proposal_hash }
    }

    pub fn signing_payload_len(&self) -> (r: usize)
        ensures
            r == prevote_signing_bytes(*self).len(),
    {
        proof {
            lemma_vote_fields_len(prevote_fields(*self));
        }
        let kind: usize = 1;
        let height: usize = 16;
        let round: usize = 4;
        let address: usize = 32;
        let proposal_hash_kind: usize = 1;
        let proposal_hash: usize = if self.proposal_hash.is_some() {
            32
        } else {
            0
        };
        kind + height + round + address + proposal_hash_kind + proposal_hash
    }

    pub fn encode_signing_payload(&self, out: &mut Vec<u8>)
        ensures
            final(out)@ == old(out)@ + prevote_signing_bytes(*self),
    {
        let ghost start = out@;
        MessageKind::Prevote.encode_canonical(out);
        push_vote_fields(out, self.height, self.round, &self.address, &self.proposal_hash);
        assert(out@ =~= start + prevote_signing_bytes(*self));
    }
}

/// A prevote: its payload and the validator's signature of it.
#[derive(Debug, Clone, Copy, PartialEq, Eq, Hash)]
pub struct MsgPrevote {
    pub payload: PrevotePayload,
    pub signature: Signature,
}

/// The canonical bytes of a prevote: its fields, then the signature.
pub open spec fn prevote_bytes(m: MsgPrevote) -> Seq<u8> {
    vote_fields_bytes(prevote_fields(m.payload)) + m.signature@
}

/// Reading a prevote at `pos`.
pub open spec fn parse_prevote(input: Seq<u8>, pos: int) -> Result<(MsgPrevote, int), DecodeError> {
    match parse_vote_fields(input, pos) {
        Err(e) => Err(e),
        Ok((v, p)) => match take_outcome(input, p, 64) {
            Err(e) => Err(e),
            Ok(s) => Ok(
                (
                    MsgPrevote {
                        payload: PrevotePayload {
                            height: v.0,
                            round: v.1,
                            address: v.2,
                            proposal_hash: v.3,
                        },
                        signature: Signature(array_of::<64>(s)),
                    },
                    p + 64,
                ),
            ),
        },
    }
}

/// Reading back the bytes of a prevote, wherever they stand, gives the prevote.
pub proof fn lemma_prevote_roundtrip(m: MsgPrevote, input: Seq<u8>, pos: int)
    requires
        0 <= pos,
        pos + prevote_bytes(m).len() <= input.len(),
        input.len() <= usize::MAX,
        input.subrange(pos, pos + prevote_bytes(m).len()) == prevote_bytes(m),
    ensures
        parse_prevote(input, pos) == Ok::<(MsgPrevote, int), DecodeError>(
            (m, pos + prevote_bytes(m).len()),
        ),
{
    let v = prevote_fields(m.payload);
    let n = vote_fields_len(v);
    let b = prevote_bytes(m);
    lemma_vote_fields_len(v);
    lemma_subrange_of(input, pos, n + 64, b, 0, n);
    assert(b.subrange(0, n) =~= vote_fields_bytes(v));
    lemma_vote_fields_roundtrip(v, input, pos);
    lemma_subrange_of(input, pos, n + 64, b, n, 64);
    assert(b.subrange(n, n + 64) =~= m.signature@);
    lemma_array_of::<64>(m.signature.0);
}

/// The outcome of checking a prevote's signature.
pub open spec fn prevote_signature_outcome(m: MsgPrevote) -> Result<(), VerificationError> {
    verify_outcome(m.payload.address@, m.signature@, prevote_signing_bytes(m.payload))
}

impl MsgPrevote {
    pub fn new(payload: PrevotePayload, signature: Signature) -> (r: Self)
        ensures
            r == (MsgPrevote { payload, signature }),
    {
        Self { payload, signature }
    }

    /// Checks that the signature is the validator's signature of the payload.
    pub fn verify_signature(&self) -> (r: Result<(), VerificationError>)
        ensures
            r == prevote_signature_outcome(*self),
    {
        let mut out: Vec<u8> = Vec::with_capacity(self.payload.signing_payload_len());
        self.payload.encode_signing_payload(&mut out);
        assert(out@ =~= prevote_signing_bytes(self.payload));
        verify(&self.payload.address, &self.signature, out.as_slice())
    }

    pub fn encoded_len(&self) -> (r: usize)
        ensures
            r == prevote_bytes(*self).len(),
    {
        proof {
            lemma_vote_fields_len(prevote_fields(self.payload));
        }
        let height: usize = 16;
        let round: usize = 4;
        let address: usize = 32;
        let proposal_hash_kind: usize = 1;
        let proposal_hash: usize = if self.payload.proposal_hash.is_some() {
            32
        } else {
            0
        };
        let signature: usize = 64;
        height + round + address + proposal_hash_kind + proposal_hash + signature
    }

    pub fn encode_canonical(&self, out: &mut Vec<u8>)
        ensures
            final(out)@ == old(out)@ + prevote_bytes(*self),
    {
        let ghost start = out@;
        push_vote_fields(
            out,
            self.payload.height,
            self.payload.round,
            &self.payload.address,
            &self.payload.proposal_hash,
        );
        push_bytes(out, self.signature.as_bytes().as_slice());
        assert(out@ =~= start + prevote_bytes(*self));
    }

    pub fn decode_canonical(input: &[u8]) -> (r: Result<Self, DecodeError>)
        ensures
            r == whole(parse_prevote(input@, 0), input@.len() as int),
    {
        let mut decoder = Decoder::new(input);
        let decoded = Self::decode_from(&mut decoder)?;
        decoder.finish()?;
        Ok(decoded)
    }

    pub fn decode_from(decoder: &mut Decoder) -> (r: Result<Self, DecodeError>)
        ensures
            final(decoder).data() == old(decoder).data(),
            match parse_prevote(old(decoder).data(), old(decoder).position()) {
                Ok((m, p)) => r == Ok::<MsgPrevote, DecodeError>(m) && final(decoder).position() == p,
                Err(e) => r == Err::<MsgPrevote, DecodeError>(e),
            },
    {
        let (height, round, address, proposal_hash) = read_vote_fields(decoder)?;
        let signature_bytes = decoder.read_fixed::<64>()?;
        proof {
            lemma_array_of::<64>(signature_bytes);
        }
        let signature = Signature::new(signature_bytes);
        Ok(Self::new(PrevotePayload::new(height, round, address, proposal_hash), signature))
    }
}

} // verus!
