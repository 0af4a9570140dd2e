//! Precommits: a validator's signed commitment, at a height and round, to a proposal
//! or to none.
use vstd::prelude::*;
use crate::address::Address;
use crate::bytes::{array_of, lemma_array_of, lemma_subrange_of, push_bytes};
use crate::codec::{take_outcome, DecodeError, Decoder};
use crate::consensus::message_kind::{message_kind_byte, MessageKind};
use crate::consensus::messages::{
    lemma_vote_fields_len, lemma_vote_fields_roundtrip, parse_vote_fields, push_vote_fields,
    read_vote_fields, vote_fields_bytes, vote_fields_len, VoteFields,
};
use crate::crypto::{verify, verify_outcome, Signature, VerificationError};
use crate::transaction_kind::whole;

verus! {

/// What a validator signs when it precommits.
#[derive(Debug, Clone, Copy, PartialEq, Eq, Hash)]
pub struct PrecommitPayload {
    pub height: u128,
    pub round: u32,
    pub address: Address,
    pub proposal_hash: Option<crate::hash::Hash>,
}

/// The fields of a precommit payload.
pub open spec fn precommit_fields(p: PrecommitPayload) -> VoteFields {
    (p.height, p.round, p.address, p.proposal_hash)
}

/// The bytes a validator signs when it precommits: the precommit kind, then the fields.
pub open spec fn precommit_signing_bytes(p: PrecommitPayload) -> Seq<u8> {
    seq![message_kind_byte(MessageKind::Precommit)] + vote_fields_bytes(precommit_fields(p))
}

impl PrecommitPayload {
    pub fn new(
        height: u128,
        round: u32,
        address: Address,
        proposal_hash: Option<crate::hash::Hash>,
    ) -> (r: Self)
        ensures
            r == (PrecommitPayload { height, round, address, proposal_hash }),
    {
        Self { height, round, address, proposal_hash }
    }

    pub fn signing_payload_len(&self) -> (r: usize)
        ensures
            r == precommit_signing_bytes(*self).len(),
    {
        proof {
            lemma_vote_fields_len(precommit_fields(*self));
        }
        let kind: usize = 1;
        let height: usize = 16;
        let round: usize = 4;
        let address: usize = 32;
        let proposal_hash_kind: usize = 1;
        let proposal_hash: usize = if self.proposal_hash.is_some() {
            32
        } else {
            0
        };
        kind + height + round + address + proposal_hash_kind + proposal_hash
    }

    pub fn encode_signing_payload(&self, out: &mut Vec<u8>)
        ensures
            final(out)@ == old(out)@ + precommit_signing_bytes(*self),
    {
        let ghost start = out@;
        MessageKind::Precommit.encode_canonical(out);
        push_vote_fields(out, self.height, self.round, &self.address, &self.proposal_hash);
        assert(out@ =~= start + precommit_signing_bytes(*self));
    }
}

/// A precommit: its payload and the validator's signature of it.
#[derive(Debug, Clone, Copy, PartialEq, Eq, Hash)]
pub struct MsgPrecommit {
    pub payload: PrecommitPayload,
    pub signature: Signature,
}

/// The canonical bytes of a precommit: its fields, then the signature.
pub open spec fn precommit_bytes(m: MsgPrecommit) -> Seq<u8> {
    vote_fields_bytes(precommit_fields(m.payload)) + m.signature@
}

/// Reading a precommit at `pos`.
pub open spec fn parse_precommit(input: Seq<u8>, pos: int) -> Result<(MsgPrecommit, int), DecodeError> {
    match parse_vote_fields(input, pos) {
        Err(e) => Err(e),
        Ok((v, p)) => match take_outcome(input, p, 64) {
            Err(e) => Err(e),
            Ok(s) => Ok(
                (
                    MsgPrecommit {
                        payload: PrecommitPayload {
                            height: v.0,
                            round: v.1,
                            address: v.2,
                            proposal_hash: v.3,
                        },
                        signature: Signature(array_of::<64>(s)),
                    },
                    p + 64,
                ),
            ),
        },
    }
}

/// Reading back the bytes of a precommit, wherever they stand, gives the precommit.
pub proof fn lemma_precommit_roundtrip(m: MsgPrecommit, input: Seq<u8>, pos: int)
    requires
        0 <= pos,
        pos + precommit_bytes(m).len() <= input.len(),
        input.len() <= usize::MAX,
        input.subrange(pos, pos + precommit_bytes(m).len()) == precommit_bytes(m),
    ensures
        parse_precommit(input, pos) == Ok::<(MsgPrecommit, int), DecodeError>(
            (m, pos + precommit_bytes(m).len()),
        ),
{
    let v = precommit_fields(m.payload);
    let n = vote_fields_len(v);
    let b = precommit_bytes(m);
    lemma_vote_fields_len(v);
    lemma_subrange_of(input, pos, n + 64, b, 0, n);
    assert(b.subrange(0, n) =~= vote_fields_bytes(v));
    lemma_vote_fields_roundtrip(v, input, pos);
    lemma_subrange_of(input, pos, n + 64, b, n, 64);
    assert(b.subrange(n, n + 64) =~= m.signature@);
    lemma_array_of::<64>(m.signature.0);
}

/// The outcome of checking a precommit's signature.
pub open spec fn precommit_signature_outcome(m: MsgPrecommit) -> Result<(), VerificationError> {
    verify_outcome(m.payload.address@, m.signature@, precommit_signing_bytes(m.payload))
}

impl MsgPrecommit {
    pub fn new(payload: PrecommitPayload, signature: Signature) -> (r: Self)
        ensures
            r == (MsgPrecommit { payload, signature }),
    {
        Self { payload, signature }
    }

    /// Checks that the signature is the validator's signature of the payload.
    pub fn verify_signature(&self) -> (r: Result<(), VerificationError>)
        ensures
            r == precommit_signature_outcome(*self),
    {
        let mut out: Vec<u8> = Vec::with_capacity(self.payload.signing_payload_len());
        self.payload.encode_signing_payload(&mut out);
        assert(out@ =~= precommit_signing_bytes(self.payload));
        verify(&self.payload.address, &self.signature, out.as_slice())
    }

    pub fn encoded_len(&self) -> (r: usize)
        ensures
            r == precommit_bytes(*self).len(),
    {
        proof {
            lemma_vote_fields_len(precommit_fields(self.payload));
        }
        let height: usize = 16;
        let round: usize = 4;
        let address: usize = 32;
        let proposal_hash_kind: usize = 1;
        let proposal_hash: usize = if self.payload.proposal_hash.is_some() {
            32
        } else {
            0
        };
        let signature: usize = 64;
        height + round + address + proposal_hash_kind + proposal_hash + signature
    }

    pub fn encode_canonical(&self, out: &mut Vec<u8>)
        ensures
            final(out)@ == old(out)@ + precommit_bytes(*self),
    {
        let ghost start = out@;
        push_vote_fields(
            out,
            self.payload.height,
            self.payload.round,
            &self.payload.address,
            &self.payload.proposal_hash,
        );
        push_bytes(out, self.signature.as_bytes().as_slice());
        assert(out@ =~= start + precommit_bytes(*self));
    }

    pub fn decode_canonical(input: &[u8]) -> (r: Result<Self, DecodeError>)
        ensures
            r == whole(parse_precommit(input@, 0), input@.len() as int),
    {
        let mut decoder = Decoder::new(input);
        let decoded = Self::decode_from(&mut decoder)?;
        decoder.finish()?;
        Ok(decoded)
    }

    pub fn decode_from(decoder: &mut Decoder) -> (r: Result<Self, DecodeError>)
        ensures
            final(decoder).data() == old(decoder).data(),
            match parse_precommit(old(decoder).data(), old(decoder).position()) {
                Ok((m, p)) => r == Ok::<MsgPrecommit, DecodeError>(m) && final(decoder).position() == p,
                Err(e) => r == Err::<MsgPrecommit, DecodeError>(e),
            },
    {
        let (height, round, address, proposal_hash) = read_vote_fields(decoder)?;
        let signature_bytes = decoder.read_fixed::<64>()?;
        proof {
            lemma_array_of::<64>(signature_bytes);
        }
        let signature = Signature::new(signature_bytes);
        Ok(Self::new(PrecommitPayload::new(height, round, address, proposal_hash), signature))
    }
}

} // verus!
