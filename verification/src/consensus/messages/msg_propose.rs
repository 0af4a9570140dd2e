//! Proposals: the proposer's signed block for a height and round, with the prevotes
//! that justify re-proposing a block locked in an earlier round.
use vstd::prelude::*;
use crate::address::Address;
use crate::block::{block_bytes, lemma_block_roundtrip_at, parse_block, Block, BlockModel};
use crate::bytes::{
    array_of, le_bytes, le_value, lemma_array_of, lemma_le_bytes_len, lemma_le_roundtrip,
    lemma_pow256_values, lemma_subrange_of, push_bytes, push_le,
};
use crate::codec::{take_outcome, uint_outcome, DecodeError, Decoder};
use crate::consensus::message_kind::{message_kind_byte, MessageKind};
use crate::crypto::{verify, verify_outcome, Signature, VerificationError};
use crate::hash::{block_hash_value, compute_block_hash};
use crate::transaction_kind::whole;

verus! {

/// What a proposer signs when it proposes.
#[derive(Debug, Clone, PartialEq, Eq, Hash)]
pub struct ProposePayload {
    pub height: u128,
    pub round: u32,
    pub address: Address,
    pub proposal: Block,
    pub justification: Option<ProposeJustificationPayload>,
}

/// The prevotes that a proposal was voted for in an earlier round.
#[derive(Debug, Clone, PartialEq, Eq, Hash)]
pub struct ProposeJustificationPayload {
    pub height: u128,
    pub round: u32,
    pub proposal_hash: crate::hash::Hash,
    pub evidences: Vec<ProposeEvidencePayload>,
}

/// One prevote of a justification: the voter and its signature.
#[derive(Debug, Clone, Copy, PartialEq, Eq, Hash)]
pub struct ProposeEvidencePayload {
    pub address: Address,
    pub signature: Signature,
}

/// A justification as a mathematical value.
pub struct ProposeJustificationModel {
    pub height: u128,
    pub round: u32,
    pub proposal_hash: crate::hash::Hash,
    pub evidences: Seq<ProposeEvidencePayload>,
}

/// A propose payload as a mathematical value.
pub struct ProposePayloadModel {
    pub height: u128,
    pub round: u32,
    pub address: Address,
    pub proposal: BlockModel,
    pub justification: Option<ProposeJustificationModel>,
}

/// A proposal as a mathematical value.
pub struct MsgProposeModel {
    pub payload: ProposePayloadModel,
    pub signature: Signature,
}

impl View for ProposeJustificationPayload {
    type V = ProposeJustificationModel;

    open spec fn view(&self) -> ProposeJustificationModel {
        ProposeJustificationModel {
            height: self.height,
            round: self.round,
            proposal_hash: self.proposal_hash,
            evidences: self.evidences@,
        }
    }
}

impl View for ProposePayload {
    type V = ProposePayloadModel;

    open spec fn view(&self) -> ProposePayloadModel {
        ProposePayloadModel {
            height: self.height,
            round: self.round,
            address: self.address,
            proposal: self.proposal@,
            justification: match self.justification {
                Some(j) => Some(j@),
                None => None,
            },
        }
    }
}

/// The bytes of one piece of evidence: the voter's address, then its signature.
pub open spec fn evidence_bytes(e: ProposeEvidencePayload) -> Seq<u8> {
    e.address@ + e.signature@
}

/// The bytes of a list of evidence, one after the other.
pub open spec fn evidences_bytes(s: Seq<ProposeEvidencePayload>) -> Seq<u8>
    decreases s.len(),
{
    if s.len() == 0 {
        Seq::empty()
    } else {
        evidence_bytes(s[0]) + evidences_bytes(s.drop_first())
    }
}

pub proof fn lemma_evidences_bytes_push(s: Seq<ProposeEvidencePayload>, e: ProposeEvidencePayload)
    ensures
        evidences_bytes(s.push(e)) == evidences_bytes(s) + evidence_bytes(e),
    decreases s.len(),
{
    if s.len() == 0 {
        let t = Seq::<ProposeEvidencePayload>::empty();
        assert(s.push(e).drop_first() =~= t);
        assert(evidences_bytes(t) == Seq::<u8>::empty());
        assert(evidences_bytes(s) == Seq::<u8>::empty());
        assert(evidences_bytes(s.push(e)) == evidence_bytes(e) + evidences_bytes(t));
        assert(evidences_bytes(s.push(e)) =~= evidence_bytes(e));
    } else {
        assert(s.push(e).drop_first() =~= s.drop_first().push(e));
        lemma_evidences_bytes_push(s.drop_first(), e);
        assert(evidences_bytes(s.push(e)) =~= evidences_bytes(s) + evidence_bytes(e));
    }
}

pub proof fn lemma_evidences_bytes_len(s: Seq<ProposeEvidencePayload>)
    ensures
        evidences_bytes(s).len() == 96 * s.len(),
    decreases s.len(),
{
    if s.len() > 0 {
        lemma_evidences_bytes_len(s.drop_first());
    }
}

/// The bytes of a justification: height, round, proposal hash, the number of
/// evidences in two bytes, then the evidences.
pub open spec fn justification_bytes(j: ProposeJustificationModel) -> Seq<u8> {
    le_bytes(j.height as nat, 16) + le_bytes(j.round as nat, 4) + j.proposal_hash@ + le_bytes(
        j.evidences.len(),
        2,
    ) + evidences_bytes(j.evidences)
}

/// The bytes of an optional justification: a flag byte, then the justification when
/// there is one.
pub open spec fn justification_option_bytes(j: Option<ProposeJustificationModel>) -> Seq<u8> {
    match j {
        Some(j) => seq![1u8] + justification_bytes(j),
        None => seq![0u8],
    }
}

/// The bytes a proposer signs: the propose kind, height, round, its address, the hash
/// of the proposed block and the optional justification.
pub open spec fn propose_signing_bytes(p: ProposePayloadModel) -> Seq<u8> {
    seq![message_kind_byte(MessageKind::Propose)] + le_bytes(p.height as nat, 16) + le_bytes(
        p.round as nat,
        4,
    ) + p.address@ + block_hash_value(p.proposal)@ + justification_option_bytes(p.justification)
}

/// Whether the payload can be signed: the block's transactions and the evidences can
/// each be counted in two bytes.
pub open spec fn payload_countable(p: ProposePayloadModel) -> bool {
    &&& p.proposal.transactions.len() <= 0xffff
    &&& p.justification matches Some(j) ==> j.evidences.len() <= 0xffff
}

impl ProposeEvidencePayload {
    pub fn new(address: Address, signature: Signature) -> (r: Self)
        ensures
            r == (ProposeEvidencePayload { address, signature }),
    {
        Self { address, signature }
    }

    pub fn signing_payload_len(&self) -> (r: usize)
        ensures
            r == evidence_bytes(*self).len(),
            r == 96,
    {
        let address: usize = 32;
        let signature: usize = 64;
        address + signature
    }

    pub fn encode_signing_payload(&self, out: &mut Vec<u8>)
        ensures
            final(out)@ == old(out)@ + evidence_bytes(*self),
    {
        let ghost start = out@;
        push_bytes(out, self.address.as_bytes().as_slice());
        push_bytes(out, self.signature.as_bytes().as_slice());
        assert(out@ =~= start + evidence_bytes(*self));
    }
}

impl ProposeJustificationPayload {
    pub fn new(
        height: u128,
        round: u32,
        proposal_hash: crate::hash::Hash,
        evidences: Vec<ProposeEvidencePayload>,
    ) -> (r: Self)
        ensures
            r.height == height,
            r.round == round,
            r.proposal_hash == proposal_hash,
            r.evidences == evidences,
    {
        Self { height, round, proposal_hash, evidences }
    }

    pub fn signing_payload_len(&self) -> (r: usize)
        requires
            54 + 96 * self.evidences@.len() <= usize::MAX,
        ensures
            r == justification_bytes(self@).len(),
    {
        proof {
            crate::bytes::lemma_le_bytes_len(self.height as nat, 16);
            crate::bytes::lemma_le_bytes_len(self.round as nat, 4);
            crate::bytes::lemma_le_bytes_len(self.evidences@.len(), 2);
            lemma_evidences_bytes_len(self.evidences@);
        }
        let height: usize = 16;
        let round: usize = 4;
        let proposal_hash: usize = 32;
        let evidences_len: usize = 2;
        let mut evidences: usize = 0;
        let mut i: usize = 0;
        while i < self.evidences.len()
            invariant
                i <= self.evidences@.len(),
                evidences == 96 * i,
                54 + 96 * self.evidences@.len() <= usize::MAX,
            decreases self.evidences@.len() - i,
        {
            evidences = evidences + self.evidences[i].signing_payload_len();
            i = i + 1;
        }
        height + round + proposal_hash + evidences_len + evidences
    }

    pub fn encode_signing_payload(&self, out: &mut Vec<u8>)
        requires
            self.evidences@.len() <= 0xffff,
        ensures
            final(out)@ == old(out)@ + justification_bytes(self@),
    {
        proof {
            lemma_pow256_values();
        }
        let ghost start = out@;
        push_le(out, self.height, 16);
        push_le(out, self.round as u128, 4);
        push_bytes(out, self.proposal_hash.as_bytes().as_slice());
        push_le(out, self.evidences.len() as u128, 2);
        let ghost header = out@;
        let mut i: usize = 0;
        while i < self.evidences.len()
            invariant
                i <= self.evidences@.len(),
                out@ == header + evidences_bytes(self.evidences@.take(i as int)),
            decreases self.evidences@.len() - i,
        {
            self.evidences[i].encode_signing_payload(out);
            proof {
                assert(self.evidences@.take(i + 1) =~= self.evidences@.take(i as int).push(
                    self.evidences@[i as int],
                ));
                lemma_evidences_bytes_push(
                    self.evidences@.take(i as int),
                    self.evidences@[i as int],
                );
            }
            i = i + 1;
        }
        assert(self.evidences@.take(self.evidences@.len() as int) =~= self.evidences@);
        assert(out@ =~= start + justification_bytes(self@));
    }
}

/// Appends the bytes of an optional justification.
fn push_justification_option(out: &mut Vec<u8>, justification: &Option<ProposeJustificationPayload>)
    requires
        justification matches Some(j) ==> j.evidences@.len() <= 0xffff,
    ensures
        final(out)@ == old(out)@ + justification_option_bytes(
            match *justification {
                Some(j) => Some(j@),
                None => None,
            },
        ),
{
    let ghost start = out@;
    match justification {
        Some(j) => {
            out.push(1u8);
            j.encode_signing_payload(out);
            assert(out@ =~= start + (seq![1u8] + justification_bytes(j@)));
        },
        None => {
            out.push(0u8);
            assert(out@ =~= start + seq![0u8]);
        },
    }
}

impl ProposePayload {
    pub fn new(
        height: u128,
        round: u32,
        address: Address,
        proposal: Block,
        justification: Option<ProposeJustificationPayload>,
    ) -> (r: Self)
        ensures
            r.height == height,
            r.round == round,
            r.address == address,
            r.proposal == proposal,
            r.justification == justification,
    {
        Self { height, round, address, proposal, justification }
    }

    pub fn signing_payload_len(&self) -> (r: usize)
        requires
            self.justification matches Some(j) ==> 54 + 96 * j.evidences@.len() <= usize::MAX - 86,
        ensures
            r == propose_signing_bytes(self@).len(),
    {
        proof {
            crate::bytes::lemma_le_bytes_len(self.height as nat, 16);
            crate::bytes::lemma_le_bytes_len(self.round as nat, 4);
            if let Some(j) = &self.justification {
                crate::bytes::lemma_le_bytes_len(j.height as nat, 16);
                crate::bytes::lemma_le_bytes_len(j.round as nat, 4);
                crate::bytes::lemma_le_bytes_len(j.evidences@.len(), 2);
                lemma_evidences_bytes_len(j.evidences@);
            }
        }
        let kind: usize = 1;
        let height: usize = 16;
        let round: usize = 4;
        let address: usize = 32;
        let proposal_hash: usize = 32;
        let justification_option: usize = 1;
        let justification: usize = match &self.justification {
            Some(justification) => justification.signing_payload_len(),
            None => 0,
        };
        kind + height + round + address + proposal_hash + justification_option + justification
    }

    pub fn encode_signing_payload(&self, out: &mut Vec<u8>)
        requires
            payload_countable(self@),
        ensures
            final(out)@ == old(out)@ + propose_signing_bytes(self@),
    {
        proof {
            lemma_pow256_values();
        }
        let ghost start = out@;
        MessageKind::Propose.encode_canonical(out);
        push_le(out, self.height, 16);
        push_le(out, self.round as u128, 4);
        push_bytes(out, self.address.as_bytes().as_slice());
        let proposal_hash = compute_block_hash(&self.proposal);
        push_bytes(out, proposal_hash.as_bytes().as_slice());
        push_justification_option(out, &self.justification);
        assert(out@ =~= start + propose_signing_bytes(self@));
    }
}

/// A proposal: its payload and the proposer's signature of it.
#[derive(Debug, Clone, PartialEq, Eq, Hash)]
pub struct MsgPropose {
    pub payload: ProposePayload,
    pub signature: Signature,
}

impl View for MsgPropose {
    type V = MsgProposeModel;

    open spec fn view(&self) -> MsgProposeModel {
        MsgProposeModel { payload: self.payload@, signature: self.signature }
    }
}

/// The canonical bytes of a proposal: height, round, address, the block, the optional
/// justification, then the signature.
pub open spec fn propose_bytes(m: MsgProposeModel) -> Seq<u8> {
    le_bytes(m.payload.height as nat, 16) + le_bytes(m.payload.round as nat, 4) + m.payload.address@
        + block_bytes(m.payload.proposal) + justification_option_bytes(m.payload.justification)
        + m.signature@
}

/// Reading `n` evidences one after the other from `pos`.
pub open spec fn parse_evidences(input: Seq<u8>, pos: int, n: nat) -> Result<
    (Seq<ProposeEvidencePayload>, int),
    DecodeError,
>
    decreases n,
{
    if n == 0 {
        Ok((Seq::empty(), pos))
    } else {
        match take_outcome(input, pos, 32) {
            Err(e) => Err(e),
            Ok(a) => match take_outcome(input, pos + 32, 64) {
                Err(e) => Err(e),
                Ok(s) => match parse_evidences(input, pos + 96, (n - 1) as nat) {
                    Err(e) => Err(e),
                    Ok((rest, q)) => Ok(
                        (
                            seq![
                                ProposeEvidencePayload {
                                    address: Address(array_of::<32>(a)),
                                    signature: Signature(array_of::<64>(s)),
                                },
                            ] + rest,
                            q,
                        ),
                    ),
                },
            },
        }
    }
}

/// `prefix` put in front of what a reader of evidences gave.
pub open spec fn prepend_evidences(
    prefix: Seq<ProposeEvidencePayload>,
    r: Result<(Seq<ProposeEvidencePayload>, int), DecodeError>,
) -> Result<(Seq<ProposeEvidencePayload>, int), DecodeError> {
    match r {
        Ok((rest, q)) => Ok((prefix + rest, q)),
        Err(e) => Err(e),
    }
}

/// Reading the optional justification at `pos`: a flag byte of 1 is followed by a
/// justification, 0 by nothing, and any other flag byte is refused.
pub open spec fn parse_justification_option(input: Seq<u8>, pos: int) -> Result<
    (Option<ProposeJustificationModel>, int),
    DecodeError,
> {
    match uint_outcome(input, pos, 1) {
        Err(e) => Err(e),
        Ok((flag, p)) => if flag == 1 {
            match uint_outcome(input, p, 16) {
                Err(e) => Err(e),
                Ok((height, p1)) => match uint_outcome(input, p1, 4) {
                    Err(e) => Err(e),
                    Ok((round, p2)) => match take_outcome(input, p2, 32) {
                        Err(e) => Err(e),
                        Ok(h) => match uint_outcome(input, p2 + 32, 2) {
                            Err(e) => Err(e),
                            Ok((count, p4)) => match parse_evidences(input, p4, count) {
                                Err(e) => Err(e),
                                Ok((evidences, q)) => Ok(
                                    (
                                        Some(
                                            ProposeJustificationModel {
                                                height: height as u128,
                                                round: round as u32,
                                                proposal_hash: crate::hash::Hash(array_of::<32>(h)),
                                                evidences,
                                            },
                                        ),
                                        q,
                                    ),
                                ),
                            },
                        },
                    },
                },
            }
        } else if flag == 0 {
            Ok((None, p))
        } else {
            Err(DecodeError::InvalidInput)
        },
    }
}

/// Reading a proposal at `pos`.
pub open spec fn parse_propose(input: Seq<u8>, pos: int) -> Result<(MsgProposeModel, int), DecodeError> {
    match uint_outcome(input, pos, 16) {
        Err(e) => Err(e),
        Ok((height, p1)) => match uint_outcome(input, p1, 4) {
            Err(e) => Err(e),
            Ok((round, p2)) => match take_outcome(input, p2, 32) {
                Err(e) => Err(e),
                Ok(a) => match parse_block(input, p2 + 32) {
                    Err(e) => Err(e),
                    Ok((proposal, p3)) => match parse_justification_option(input, p3) {
                        Err(e) => Err(e),
                        Ok((justification, p4)) => match take_outcome(input, p4, 64) {
                            Err(e) => Err(e),
                            Ok(s) => Ok(
                                (
                                    MsgProposeModel {
                                        payload: ProposePayloadModel {
                                            height: height as u128,
                                            round: round as u32,
                                            address: Address(array_of::<32>(a)),
                                            proposal,
                                            justification,
                                        },
                                        signature: Signature(array_of::<64>(s)),
                                    },
                                    p4 + 64,
                                ),
                            ),
                        },
                    },
                },
            },
        },
    }
}

/// The outcome of checking a proposal's signature.
pub open spec fn propose_signature_outcome(m: MsgProposeModel) -> Result<(), VerificationError> {
    verify_outcome(m.payload.address@, m.signature@, propose_signing_bytes(m.payload))
}

/// Reads the optional justification of a proposal.
fn read_justification_option(decoder: &mut Decoder) -> (r: Result<
    Option<ProposeJustificationPayload>,
    DecodeError,
>)
    ensures
        final(decoder).data() == old(decoder).data(),
        match parse_justification_option(old(decoder).data(), old(decoder).position()) {
            Ok((j, p)) => r matches Ok(x) && final(decoder).position() == p && match x {
                Some(x) => j == Some(x@),
                None => j is None,
            },
            Err(e) => r matches Err(err) && err == e,
        },
{
    let ghost data = decoder.data();
    let ghost pos = decoder.position();
    let justification_option = decoder.read_u8_le()?;
    if justification_option == 1 {
        let height = decoder.read_u128_le()?;
        let round = decoder.read_u32_le()?;
        let proposal_hash = decoder.read_fixed::<32>()?;
        let evidence_count = decoder.read_u16_le()?;
        proof {
            lemma_array_of::<32>(proposal_hash);
        }
        let ghost start = decoder.position();
        let mut evidences: Vec<ProposeEvidencePayload> = Vec::with_capacity(evidence_count as usize);
        let mut i: u16 = 0;
        assert(evidences@ + Seq::<ProposeEvidencePayload>::empty() =~= evidences@);
        while i < evidence_count
            invariant
                i <= evidence_count,
                decoder.data() == data,
                data == old(decoder).data(),
                pos == old(decoder).position(),
                match parse_evidences(data, start, evidence_count as nat) {
                    Err(e) => parse_justification_option(data, pos) == Err::<
                        (Option<ProposeJustificationModel>, int),
                        DecodeError,
                    >(e),
                    Ok((evs, q)) => parse_justification_option(data, pos) == Ok::<
                        (Option<ProposeJustificationModel>, int),
                        DecodeError,
                    >(
                        (
                            Some(
                                ProposeJustificationModel {
                                    height,
                                    round,
                                    proposal_hash: crate::hash::Hash(proposal_hash),
                                    evidences: evs,
                                },
                            ),
                            q,
                        ),
                    ),
                },
                parse_evidences(data, start, evidence_count as nat) == prepend_evidences(
                    evidences@,
                    parse_evidences(data, decoder.position(), (evidence_count - i) as nat),
                ),
            decreases evidence_count - i,
        {
            let ghost before = evidences@;
            let ghost here = decoder.position();
            let address_bytes = decoder.read_fixed::<32>()?;
            let signature_bytes = decoder.read_fixed::<64>()?;
            proof {
                lemma_array_of::<32>(address_bytes);
                lemma_array_of::<64>(signature_bytes);
            }
            let evidence = ProposeEvidencePayload::new(
                Address::new(address_bytes),
                Signature::new(signature_bytes),
            );
            evidences.push(evidence);
            proof {
                let rest = parse_evidences(data, here + 96, (evidence_count - i - 1) as nat);
                assert(decoder.position() == here + 96);
                if let Ok((s, q)) = rest {
                    assert(before + (seq![evidence] + s) =~= evidences@ + s);
                }
            }
            i = i + 1;
        }
        assert(evidences@ + Seq::<ProposeEvidencePayload>::empty() =~= evidences@);
        Ok(
            Some(
                ProposeJustificationPayload::new(
                    height,
                    round,
                    crate::hash::Hash::new(proposal_hash),
                    evidences,
                ),
            ),
        )
    } else if justification_option == 0 {
        Ok(None)
    } else {
        Err(DecodeError::InvalidInput)
    }
}

impl MsgPropose {
    pub fn new(payload: ProposePayload, signature: Signature) -> (r: Self)
        ensures
            r.payload == payload,
            r.signature == signature,
    {
        Self { payload, signature }
    }

    /// Checks that the signature is the proposer's signature of the payload.
    pub fn verify_signature(&self) -> (r: Result<(), VerificationError>)
        requires
            payload_countable(self.payload@),
        ensures
            r == propose_signature_outcome(self@),
    {
        let mut out: Vec<u8> = Vec::new();
        self.payload.encode_signing_payload(&mut out);
        assert(out@ =~= propose_signing_bytes(self.payload@));
        verify(&self.payload.address, &self.signature, out.as_slice())
    }

    pub fn encoded_len(&self) -> (r: usize)
        requires
            propose_bytes(self@).len() <= usize::MAX,
        ensures
            r == propose_bytes(self@).len(),
    {
        proof {
            crate::bytes::lemma_le_bytes_len(self.payload.height as nat, 16);
            crate::bytes::lemma_le_bytes_len(self.payload.round as nat, 4);
            crate::bytes::lemma_le_bytes_len(self.payload.proposal.block_height as nat, 16);
            crate::bytes::lemma_le_bytes_len(self.payload.proposal.chain_id.0 as nat, 2);
            crate::bytes::lemma_le_bytes_len(self.payload.proposal.chain_version.0 as nat, 2);
            crate::bytes::lemma_le_bytes_len(
                (self.payload.proposal.transactions@.len() % 0x1_0000) as nat,
                2,
            );
            crate::block::lemma_transactions_bytes_len(self.payload.proposal.transactions@);
            if let Some(j) = &self.payload.justification {
                crate::bytes::lemma_le_bytes_len(j.height as nat, 16);
                crate::bytes::lemma_le_bytes_len(j.round as nat, 4);
                crate::bytes::lemma_le_bytes_len(j.evidences@.len(), 2);
                lemma_evidences_bytes_len(j.evidences@);
            }
        }
        let height: usize = 16;
        let round: usize = 4;
        let address: usize = 32;
        let proposal: usize = self.payload.proposal.encoded_len();
        let justification_option: usize = 1;
        let justification: usize = match &self.payload.justification {
            Some(justification) => {
                let height: usize = 16;
                let round: usize = 4;
                let proposal_hash: usize = 32;
                let evidences_len: usize = 2;
                let evidences: usize = (32 + 64) * justification.evidences.len();
                height + round + proposal_hash + evidences_len + evidences
            },
            None => 0,
        };
        let signature: usize = 64;
        height + round + address + proposal + justification_option + justification + signature
    }

    pub fn encode_canonical(&self, out: &mut Vec<u8>)
        requires
            self.payload.justification matches Some(j) ==> j.evidences@.len() <= 0xffff,
        ensures
            final(out)@ == old(out)@ + propose_bytes(self@),
    {
        proof {
            lemma_pow256_values();
        }
        let ghost start = out@;
        push_le(out, self.payload.height, 16);
        push_le(out, self.payload.round as u128, 4);
        push_bytes(out, self.payload.address.as_bytes().as_slice());
        self.payload.proposal.encode_canonical(out);
        push_justification_option(out, &self.payload.justification);
        push_bytes(out, self.signature.as_bytes().as_slice());
        assert(out@ =~= start + propose_bytes(self@));
    }

    pub fn decode_canonical(input: &[u8]) -> (r: Result<Self, DecodeError>)
        ensures
            match whole(parse_propose(input@, 0), input@.len() as int) {
                Ok(m) => r matches Ok(x) && x@ == m,
                Err(e) => r matches Err(err) && err == e,
            },
    {
        let mut decoder = Decoder::new(input);
        let decoded = Self::decode_from(&mut decoder)?;
        decoder.finish()?;
        Ok(decoded)
    }

    pub fn decode_from(decoder: &mut Decoder) -> (r: Result<Self, DecodeError>)
        ensures
            final(decoder).data() == old(decoder).data(),
            match parse_propose(old(decoder).data(), old(decoder).position()) {
                Ok((m, p)) => r matches Ok(x) && x@ == m && final(decoder).position() == p,
                Err(e) => r matches Err(err) && err == e,
            },
    {
        let height = decoder.read_u128_le()?;
        let round = decoder.read_u32_le()?;
        let address_bytes = decoder.read_fixed::<32>()?;
        proof {
            lemma_array_of::<32>(address_bytes);
        }
        let address = Address::new(address_bytes);
        let proposal = Block::decode_from(decoder)?;
        let justification = read_justification_option(decoder)?;
        let signature_bytes = decoder.read_fixed::<64>()?;
        proof {
            lemma_array_of::<64>(signature_bytes);
        }
        let signature = Signature::new(signature_bytes);
        Ok(
            Self::new(
                ProposePayload::new(height, round, address, proposal, justification),
                signature,
            ),
        )
    }
}

/// Reading back the bytes of a list of evidence, wherever they stand, gives the list.
pub proof fn lemma_evidences_roundtrip(s: Seq<ProposeEvidencePayload>, input: Seq<u8>, pos: int)
    requires
        0 <= pos,
        pos + 96 * s.len() <= input.len(),
        input.len() <= usize::MAX,
        input.subrange(pos, pos + 96 * s.len()) == evidences_bytes(s),
    ensures
        parse_evidences(input, pos, s.len()) == Ok::<(Seq<ProposeEvidencePayload>, int), DecodeError>(
            (s, pos + 96 * s.len()),
        ),
    decreases s.len(),
{
    if s.len() > 0 {
        let b = evidences_bytes(s);
        let total: int = 96 * (s.len() as int);
        let e = s[0];
        lemma_evidences_bytes_len(s.drop_first());
        lemma_subrange_of(input, pos, total, b, 0, 32);
        assert(b.subrange(0, 32) =~= e.address@);
        lemma_subrange_of(input, pos, total, b, 32, 64);
        assert(b.subrange(32, 96) =~= e.signature@);
        lemma_array_of::<32>(e.address.0);
        lemma_array_of::<64>(e.signature.0);
        lemma_subrange_of(input, pos, total, b, 96, total - 96);
        assert(b.subrange(96, total) =~= evidences_bytes(s.drop_first()));
        lemma_evidences_roundtrip(s.drop_first(), input, pos + 96);
        assert(seq![e] + s.drop_first() =~= s);
    } else {
        assert(s =~= Seq::<ProposeEvidencePayload>::empty());
    }
}

/// How many bytes an optional justification takes.
pub open spec fn justification_option_len(j: Option<ProposeJustificationModel>) -> int {
    match j {
        Some(j) => 55 + 96 * (j.evidences.len() as int),
        None => 1,
    }
}

pub proof fn lemma_justification_option_len(j: Option<ProposeJustificationModel>)
    ensures
        justification_option_bytes(j).len() == justification_option_len(j),
{
    if let Some(jj) = j {
        lemma_le_bytes_len(jj.height as nat, 16);
        lemma_le_bytes_len(jj.round as nat, 4);
        lemma_le_bytes_len(jj.evidences.len(), 2);
        lemma_evidences_bytes_len(jj.evidences);
    }
}

/// Reading back the bytes of an optional justification whose evidences can be counted
/// in two bytes, wherever they stand, gives it.
pub proof fn lemma_justification_option_roundtrip(
    j: Option<ProposeJustificationModel>,
    input: Seq<u8>,
    pos: int,
)
    requires
        j matches Some(jj) ==> jj.evidences.len() <= 0xffff,
        0 <= pos,
        pos + justification_option_len(j) <= input.len(),
        input.len() <= usize::MAX,
        input.subrange(pos, pos + justification_option_len(j)) == justification_option_bytes(j),
    ensures
        parse_justification_option(input, pos) == Ok::<
            (Option<ProposeJustificationModel>, int),
            DecodeError,
        >((j, pos + justification_option_len(j))),
{
    lemma_pow256_values();
    lemma_justification_option_len(j);
    let b = justification_option_bytes(j);
    let total = justification_option_len(j);
    lemma_subrange_of(input, pos, total, b, 0, 1);
    match j {
        Some(jj) => {
            let k = jj.evidences.len() as int;
            assert(b.subrange(0, 1) =~= seq![1u8]);
            assert(le_value(seq![1u8]) == 1) by {
                reveal_with_fuel(le_value, 2);
                assert(seq![1u8].drop_first() =~= Seq::<u8>::empty());
            }
            lemma_le_roundtrip(jj.height as nat, 16);
            lemma_le_roundtrip(jj.round as nat, 4);
            lemma_le_roundtrip(k as nat, 2);
            lemma_array_of::<32>(jj.proposal_hash.0);
            lemma_subrange_of(input, pos, total, b, 1, 16);
            assert(b.subrange(1, 17) =~= le_bytes(jj.height as nat, 16));
            lemma_subrange_of(input, pos, total, b, 17, 4);
            assert(b.subrange(17, 21) =~= le_bytes(jj.round as nat, 4));
            lemma_subrange_of(input, pos, total, b, 21, 32);
            assert(b.subrange(21, 53) =~= jj.proposal_hash@);
            lemma_subrange_of(input, pos, total, b, 53, 2);
            assert(b.subrange(53, 55) =~= le_bytes(k as nat, 2));
            lemma_subrange_of(input, pos, total, b, 55, 96 * k);
            assert(b.subrange(55, 55 + 96 * k) =~= evidences_bytes(jj.evidences));
            lemma_evidences_roundtrip(jj.evidences, input, pos + 55);
        },
        None => {
            assert(b.subrange(0, 1) =~= seq![0u8]);
            assert(le_value(seq![0u8]) == 0) by {
                reveal_with_fuel(le_value, 2);
                assert(seq![0u8].drop_first() =~= Seq::<u8>::empty());
            }
        },
    }
}

/// Whether a proposal can be written and read back: its block's transactions and its
/// evidences can each be counted in two bytes.
pub open spec fn propose_countable(m: MsgProposeModel) -> bool {
    payload_countable(m.payload)
}

/// Reading back the bytes of a proposal, wherever they stand, gives the proposal.
pub proof fn lemma_propose_roundtrip(m: MsgProposeModel, input: Seq<u8>, pos: int)
    requires
        propose_countable(m),
        0 <= pos,
        pos + propose_bytes(m).len() <= input.len(),
        input.len() <= usize::MAX,
        input.subrange(pos, pos + propose_bytes(m).len()) == propose_bytes(m),
    ensures
        parse_propose(input, pos) == Ok::<(MsgProposeModel, int), DecodeError>(
            (m, pos + propose_bytes(m).len()),
        ),
{
    lemma_pow256_values();
    let p = m.payload;
    let b = propose_bytes(m);
    let total = b.len() as int;
    lemma_le_roundtrip(p.height as nat, 16);
    lemma_le_roundtrip(p.round as nat, 4);
    lemma_array_of::<32>(p.address.0);
    lemma_array_of::<64>(m.signature.0);
    let bl = block_bytes(p.proposal);
    let nb = bl.len() as int;
    lemma_justification_option_len(p.justification);
    let nj = justification_option_len(p.justification);
    assert(total == 52 + nb + nj + 64);
    lemma_subrange_of(input, pos, total, b, 0, 16);
    assert(b.subrange(0, 16) =~= le_bytes(p.height as nat, 16));
    lemma_subrange_of(input, pos, total, b, 16, 4);
    assert(b.subrange(16, 20) =~= le_bytes(p.round as nat, 4));
    lemma_subrange_of(input, pos, total, b, 20, 32);
    assert(b.subrange(20, 52) =~= p.address@);
    lemma_subrange_of(input, pos, total, b, 52, nb);
    assert(b.subrange(52, 52 + nb) =~= bl);
    lemma_block_roundtrip_at(p.proposal, input, pos + 52);
    lemma_subrange_of(input, pos, total, b, 52 + nb, nj);
    assert(b.subrange(52 + nb, 52 + nb + nj) =~= justification_option_bytes(p.justification));
    lemma_justification_option_roundtrip(p.justification, input, pos + 52 + nb);
    lemma_subrange_of(input, pos, total, b, 52 + nb + nj, 64);
    assert(b.subrange(52 + nb + nj, total) =~= m.signature@);
}

} // verus!
