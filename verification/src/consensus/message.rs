//! The messages validators exchange.
use vstd::prelude::*;
use crate::address::Address;
use crate::chain_config::ChainConfig;
use crate::codec::{DecodeError, Decoder};
use crate::consensus::consensus_config::ConsensusConfig;
use crate::consensus::message_kind::{message_kind_byte, parse_message_kind, MessageKind};
use crate::consensus::messages::msg_precommit::{
    lemma_precommit_roundtrip, parse_precommit, precommit_bytes, MsgPrecommit,
};
use crate::consensus::messages::msg_prevote::{
    lemma_prevote_roundtrip, parse_prevote, prevote_bytes, MsgPrevote,
};
use crate::consensus::messages::msg_propose::{
    lemma_propose_roundtrip, parse_propose, propose_bytes, propose_countable, MsgPropose,
    MsgProposeModel,
};
use crate::consensus::rules::rule_precommit::{
    precommit_verification, verify_precommit_stateless, PrecommitVerificationError,
};
use crate::consensus::rules::rule_prevote::{
    prevote_verification, verify_prevote_stateless, PrevoteVerificationError,
};
use crate::consensus::rules::rule_propose::{
    propose_checkable, propose_verification, verify_propose_stateless, ProposeVerificationError,
};
use crate::transaction_kind::whole;

verus! {

#[derive(Debug, Clone)]
pub enum Message {
    Propose(MsgPropose),
    Prevote(MsgPrevote),
    Precommit(MsgPrecommit),
}

/// A message as a mathematical value.
pub enum MessageModel {
    Propose(MsgProposeModel),
    Prevote(MsgPrevote),
    Precommit(MsgPrecommit),
}

impl View for Message {
    type V = MessageModel;

    open spec fn view(&self) -> MessageModel {
        match self {
            Message::Propose(m) => MessageModel::Propose(m@),
            Message::Prevote(m) => MessageModel::Prevote(*m),
            Message::Precommit(m) => MessageModel::Precommit(*m),
        }
    }
}

#[derive(Debug, Clone, Copy, PartialEq, Eq)]
pub enum MessageVerificationError {
    Proposal(ProposeVerificationError),
    Prevote(PrevoteVerificationError),
    Precommit(PrecommitVerificationError),
}

/// The kind of a message.
pub open spec fn message_kind(m: MessageModel) -> MessageKind {
    match m {
        MessageModel::Propose(_) => MessageKind::Propose,
        MessageModel::Prevote(_) => MessageKind::Prevote,
        MessageModel::Precommit(_) => MessageKind::Precommit,
    }
}

/// The canonical bytes of a message: its kind, then its body.
pub open spec fn message_bytes(m: MessageModel) -> Seq<u8> {
    seq![message_kind_byte(message_kind(m))] + match m {
        MessageModel::Propose(p) => propose_bytes(p),
        MessageModel::Prevote(p) => prevote_bytes(p),
        MessageModel::Precommit(p) => precommit_bytes(p),
    }
}

/// Reading a message at `pos`.
pub open spec fn parse_message(input: Seq<u8>, pos: int) -> Result<(MessageModel, int), DecodeError> {
    match parse_message_kind(input, pos) {
        Err(e) => Err(e),
        Ok((MessageKind::Propose, p)) => match parse_propose(input, p) {
            Err(e) => Err(e),
            Ok((m, q)) => Ok((MessageModel::Propose(m), q)),
        },
        Ok((MessageKind::Prevote, p)) => match parse_prevote(input, p) {
            Err(e) => Err(e),
            Ok((m, q)) => Ok((MessageModel::Prevote(m), q)),
        },
        Ok((MessageKind::Precommit, p)) => match parse_precommit(input, p) {
            Err(e) => Err(e),
            Ok((m, q)) => Ok((MessageModel::Precommit(m), q)),
        },
    }
}

/// The checks a message must pass: those of its kind.
pub open spec fn message_verification(
    m: MessageModel,
    current_proposer: Address,
    chain_config: ChainConfig,
    validators: Seq<Address>,
    quorum: usize,
) -> Result<(), MessageVerificationError> {
    match m {
        MessageModel::Propose(p) => match propose_verification(
            p,
            current_proposer,
            chain_config,
            validators,
            quorum,
        ) {
            Err(e) => Err(MessageVerificationError::Proposal(e)),
            Ok(()) => Ok(()),
        },
        MessageModel::Prevote(p) => match prevote_verification(p, validators) {
            Err(e) => Err(MessageVerificationError::Prevote(e)),
            Ok(()) => Ok(()),
        },
        MessageModel::Precommit(p) => match precommit_verification(p, validators) {
            Err(e) => Err(MessageVerificationError::Precommit(e)),
            Ok(()) => Ok(()),
        },
    }
}

/// Whether every count in the message fits in two bytes, so that it can be written
/// and its signature checked.
pub open spec fn message_countable(m: MessageModel) -> bool {
    m matches MessageModel::Propose(p) ==> (p.payload.justification matches Some(j)
        ==> j.evidences.len() <= 0xffff)
}

/// Whether the checks of a message can run to the end: a proposal from the current
/// proposer whose block passes the block checks has evidences that can be counted in
/// two bytes.
pub open spec fn message_checkable(
    m: MessageModel,
    current_proposer: Address,
    chain_config: ChainConfig,
) -> bool {
    m matches MessageModel::Propose(p) ==> propose_checkable(p, current_proposer, chain_config)
}

/// Whether a message can be written and read back: every count in it fits in two
/// bytes.
pub open spec fn message_encodable(m: MessageModel) -> bool {
    m matches MessageModel::Propose(p) ==> propose_countable(p)
}

/// Reading back the canonical bytes of a message gives the message, and decoding all
/// of them gives it too.
pub proof fn lemma_message_roundtrip(m: MessageModel)
    requires
        message_encodable(m),
        message_bytes(m).len() <= usize::MAX,
    ensures
        parse_message(message_bytes(m), 0) == Ok::<(MessageModel, int), DecodeError>(
            (m, message_bytes(m).len() as int),
        ),
        whole(parse_message(message_bytes(m), 0), message_bytes(m).len() as int) == Ok::<
            MessageModel,
            DecodeError,
        >(m),
{
    let input = message_bytes(m);
    let k = message_kind_byte(message_kind(m));
    let body = input.subrange(1, input.len() as int);
    assert(input.subrange(0, 1) =~= seq![k]);
    assert(crate::bytes::le_value(seq![k]) == k) by {
        reveal_with_fuel(crate::bytes::le_value, 2);
        assert(seq![k].drop_first() =~= Seq::<u8>::empty());
    }
    match m {
        MessageModel::Propose(p) => {
            assert(body =~= propose_bytes(p));
            lemma_propose_roundtrip(p, input, 1);
        },
        MessageModel::Prevote(p) => {
            assert(body =~= prevote_bytes(p));
            lemma_prevote_roundtrip(p, input, 1);
        },
        MessageModel::Precommit(p) => {
            assert(body =~= precommit_bytes(p));
            lemma_precommit_roundtrip(p, input, 1);
        },
    }
}

impl Message {
    pub fn kind(&self) -> (r: MessageKind)
        ensures
            r == message_kind(self@),
    {
        match self {
            Message::Propose(_) => MessageKind::Propose,
            Message::Prevote(_) => MessageKind::Prevote,
            Message::Precommit(_) => MessageKind::Precommit,
        }
    }

    pub fn encoded_len(&self) -> (r: usize)
        requires
            message_bytes(self@).len() <= usize::MAX,
        ensures
            r == message_bytes(self@).len(),
    {
        let kind: usize = 1;
        let msg: usize = match self {
            Message::Propose(msg) => msg.encoded_len(),
            Message::Prevote(msg) => msg.encoded_len(),
            Message::Precommit(msg) => msg.encoded_len(),
        };
        kind + msg
    }

    pub fn encode_canonical(&self, out: &mut Vec<u8>)
        requires
            message_countable(self@),
        ensures
            final(out)@ == old(out)@ + message_bytes(self@),
    {
        let ghost start = out@;
        self.kind().encode_canonical(out);
        match self {
            Message::Propose(msg) => {
                msg.encode_canonical(out);
            },
            Message::Prevote(msg) => {
                msg.encode_canonical(out);
            },
            Message::Precommit(msg) => {
                msg.encode_canonical(out);
            },
        }
        assert(out@ =~= start + message_bytes(self@));
    }

    pub fn decode_canonical(input: &[u8]) -> (r: Result<Self, DecodeError>)
        ensures
            match whole(parse_message(input@, 0), input@.len() as int) {
                Ok(m) => r matches Ok(x) && x@ == m,
                Err(e) => r matches Err(err) && err == e,
            },
    {
        let mut decoder = Decoder::new(input);
        let decoded = Self::decode_from(&mut decoder)?;
        decoder.finish()?;
        Ok(decoded)
    }

    pub fn decode_from(decoder: &mut Decoder) -> (r: Result<Self, DecodeError>)
        ensures
            final(decoder).data() == old(decoder).data(),
            match parse_message(old(decoder).data(), old(decoder).position()) {
                Ok((m, p)) => r matches Ok(x) && x@ == m && final(decoder).position() == p,
                Err(e) => r matches Err(err) && err == e,
            },
    {
        let kind = MessageKind::decode_from(decoder)?;
        let message = match kind {
            MessageKind::Propose => Self::Propose(MsgPropose::decode_from(decoder)?),
            MessageKind::Prevote => Self::Prevote(MsgPrevote::decode_from(decoder)?),
            MessageKind::Precommit => Self::Precommit(MsgPrecommit::decode_from(decoder)?),
        };
        Ok(message)
    }

    /// Checks the message as its kind requires, against the current proposer, the
    /// chain's configuration and the validator set.
    pub fn verify_stateless(
        &self,
        current_proposer: &Address,
        chain_config: &ChainConfig,
        consensus_config: &ConsensusConfig,
    ) -> (r: Result<(), MessageVerificationError>)
        requires
            message_checkable(self@, *current_proposer, *chain_config),
        ensures
            r == message_verification(
                self@,
                *current_proposer,
                *chain_config,
                consensus_config.validators@,
                consensus_config.quorum,
            ),
    {
        match self {
            Message::Propose(msg) => {
                if let Err(e) = verify_propose_stateless(
                    msg,
                    current_proposer,
                    chain_config,
                    consensus_config,
                ) {
                    return Err(MessageVerificationError::Proposal(e));
                }
            },
            Message::Prevote(msg) => {
                if let Err(e) = verify_prevote_stateless(msg, consensus_config) {
                    return Err(MessageVerificationError::Prevote(e));
                }
            },
            Message::Precommit(msg) => {
                if let Err(e) = verify_precommit_stateless(msg, consensus_config) {
                    return Err(MessageVerificationError::Precommit(e));
                }
            },
        }
        Ok(())
    }
}

} // verus!
