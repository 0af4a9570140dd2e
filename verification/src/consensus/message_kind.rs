//! The kinds of consensus message and the byte that stands for each.
use vstd::prelude::*;
use crate::codec::{uint_outcome, DecodeError, Decoder};
use crate::transaction_kind::whole;

verus! {

/// The kinds of consensus message.
#[derive(Debug, Clone, Copy, PartialEq, Eq, PartialOrd, Ord, Hash, Structural)]
pub enum MessageKind {
    Propose,
    Prevote,
    Precommit,
}

/// The byte that stands for a message kind.
pub open spec fn message_kind_byte(kind: MessageKind) -> u8 {
    match kind {
        MessageKind::Propose => 1,
        MessageKind::Prevote => 2,
        MessageKind::Precommit => 3,
    }
}

/// The message kind a byte stands for, if any.
pub open spec fn message_kind_of(b: nat) -> Option<MessageKind> {
    if b == 1 {
        Some(MessageKind::Propose)
    } else if b == 2 {
        Some(MessageKind::Prevote)
    } else if b == 3 {
        Some(MessageKind::Precommit)
    } else {
        None
    }
}

/// Reading a message kind at `pos`: one byte, which must stand for a kind.
pub open spec fn parse_message_kind(input: Seq<u8>, pos: int) -> Result<(MessageKind, int), DecodeError> {
    match uint_outcome(input, pos, 1) {
        Ok((v, p)) => match message_kind_of(v) {
            Some(k) => Ok((k, p)),
            None => Err(DecodeError::InvalidInput),
        },
        Err(e) => Err(e),
    }
}

impl MessageKind {
    pub fn new(kind: u8) -> (r: Option<Self>)
        ensures
            r == message_kind_of(kind as nat),
    {
        match kind {
            1 => Some(MessageKind::Propose),
            2 => Some(MessageKind::Prevote),
            3 => Some(MessageKind::Precommit),
            _ => None,
        }
    }

    pub fn encoded_len(&self) -> (r: usize)
        ensures
            r == 1,
    {
        1
    }

    pub fn into_u8(self) -> (r: u8)
        ensures
            r == message_kind_byte(self),
    {
        match self {
            MessageKind::Propose => 1,
            MessageKind::Prevote => 2,
            MessageKind::Precommit => 3,
        }
    }

    pub fn encode_canonical(&self, out: &mut Vec<u8>)
        ensures
            final(out)@ == old(out)@.push(message_kind_byte(*self)),
    {
        out.push(self.into_u8());
    }

    pub fn decode_canonical(input: &[u8]) -> (r: Result<Self, DecodeError>)
        ensures
            r == whole(parse_message_kind(input@, 0), input@.len() as int),
    {
        let mut decoder = Decoder::new(input);
        let decoded = Self::decode_from(&mut decoder)?;
        decoder.finish()?;
        Ok(decoded)
    }

    pub fn decode_from(decoder: &mut Decoder) -> (r: Result<Self, DecodeError>)
        ensures
            final(decoder).data() == old(decoder).data(),
            match parse_message_kind(old(decoder).data(), old(decoder).position()) {
                Ok((k, p)) => r == Ok::<MessageKind, DecodeError>(k) && final(decoder).position() == p,
                Err(e) => r == Err::<MessageKind, DecodeError>(e),
            },
    {
        let kind = decoder.read_u8_le()?;
        match MessageKind::new(kind) {
            Some(k) => Ok(k),
            None => Err(DecodeError::InvalidInput),
        }
    }
}

} // verus!
