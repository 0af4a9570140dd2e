use vstd::prelude::*;
use crate::codec::{uint_outcome, DecodeError, Decoder};

verus! {

/// The kinds of transaction a block can hold.
#[derive(Debug, Clone, Copy, PartialEq, Eq, PartialOrd, Ord, Hash, Structural)]
pub enum TransactionKind {
    Transfer,
}

/// The byte that stands for a transaction kind.
pub open spec fn kind_byte(kind: TransactionKind) -> u8 {
    match kind {
        TransactionKind::Transfer => 1,
    }
}

/// Reading a transaction kind at `pos`: one byte, which must stand for a kind.
pub open spec fn parse_kind(input: Seq<u8>, pos: int) -> Result<(TransactionKind, int), DecodeError> {
    match uint_outcome(input, pos, 1) {
        Ok((v, p)) => if v == 1 {
            Ok((TransactionKind::Transfer, p))
        } else {
            Err(DecodeError::InvalidInput)
        },
        Err(e) => Err(e),
    }
}

/// What decoding all of `input` as one value gives, for a reader `parse`.
pub open spec fn whole<T>(parsed: Result<(T, int), DecodeError>, len: int) -> Result<T, DecodeError> {
    match parsed {
        Ok((x, p)) => if p == len {
            Ok(x)
        } else {
            Err(DecodeError::LengthExceeded { expected: p as usize, actual: len as usize })
        },
        Err(e) => Err(e),
    }
}

impl TransactionKind {
    pub fn new(kind: u8) -> (r: Option<Self>)
        ensures
            r == (if kind == 1 {
                Some(TransactionKind::Transfer)
            } else {
                None::<TransactionKind>
            }),
    {
        match kind {
            1 => Some(TransactionKind::Transfer),
            _ => None,
        }
    }

    pub fn encoded_len(&self) -> (r: usize)
        ensures
            r == 1,
    {
        match self {
            TransactionKind::Transfer => 1,
        }
    }

    pub fn into_u8(self) -> (r: u8)
        ensures
            r == kind_byte(self),
    {
        match self {
            TransactionKind::Transfer => 1,
        }
    }

    pub fn encode_canonical(&self, out: &mut Vec<u8>)
        ensures
            final(out)@ == old(out)@.push(kind_byte(*self)),
    {
        out.push(self.into_u8());
    }

    pub fn decode_canonical(input: &[u8]) -> (r: Result<Self, DecodeError>)
        ensures
            r == whole(parse_kind(input@, 0), input@.len() as int),
    {
        let mut decoder = Decoder::new(input);
        let decoded = Self::decode_from(&mut decoder)?;
        decoder.finish()?;
        Ok(decoded)
    }

    pub fn decode_from(decoder: &mut Decoder) -> (r: Result<Self, DecodeError>)
        ensures
            final(decoder).data() == old(decoder).data(),
            match parse_kind(old(decoder).data(), old(decoder).position()) {
                Ok((k, p)) => r == Ok::<TransactionKind, DecodeError>(k) && final(decoder).position() == p,
                Err(e) => r == Err::<TransactionKind, DecodeError>(e),
            },
    {
        let kind = decoder.read_u8_le()?;
        match TransactionKind::new(kind) {
            Some(k) => Ok(k),
            None => Err(DecodeError::InvalidInput),
        }
    }
}

} // verus!
