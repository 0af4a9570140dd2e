//! Reading canonical encodings from a byte slice.
use vstd::prelude::*;
use crate::bytes::{le_to_u128, le_value, lemma_le_value_bound, lemma_pow256_values, pow256};

verus! {

#[derive(Debug, Clone, Copy, PartialEq, Eq)]
pub enum DecodeError {
    InputTooLong,
    InsufficientInput,
    LengthExceeded { expected: usize, actual: usize },
    InvalidInput,
}

/// The outcome of taking `n` bytes at position `pos` of `input`.
pub open spec fn take_outcome(input: Seq<u8>, pos: int, n: int) -> Result<Seq<u8>, DecodeError> {
    if pos + n > usize::MAX {
        Err(DecodeError::InputTooLong)
    } else if pos + n > input.len() {
        Err(DecodeError::InsufficientInput)
    } else {
        Ok(input.subrange(pos, pos + n))
    }
}

/// The number read little-endian from `n` bytes at `pos`, and where reading stops.
pub open spec fn uint_outcome(input: Seq<u8>, pos: int, n: int) -> Result<(nat, int), DecodeError> {
    match take_outcome(input, pos, n) {
        Ok(s) => Ok((le_value(s), pos + n)),
        Err(e) => Err(e),
    }
}

/// A cursor over an input; every read moves it forward past what was read.
pub struct Decoder<'a> {
    input: &'a [u8],
    pos: usize,
}

impl<'a> Decoder<'a> {
    /// A decoder never stands past the end of its input.
    #[verifier::type_invariant]
    spec fn within_input(&self) -> bool {
        self.pos <= self.input@.len()
    }

    /// The whole input.
    pub closed spec fn data(&self) -> Seq<u8> {
        self.input@
    }

    /// How many bytes have been read.
    pub closed spec fn position(&self) -> int {
        self.pos as int
    }

    pub fn new(input: &'a [u8]) -> (r: Self)
        ensures
            r.data() == input@,
            r.position() == 0,
    {
        Self { input, pos: 0 }
    }

    /// Reads `N` bytes.
    pub fn read_fixed<const N: usize>(&mut self) -> (r: Result<[u8; N], DecodeError>)
        ensures
            final(self).data() == old(self).data(),
            0 <= old(self).position() <= old(self).data().len(),
            0 <= final(self).position() <= final(self).data().len(),
            match take_outcome(old(self).data(), old(self).position(), N as int) {
                Ok(s) => r matches Ok(a) && a@ == s && final(self).position() == old(self).position() + N,
                Err(e) => r == Err::<[u8; N], DecodeError>(e) && final(self).position() == old(self).position(),
            },
    {
        proof {
            use_type_invariant(&*self);
        }
        let end = match self.pos.checked_add(N) {
            Some(end) => end,
            None => return Err(DecodeError::InputTooLong),
        };
        if end > self.input.len() {
            return Err(DecodeError::InsufficientInput);
        }
        let mut out = [0u8; N];
        let mut i: usize = 0;
        while i < N
            invariant
                end == self.pos + N,
                end <= self.input@.len(),
                i <= N,
                out@.len() == N,
                forall|k: int| 0 <= k < i ==> out@[k] == self.input@[self.pos + k],
            decreases N - i,
        {
            out[i] = self.input[self.pos + i];
            i = i + 1;
        }
        assert(out@ =~= self.input@.subrange(self.pos as int, end as int));
        self.pos = end;
        Ok(out)
    }

    /// Reads `size` bytes.
    pub fn read_dynamic(&mut self, size: usize) -> (r: Result<Vec<u8>, DecodeError>)
        ensures
            final(self).data() == old(self).data(),
            0 <= old(self).position() <= old(self).data().len(),
            0 <= final(self).position() <= final(self).data().len(),
            match take_outcome(old(self).data(), old(self).position(), size as int) {
                Ok(s) => r matches Ok(v) && v@ == s && final(self).position() == old(self).position() + size,
                Err(e) => r == Err::<Vec<u8>, DecodeError>(e) && final(self).position() == old(self).position(),
            },
    {
        proof {
            use_type_invariant(&*self);
        }
        let end = match self.pos.checked_add(size) {
            Some(end) => end,
            None => return Err(DecodeError::InputTooLong),
        };
        if end > self.input.len() {
            return Err(DecodeError::InsufficientInput);
        }
        let mut out: Vec<u8> = Vec::new();
        let mut i: usize = self.pos;
        while i < end
            invariant
                self.pos <= i <= end,
                end <= self.input@.len(),
                out@ == self.input@.subrange(self.pos as int, i as int),
            decreases end - i,
        {
            out.push(self.input[i]);
            assert(self.input@.subrange(self.pos as int, i + 1) =~= self.input@.subrange(
                self.pos as int,
                i as int,
            ).push(self.input@[i as int]));
            i = i + 1;
        }
        self.pos = end;
        Ok(out)
    }

    pub fn read_u8_le(&mut self) -> (r: Result<u8, DecodeError>)
        ensures
            final(self).data() == old(self).data(),
            0 <= old(self).position() <= old(self).data().len(),
            0 <= final(self).position() <= final(self).data().len(),
            match uint_outcome(old(self).data(), old(self).position(), 1) {
                Ok((v, p)) => r == Ok::<u8, DecodeError>(v as u8) && v < 0x100 && final(self).position() == p,
                Err(e) => r == Err::<u8, DecodeError>(e) && final(self).position() == old(self).position(),
            },
    {
        proof {
            use_type_invariant(&*self);
        }
        let bytes = self.read_fixed::<1>()?;
        let v = le_to_u128(bytes.as_slice());
        proof {
            lemma_pow256_values();
            lemma_le_value_bound(bytes@);
        }
        Ok(v as u8)
    }

    pub fn read_u16_le(&mut self) -> (r: Result<u16, DecodeError>)
        ensures
            final(self).data() == old(self).data(),
            0 <= old(self).position() <= old(self).data().len(),
            0 <= final(self).position() <= final(self).data().len(),
            match uint_outcome(old(self).data(), old(self).position(), 2) {
                Ok((v, p)) => r == Ok::<u16, DecodeError>(v as u16) && v < 0x1_0000 && final(self).position() == p,
                Err(e) => r == Err::<u16, DecodeError>(e) && final(self).position() == old(self).position(),
            },
    {
        proof {
            use_type_invariant(&*self);
        }
        let bytes = self.read_fixed::<2>()?;
        let v = le_to_u128(bytes.as_slice());
        proof {
            lemma_pow256_values();
            lemma_le_value_bound(bytes@);
        }
        Ok(v as u16)
    }

    pub fn read_u32_le(&mut self) -> (r: Result<u32, DecodeError>)
        ensures
            final(self).data() == old(self).data(),
            0 <= old(self).position() <= old(self).data().len(),
            0 <= final(self).position() <= final(self).data().len(),
            match uint_outcome(old(self).data(), old(self).position(), 4) {
                Ok((v, p)) => r == Ok::<u32, DecodeError>(v as u32) && v < 0x1_0000_0000 && final(self).position() == p,
                Err(e) => r == Err::<u32, DecodeError>(e) && final(self).position() == old(self).position(),
            },
    {
        proof {
            use_type_invariant(&*self);
        }
        let bytes = self.read_fixed::<4>()?;
        let v = le_to_u128(bytes.as_slice());
        proof {
            lemma_pow256_values();
            lemma_le_value_bound(bytes@);
        }
        Ok(v as u32)
    }

    pub fn read_u64_le(&mut self) -> (r: Result<u64, DecodeError>)
        ensures
            final(self).data() == old(self).data(),
            0 <= old(self).position() <= old(self).data().len(),
            0 <= final(self).position() <= final(self).data().len(),
            match uint_outcome(old(self).data(), old(self).position(), 8) {
                Ok((v, p)) => r == Ok::<u64, DecodeError>(v as u64) && v < 0x1_0000_0000_0000_0000 && final(self).position() == p,
                Err(e) => r == Err::<u64, DecodeError>(e) && final(self).position() == old(self).position(),
            },
    {
        proof {
            use_type_invariant(&*self);
        }
        let bytes = self.read_fixed::<8>()?;
        let v = le_to_u128(bytes.as_slice());
        proof {
            lemma_pow256_values();
            lemma_le_value_bound(bytes@);
        }
        Ok(v as u64)
    }

    pub fn read_u128_le(&mut self) -> (r: Result<u128, DecodeError>)
        ensures
            final(self).data() == old(self).data(),
            0 <= old(self).position() <= old(self).data().len(),
            0 <= final(self).position() <= final(self).data().len(),
            match uint_outcome(old(self).data(), old(self).position(), 16) {
                Ok((v, p)) => r == Ok::<u128, DecodeError>(v as u128) && v < pow256(16) && final(self).position() == p,
                Err(e) => r == Err::<u128, DecodeError>(e) && final(self).position() == old(self).position(),
            },
    {
        proof {
            use_type_invariant(&*self);
        }
        let bytes = self.read_fixed::<16>()?;
        let v = le_to_u128(bytes.as_slice());
        proof {
            lemma_le_value_bound(bytes@);
        }
        Ok(v)
    }

    /// Succeeds exactly when the whole input has been read.
    pub fn finish(self) -> (r: Result<(), DecodeError>)
        ensures
            0 <= self.position() <= self.data().len(),
            self.position() == self.data().len() ==> r == Ok::<(), DecodeError>(()),
            self.position() != self.data().len() ==> r == Err::<(), DecodeError>(
                DecodeError::LengthExceeded {
                    expected: self.position() as usize,
                    actual: self.data().len() as usize,
                },
            ),
    {
        proof {
            use_type_invariant(&self);
        }
        if self.pos != self.input.len() {
            return Err(
                DecodeError::LengthExceeded { expected: self.pos, actual: self.input.len() },
            );
        }
        Ok(())
    }
}

} // verus!
