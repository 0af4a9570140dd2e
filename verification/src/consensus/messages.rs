//! Consensus messages, and the fields that prevotes and precommits share.
use vstd::prelude::*;
use crate::address::Address;
use crate::bytes::{
    array_of, le_bytes, le_value, lemma_array_of, lemma_le_bytes_len, lemma_le_roundtrip,
    lemma_pow256_values, lemma_subrange_of, push_bytes, push_le,
};
use crate::codec::{take_outcome, uint_outcome, DecodeError, Decoder};

pub mod msg_precommit;
pub mod msg_prevote;
pub mod msg_propose;

verus! {

/// The bytes of an optional proposal hash: a flag byte, 1 followed by the hash when
/// there is one, 0 when there is none.
pub open spec fn hash_option_bytes(h: Option<crate::hash::Hash>) -> Seq<u8> {
    match h {
        Some(x) => seq![1u8] + x@,
        None => seq![0u8],
    }
}

/// What a vote says: the height, the round, the voter and the proposal voted for.
pub type VoteFields = (u128, u32, Address, Option<crate::hash::Hash>);

/// The canonical bytes of the fields of a vote.
pub open spec fn vote_fields_bytes(v: VoteFields) -> Seq<u8> {
    le_bytes(v.0 as nat, 16) + le_bytes(v.1 as nat, 4) + v.2@ + hash_option_bytes(v.3)
}

/// Reading the fields of a vote at `pos`. A flag byte of 1 is followed by a hash;
/// any other flag byte means that there is none.
pub open spec fn parse_vote_fields(input: Seq<u8>, pos: int) -> Result<(VoteFields, int), DecodeError> {
    match uint_outcome(input, pos, 16) {
        Err(e) => Err(e),
        Ok((height, p1)) => match uint_outcome(input, p1, 4) {
            Err(e) => Err(e),
            Ok((round, p2)) => match take_outcome(input, p2, 32) {
                Err(e) => Err(e),
                Ok(address) => match uint_outcome(input, p2 + 32, 1) {
                    Err(e) => Err(e),
                    Ok((flag, p4)) => if flag == 1 {
                        match take_outcome(input, p4, 32) {
                            Err(e) => Err(e),
                            Ok(h) => Ok(
                                (
                                    (
                                        height as u128,
                                        round as u32,
                                        Address(array_of::<32>(address)),
                                        Some(crate::hash::Hash(array_of::<32>(h))),
                                    ),
                                    p4 + 32,
                                ),
                            ),
                        }
                    } else {
                        Ok(
                            (
                                (height as u128, round as u32, Address(array_of::<32>(address)), None),
                                p4,
                            ),
                        )
                    },
                },
            },
        },
    }
}

/// Appends the bytes of an optional proposal hash.
pub fn push_hash_option(out: &mut Vec<u8>, h: &Option<crate::hash::Hash>)
    ensures
        final(out)@ == old(out)@ + hash_option_bytes(*h),
{
    let ghost start = out@;
    match h {
        Some(x) => {
            out.push(1u8);
            push_bytes(out, x.as_bytes().as_slice());
            assert(out@ =~= start + hash_option_bytes(*h));
        },
        None => {
            out.push(0u8);
            assert(out@ =~= start + hash_option_bytes(*h));
        },
    }
}

/// Appends the canonical bytes of the fields of a vote.
pub fn push_vote_fields(
    out: &mut Vec<u8>,
    height: u128,
    round: u32,
    address: &Address,
    proposal_hash: &Option<crate::hash::Hash>,
)
    ensures
        final(out)@ == old(out)@ + vote_fields_bytes((height, round, *address, *proposal_hash)),
{
    proof {
        lemma_pow256_values();
    }
    let ghost start = out@;
    push_le(out, height, 16);
    push_le(out, round as u128, 4);
    push_bytes(out, address.as_bytes().as_slice());
    push_hash_option(out, proposal_hash);
    assert(out@ =~= start + vote_fields_bytes((height, round, *address, *proposal_hash)));
}

/// Reads the fields of a vote.
pub fn read_vote_fields(decoder: &mut Decoder) -> (r: Result<VoteFields, DecodeError>)
    ensures
        final(decoder).data() == old(decoder).data(),
        match parse_vote_fields(old(decoder).data(), old(decoder).position()) {
            Ok((v, p)) => r == Ok::<VoteFields, DecodeError>(v) && final(decoder).position() == p,
            Err(e) => r == Err::<VoteFields, DecodeError>(e),
        },
{
    let height = decoder.read_u128_le()?;
    let round = decoder.read_u32_le()?;
    let address_bytes = decoder.read_fixed::<32>()?;
    proof {
        lemma_array_of::<32>(address_bytes);
    }
    let address = Address::new(address_bytes);
    let flag = decoder.read_u8_le()?;
    let proposal_hash = if flag == 1 {
        let hash_bytes = decoder.read_fixed::<32>()?;
        proof {
            lemma_array_of::<32>(hash_bytes);
        }
        Some(crate::hash::Hash::new(hash_bytes))
    } else {
        None
    };
    Ok((height, round, address, proposal_hash))
}

/// How many bytes the fields of a vote take.
pub open spec fn vote_fields_len(v: VoteFields) -> int {
    if v.3 is Some {
        85
    } else {
        53
    }
}

pub proof fn lemma_vote_fields_len(v: VoteFields)
    ensures
        vote_fields_bytes(v).len() == vote_fields_len(v),
{
    lemma_le_bytes_len(v.0 as nat, 16);
    lemma_le_bytes_len(v.1 as nat, 4);
}

/// Reading back the bytes of the fields of a vote, wherever they stand, gives the fields.
pub proof fn lemma_vote_fields_roundtrip(v: VoteFields, input: Seq<u8>, pos: int)
    requires
        0 <= pos,
        pos + vote_fields_len(v) <= input.len(),
        input.len() <= usize::MAX,
        input.subrange(pos, pos + vote_fields_len(v)) == vote_fields_bytes(v),
    ensures
        parse_vote_fields(input, pos) == Ok::<(VoteFields, int), DecodeError>(
            (v, pos + vote_fields_len(v)),
        ),
{
    lemma_pow256_values();
    lemma_vote_fields_len(v);
    lemma_le_roundtrip(v.0 as nat, 16);
    lemma_le_roundtrip(v.1 as nat, 4);
    lemma_array_of::<32>(v.2.0);
    let n = vote_fields_len(v);
    let b = vote_fields_bytes(v);
    lemma_subrange_of(input, pos, n, b, 0, 16);
    assert(b.subrange(0, 16) =~= le_bytes(v.0 as nat, 16));
    lemma_subrange_of(input, pos, n, b, 16, 4);
    assert(b.subrange(16, 20) =~= le_bytes(v.1 as nat, 4));
    lemma_subrange_of(input, pos, n, b, 20, 32);
    assert(b.subrange(20, 52) =~= v.2@);
    lemma_subrange_of(input, pos, n, b, 52, 1);
    match v.3 {
        Some(h) => {
            assert(b.subrange(52, 53) =~= seq![1u8]);
            assert(le_value(seq![1u8]) == 1) by {
                reveal_with_fuel(le_value, 2);
                assert(seq![1u8].drop_first() =~= Seq::<u8>::empty());
            }
            lemma_subrange_of(input, pos, n, b, 53, 32);
            assert(b.subrange(53, 85) =~= h@);
            lemma_array_of::<32>(h.0);
        },
        None => {
            assert(b.subrange(52, 53) =~= seq![0u8]);
            assert(le_value(seq![0u8]) == 0) by {
                reveal_with_fuel(le_value, 2);
                assert(seq![0u8].drop_first() =~= Seq::<u8>::empty());
            }
        },
    }
}

} // verus!
