//! Blocks: a header and a list of transactions.
use vstd::prelude::*;
use crate::bytes::{
    array_of, le_bytes, lemma_array_of, lemma_le_bytes_len, lemma_le_roundtrip, lemma_pow256_values,
    lemma_subrange_of, push_bytes, push_le,
};
use crate::chain_id::ChainId;
use crate::chain_version::ChainVersion;
use crate::codec::{take_outcome, uint_outcome, DecodeError, Decoder};
use crate::transaction::{
    lemma_transaction_roundtrip, parse_transaction, same_transaction, transaction_bytes,
    Transaction,
};
use crate::transaction_kind::whole;

verus! {

#[derive(Debug, Clone, PartialEq, Eq, Hash)]
pub struct Block {
    pub chain_id: ChainId,
    pub chain_version: ChainVersion,
    pub block_height: u128,
    pub previous_block_hash: crate::hash::Hash,
    pub state_hash: crate::hash::Hash,
    pub transactions: Vec<Transaction>,
}

/// A block as a mathematical value.
pub struct BlockModel {
    pub chain_id: ChainId,
    pub chain_version: ChainVersion,
    pub block_height: u128,
    pub previous_block_hash: crate::hash::Hash,
    pub state_hash: crate::hash::Hash,
    pub transactions: Seq<Transaction>,
}

impl View for Block {
    type V = BlockModel;

    open spec fn view(&self) -> BlockModel {
        BlockModel {
            chain_id: self.chain_id,
            chain_version: self.chain_version,
            block_height: self.block_height,
            previous_block_hash: self.previous_block_hash,
            state_hash: self.state_hash,
            transactions: self.transactions@,
        }
    }
}

/// The canonical bytes of a list of transactions, one after the other.
pub open spec fn transactions_bytes(txs: Seq<Transaction>) -> Seq<u8>
    decreases txs.len(),
{
    if txs.len() == 0 {
        Seq::empty()
    } else {
        transaction_bytes(txs[0]) + transactions_bytes(txs.drop_first())
    }
}

pub proof fn lemma_transactions_bytes_push(txs: Seq<Transaction>, t: Transaction)
    ensures
        transactions_bytes(txs.push(t)) == transactions_bytes(txs) + transaction_bytes(t),
    decreases txs.len(),
{
    if txs.len() == 0 {
        let e = Seq::<Transaction>::empty();
        assert(txs.push(t).drop_first() =~= e);
        assert(transactions_bytes(e) == Seq::<u8>::empty());
        assert(transactions_bytes(txs) == Seq::<u8>::empty());
        assert(transactions_bytes(txs.push(t)) == transaction_bytes(t) + transactions_bytes(e));
        assert(transactions_bytes(txs.push(t)) =~= transaction_bytes(t));
    } else {
        assert(txs.push(t).drop_first() =~= txs.drop_first().push(t));
        lemma_transactions_bytes_push(txs.drop_first(), t);
        assert(transactions_bytes(txs.push(t)) =~= transactions_bytes(txs) + transaction_bytes(t));
    }
}

pub proof fn lemma_transactions_bytes_len(txs: Seq<Transaction>)
    ensures
        transactions_bytes(txs).len() == 165 * txs.len(),
    decreases txs.len(),
{
    if txs.len() > 0 {
        lemma_transactions_bytes_len(txs.drop_first());
        let t = txs[0];
        match t {
            Transaction::Transfer(tx) => {
                lemma_le_bytes_len(tx.payload.chain_id.0 as nat, 2);
                lemma_le_bytes_len(tx.payload.chain_version.0 as nat, 2);
                lemma_le_bytes_len(tx.payload.amount as nat, 16);
                lemma_le_bytes_len(tx.payload.nonce as nat, 16);
            },
        }
    }
}

/// The canonical bytes of a block. The transaction count is written in two bytes,
/// so it is only meaningful for at most 65535 transactions.
pub open spec fn block_bytes(b: BlockModel) -> Seq<u8> {
    le_bytes(b.chain_id.0 as nat, 2) + le_bytes(b.chain_version.0 as nat, 2) + le_bytes(
        b.block_height as nat,
        16,
    ) + b.previous_block_hash@ + b.state_hash@ + le_bytes(
        (b.transactions.len() % 0x1_0000) as nat,
        2,
    ) + transactions_bytes(b.transactions)
}

/// Reading `n` transactions one after the other from `pos`.
pub open spec fn parse_transactions(input: Seq<u8>, pos: int, n: nat) -> Result<
    (Seq<Transaction>, int),
    DecodeError,
>
    decreases n,
{
    if n == 0 {
        Ok((Seq::empty(), pos))
    } else {
        match parse_transaction(input, pos) {
            Err(e) => Err(e),
            Ok((t, p)) => match parse_transactions(input, p, (n - 1) as nat) {
                Err(e) => Err(e),
                Ok((rest, q)) => Ok((seq![t] + rest, q)),
            },
        }
    }
}

/// `prefix` put in front of what a reader gave.
pub open spec fn prepend_transactions(
    prefix: Seq<Transaction>,
    r: Result<(Seq<Transaction>, int), DecodeError>,
) -> Result<(Seq<Transaction>, int), DecodeError> {
    match r {
        Ok((rest, q)) => Ok((prefix + rest, q)),
        Err(e) => Err(e),
    }
}

/// Reading a block at `pos`.
pub open spec fn parse_block(input: Seq<u8>, pos: int) -> Result<(BlockModel, int), DecodeError> {
    match uint_outcome(input, pos, 2) {
        Err(e) => Err(e),
        Ok((chain_id, p1)) => match uint_outcome(input, p1, 2) {
            Err(e) => Err(e),
            Ok((chain_version, p2)) => match uint_outcome(input, p2, 16) {
                Err(e) => Err(e),
                Ok((block_height, p3)) => match take_outcome(input, p3, 32) {
                    Err(e) => Err(e),
                    Ok(previous) => match take_outcome(input, p3 + 32, 32) {
                        Err(e) => Err(e),
                        Ok(state) => match uint_outcome(input, p3 + 64, 2) {
                            Err(e) => Err(e),
                            Ok((count, p6)) => match parse_transactions(input, p6, count) {
                                Err(e) => Err(e),
                                Ok((transactions, q)) => Ok(
                                    (
                                        BlockModel {
                                            chain_id: ChainId(chain_id as u16),
                                            chain_version: ChainVersion(chain_version as u16),
                                            block_height: block_height as u128,
                                            previous_block_hash: crate::hash::Hash(array_of::<32>(previous)),
                                            state_hash: crate::hash::Hash(array_of::<32>(state)),
                                            transactions,
                                        },
                                        q,
                                    ),
                                ),
                            },
                        },
                    },
                },
            },
        },
    }
}

pub proof fn lemma_transactions_roundtrip(txs: Seq<Transaction>, input: Seq<u8>, pos: int)
    requires
        0 <= pos,
        pos + 165 * txs.len() <= input.len(),
        input.len() <= usize::MAX,
        input.subrange(pos, pos + 165 * txs.len()) == transactions_bytes(txs),
    ensures
        parse_transactions(input, pos, txs.len()) == Ok::<(Seq<Transaction>, int), DecodeError>(
            (txs, pos + 165 * txs.len()),
        ),
    decreases txs.len(),
{
    if txs.len() > 0 {
        let b = transactions_bytes(txs);
        let total: int = 165 * (txs.len() as int);
        lemma_transactions_bytes_len(txs.drop_first());
        lemma_subrange_of(input, pos, total, b, 0, 165);
        assert(b.subrange(0, 165) =~= transaction_bytes(txs[0])) by {
            match txs[0] {
                Transaction::Transfer(tx) => {
                    lemma_le_bytes_len(tx.payload.chain_id.0 as nat, 2);
                    lemma_le_bytes_len(tx.payload.chain_version.0 as nat, 2);
                    lemma_le_bytes_len(tx.payload.amount as nat, 16);
                    lemma_le_bytes_len(tx.payload.nonce as nat, 16);
                },
            }
        }
        lemma_transaction_roundtrip(txs[0], input, pos);
        lemma_subrange_of(input, pos, total, b, 165, total - 165);
        assert(b.subrange(165, total) =~= transactions_bytes(txs.drop_first()));
        lemma_transactions_roundtrip(txs.drop_first(), input, pos + 165);
        assert(seq![txs[0]] + txs.drop_first() =~= txs);
    } else {
        assert(txs =~= Seq::<Transaction>::empty());
    }
}

/// Reading back the bytes of a block with at most 65535 transactions, wherever they
/// stand, gives the block.
pub proof fn lemma_block_roundtrip_at(b: BlockModel, input: Seq<u8>, pos: int)
    requires
        b.transactions.len() <= 0xffff,
        0 <= pos,
        pos + block_bytes(b).len() <= input.len(),
        input.len() <= usize::MAX,
        input.subrange(pos, pos + block_bytes(b).len()) == block_bytes(b),
    ensures
        block_bytes(b).len() == 86 + 165 * b.transactions.len(),
        parse_block(input, pos) == Ok::<(BlockModel, int), DecodeError>(
            (b, pos + block_bytes(b).len()),
        ),
{
    lemma_pow256_values();
    let n = b.transactions.len();
    lemma_le_roundtrip(b.chain_id.0 as nat, 2);
    lemma_le_roundtrip(b.chain_version.0 as nat, 2);
    lemma_le_roundtrip(b.block_height as nat, 16);
    lemma_le_roundtrip(n, 2);
    lemma_transactions_bytes_len(b.transactions);
    lemma_array_of::<32>(b.previous_block_hash.0);
    lemma_array_of::<32>(b.state_hash.0);
    let bb = block_bytes(b);
    let total = bb.len() as int;
    lemma_subrange_of(input, pos, total, bb, 0, 2);
    assert(bb.subrange(0, 2) =~= le_bytes(b.chain_id.0 as nat, 2));
    lemma_subrange_of(input, pos, total, bb, 2, 2);
    assert(bb.subrange(2, 4) =~= le_bytes(b.chain_version.0 as nat, 2));
    lemma_subrange_of(input, pos, total, bb, 4, 16);
    assert(bb.subrange(4, 20) =~= le_bytes(b.block_height as nat, 16));
    lemma_subrange_of(input, pos, total, bb, 20, 32);
    assert(bb.subrange(20, 52) =~= b.previous_block_hash@);
    lemma_subrange_of(input, pos, total, bb, 52, 32);
    assert(bb.subrange(52, 84) =~= b.state_hash@);
    lemma_subrange_of(input, pos, total, bb, 84, 2);
    assert(bb.subrange(84, 86) =~= le_bytes(n, 2));
    lemma_subrange_of(input, pos, total, bb, 86, total - 86);
    assert(bb.subrange(86, total) =~= transactions_bytes(b.transactions));
    lemma_transactions_roundtrip(b.transactions, input, pos + 86);
}

/// Reading back the bytes of a block with at most 65535 transactions gives the block.
pub proof fn lemma_block_roundtrip(b: BlockModel)
    requires
        b.transactions.len() <= 0xffff,
        block_bytes(b).len() <= usize::MAX,
    ensures
        block_bytes(b).len() == 86 + 165 * b.transactions.len(),
        parse_block(block_bytes(b), 0) == Ok::<(BlockModel, int), DecodeError>(
            (b, block_bytes(b).len() as int),
        ),
{
    let input = block_bytes(b);
    assert(input.subrange(0, input.len() as int) =~= input);
    lemma_block_roundtrip_at(b, input, 0);
}

impl Block {
    pub fn new(
        chain_id: ChainId,
        chain_version: ChainVersion,
        block_height: u128,
        previous_block_hash: crate::hash::Hash,
        state_hash: crate::hash::Hash,
        transactions: Vec<Transaction>,
    ) -> (r: Self)
        ensures
            r.chain_id == chain_id,
            r.chain_version == chain_version,
            r.block_height == block_height,
            r.previous_block_hash == previous_block_hash,
            r.state_hash == state_hash,
            r.transactions == transactions,
    {
        Self { chain_id, chain_version, block_height, previous_block_hash, state_hash, transactions }
    }

    pub fn is_genesis(&self) -> (r: bool)
        ensures
            r == (self.block_height == 0),
    {
        self.block_height == 0
    }

    pub fn encoded_len(&self) -> (r: usize)
        requires
            86 + 165 * self.transactions@.len() <= usize::MAX,
        ensures
            r == block_bytes(self@).len(),
    {
        proof {
            lemma_le_bytes_len(self.chain_id.0 as nat, 2);
            lemma_le_bytes_len(self.chain_version.0 as nat, 2);
            lemma_le_bytes_len(self.block_height as nat, 16);
            lemma_le_bytes_len((self.transactions@.len() % 0x1_0000) as nat, 2);
            lemma_transactions_bytes_len(self.transactions@);
        }
        let chain_id: usize = 2;
        let chain_version: usize = 2;
        let block_height: usize = 16;
        let previous_block_hash: usize = 32;
        let state_hash: usize = 32;
        let transactions_len: usize = 2;
        let mut transactions: usize = 0;
        let mut i: usize = 0;
        while i < self.transactions.len()
            invariant
                i <= self.transactions@.len(),
                transactions == 165 * i,
                86 + 165 * self.transactions@.len() <= usize::MAX,
            decreases self.transactions@.len() - i,
        {
            transactions = transactions + self.transactions[i].encoded_len();
            i = i + 1;
        }
        chain_id + chain_version + block_height + previous_block_hash + state_hash
            + transactions_len + transactions
    }

    pub fn encode_canonical(&self, out: &mut Vec<u8>)
        ensures
            final(out)@ == old(out)@ + block_bytes(self@),
    {
        proof {
            lemma_pow256_values();
        }
        let ghost start = out@;
        push_le(out, self.chain_id.into_u16() as u128, 2);
        push_le(out, self.chain_version.into_u16() as u128, 2);
        push_le(out, self.block_height, 16);
        push_bytes(out, self.previous_block_hash.as_bytes().as_slice());
        push_bytes(out, self.state_hash.as_bytes().as_slice());
        push_le(out, (self.transactions.len() % 0x1_0000) as u128, 2);
        let ghost header = out@;
        let mut i: usize = 0;
        while i < self.transactions.len()
            invariant
                i <= self.transactions@.len(),
                out@ == header + transactions_bytes(self.transactions@.take(i as int)),
            decreases self.transactions@.len() - i,
        {
            self.transactions[i].encode_canonical(out);
            proof {
                assert(self.transactions@.take(i + 1) =~= self.transactions@.take(i as int).push(
                    self.transactions@[i as int],
                ));
                lemma_transactions_bytes_push(
                    self.transactions@.take(i as int),
                    self.transactions@[i as int],
                );
            }
            i = i + 1;
        }
        assert(self.transactions@.take(self.transactions@.len() as int) =~= self.transactions@);
        assert(out@ =~= start + block_bytes(self@));
    }

    pub fn decode_canonical(input: &[u8]) -> (r: Result<Self, DecodeError>)
        ensures
            match whole(parse_block(input@, 0), input@.len() as int) {
                Ok(m) => r matches Ok(b) && b@ == m,
                Err(e) => r matches Err(err) && err == e,
            },
    {
        let mut decoder = Decoder::new(input);
        let decoded = Self::decode_from(&mut decoder)?;
        decoder.finish()?;
        Ok(decoded)
    }

    pub fn decode_from(decoder: &mut Decoder) -> (r: Result<Self, DecodeError>)
        ensures
            final(decoder).data() == old(decoder).data(),
            match parse_block(old(decoder).data(), old(decoder).position()) {
                Ok((m, p)) => r matches Ok(b) && b@ == m && final(decoder).position() == p,
                Err(e) => r matches Err(err) && err == e,
            },
    {
        let chain_id = ChainId::new(decoder.read_u16_le()?);
        let chain_version = ChainVersion::new(decoder.read_u16_le()?);
        let block_height = decoder.read_u128_le()?;
        let previous_bytes = decoder.read_fixed::<32>()?;
        let state_bytes = decoder.read_fixed::<32>()?;
        let transactions_len = decoder.read_u16_le()?;
        proof {
            lemma_array_of::<32>(previous_bytes);
            lemma_array_of::<32>(state_bytes);
        }
        let ghost data = decoder.data();
        let ghost start = decoder.position();
        let ghost header = BlockModel {
            chain_id,
            chain_version,
            block_height,
            previous_block_hash: crate::hash::Hash(previous_bytes),
            state_hash: crate::hash::Hash(state_bytes),
            transactions: Seq::empty(),
        };
        assert(data == old(decoder).data());
        assert(match parse_transactions(data, start, transactions_len as nat) {
            Err(e) => parse_block(data, old(decoder).position()) == Err::<(BlockModel, int), DecodeError>(e),
            Ok((txs, q)) => parse_block(data, old(decoder).position()) == Ok::<(BlockModel, int), DecodeError>(
                (BlockModel { transactions: txs, ..header }, q),
            ),
        });
        let mut transactions: Vec<Transaction> = Vec::with_capacity(transactions_len as usize);
        let mut i: u16 = 0;
        assert(transactions@ + Seq::<Transaction>::empty() =~= transactions@);
        while i < transactions_len
            invariant
                i <= transactions_len,
                decoder.data() == data,
                data == old(decoder).data(),
                match parse_transactions(data, start, transactions_len as nat) {
                    Err(e) => parse_block(data, old(decoder).position()) == Err::<(BlockModel, int), DecodeError>(e),
                    Ok((txs, q)) => parse_block(data, old(decoder).position()) == Ok::<(BlockModel, int), DecodeError>(
                        (BlockModel { transactions: txs, ..header }, q),
                    ),
                },
                parse_transactions(data, start, transactions_len as nat) == prepend_transactions(
                    transactions@,
                    parse_transactions(data, decoder.position(), (transactions_len - i) as nat),
                ),
            decreases transactions_len - i,
        {
            let ghost before = transactions@;
            let transaction = Transaction::decode_from(decoder)?;
            transactions.push(transaction);
            assert(before + (seq![transaction] + Seq::<Transaction>::empty()) =~= transactions@
                + Seq::<Transaction>::empty());
            proof {
                let rest = parse_transactions(
                    data,
                    decoder.position(),
                    (transactions_len - i - 1) as nat,
                );
                if let Ok((s, q)) = rest {
                    assert(before + (seq![transaction] + s) =~= transactions@ + s);
                }
            }
            i = i + 1;
        }
        assert(transactions@ + Seq::<Transaction>::empty() =~= transactions@);
        Ok(
            Self::new(
                chain_id,
                chain_version,
                block_height,
                crate::hash::Hash::new(previous_bytes),
                crate::hash::Hash::new(state_bytes),
                transactions,
            ),
        )
    }
}

/// Whether two blocks are the same block.
pub fn same_block(a: &Block, b: &Block) -> (r: bool)
    ensures
        r <==> a@ == b@,
{
    if !(a.chain_id == b.chain_id && a.chain_version == b.chain_version && a.block_height
        == b.block_height && crate::hash::same_hash(&a.previous_block_hash, &b.previous_block_hash)
        && crate::hash::same_hash(&a.state_hash, &b.state_hash)) {
        return false;
    }
    if a.transactions.len() != b.transactions.len() {
        return false;
    }
    let mut i: usize = 0;
    while i < a.transactions.len()
        invariant
            i <= a.transactions@.len(),
            a.transactions@.len() == b.transactions@.len(),
            forall|k: int| 0 <= k < i ==> a.transactions@[k] == b.transactions@[k],
        decreases a.transactions@.len() - i,
    {
        if !same_transaction(&a.transactions[i], &b.transactions[i]) {
            return false;
        }
        i = i + 1;
    }
    assert(a.transactions@ =~= b.transactions@);
    true
}

} // verus!
