//! SHA-256 digests, and the digests that identify states, transaction lists and blocks.
use vstd::prelude::*;
use sha2::{Digest, Sha256};
use crate::account::Account;
use crate::address::Address;
use crate::block::{
    lemma_transactions_bytes_len, lemma_transactions_bytes_push, transactions_bytes, Block, BlockModel,
};
use crate::bytes::{
    array_of, compare_bytes, le_bytes, le_value, lemma_array_of, lemma_le_roundtrip, lemma_pow256_values,
    push_bytes, push_le, Cmp,
};
use crate::entries::{merge, nonempty, Entry};
use crate::state::{StateDelta, StateDeltaOverlay, StateView};
use crate::text::lower_hex;
use crate::transaction::{lemma_transaction_roundtrip, parse_transaction, transaction_bytes, Transaction};

verus! {

/// A 32-byte SHA-256 digest.
#[derive(Debug, Clone, Copy, PartialEq, Eq, PartialOrd, Ord, Hash)]
pub struct Hash(pub [u8; 32]);

impl View for Hash {
    type V = Seq<u8>;

    open spec fn view(&self) -> Seq<u8> {
        self.0@
    }
}

/// The SHA-256 digest of `data`.
pub uninterp spec fn sha256(data: Seq<u8>) -> Seq<u8>;

/// `sha2::Sha256::digest`, converted into an array: the SHA-256 digest of `data`,
/// a function of the bytes alone.
#[verifier::external_body]
fn sha256_digest(data: &[u8]) -> (r: [u8; 32])
    ensures
        r@ == sha256(data@),
{
    Sha256::digest(data).into()
}

/// `hex::encode`: two lower-case hexadecimal digits per byte, high digit first.
#[verifier::external_body]
fn hex_encode(bytes: &[u8; 32]) -> (r: String)
    ensures
        r@ == lower_hex(bytes@),
{
    hex::encode(bytes)
}

/// The 32 zero bytes.
pub open spec fn zero_hash() -> Seq<u8> {
    Seq::new(32, |i: int| 0u8)
}

impl Hash {
    pub fn new(bytes: [u8; 32]) -> (r: Self)
        ensures
            r.0 == bytes,
    {
        Self(bytes)
    }

    pub fn zero() -> (r: Self)
        ensures
            r@ == zero_hash(),
    {
        let r = Self([0u8; 32]);
        assert(r@ =~= zero_hash());
        r
    }

    pub fn as_bytes(&self) -> (r: &[u8; 32])
        ensures
            *r == self.0,
    {
        &self.0
    }

    /// The SHA-256 digest of `data`.
    pub fn compute(data: &[u8]) -> (r: Self)
        ensures
            r@ == sha256(data@),
    {
        Self(sha256_digest(data))
    }

    /// The display text: `0x` and the lower-case hexadecimal digits of the bytes.
    pub fn to_string(&self) -> (r: String)
        ensures
            r@ == seq!['0', 'x'] + lower_hex(self@),
    {
        proof {
            reveal_strlit("0x");
        }
        let mut s = String::from_str("0x");
        let digits = hex_encode(&self.0);
        s.append(digits.as_str());
        s
    }
}

/// Two digests with the same bytes are the same digest.
pub proof fn lemma_hash_view_injective(a: Hash, b: Hash)
    requires
        a@ == b@,
    ensures
        a == b,
{
    broadcast use vstd::array::group_array_axioms;

    assert(a.0 =~= b.0) by {
        assert forall|i: int| 0 <= i < 32 implies a.0[i] == b.0[i] by {
            assert(a.0@[i] == b.0@[i]);
        }
    }
}

/// Whether two digests are the same.
pub fn same_hash(a: &Hash, b: &Hash) -> (r: bool)
    ensures
        r <==> a == b,
        r <==> a@ == b@,
{
    let c = compare_bytes(a.0.as_slice(), b.0.as_slice());
    proof {
        if a@ == b@ {
            lemma_hash_view_injective(*a, *b);
        }
    }
    match c {
        Cmp::Equal => true,
        _ => false,
    }
}

/// The bytes hashed to fold one account into the rolling state hash.
pub open spec fn state_hash_preimage(rolling: Seq<u8>, address: Seq<u8>, account: Account) -> Seq<
    u8,
> {
    rolling + address + le_bytes(account.balance as nat, 16) + le_bytes(account.nonce as nat, 16)
}

/// Folds the non-empty accounts of `s`, in order, into the rolling hash `h`.
pub open spec fn rolling_state_hash(h: Seq<u8>, s: Seq<Entry>) -> Seq<u8>
    decreases s.len(),
{
    if s.len() == 0 {
        h
    } else if s[0].1.spec_is_empty() {
        rolling_state_hash(h, s.drop_first())
    } else {
        rolling_state_hash(sha256(state_hash_preimage(h, s[0].0@, s[0].1)), s.drop_first())
    }
}

/// The hash of a state whose rows, in address order, are `s`.
pub open spec fn state_hash(s: Seq<Entry>) -> Seq<u8> {
    rolling_state_hash(zero_hash(), s)
}

/// The bytes that fold an account into the rolling hash begin with the rolling hash
/// itself, then the address, then the balance and the nonce, each read back from
/// sixteen little-endian bytes.
pub proof fn lemma_state_hash_preimage_layout(rolling: Seq<u8>, address: Seq<u8>, account: Account)
    ensures
        state_hash_preimage(rolling, address, account).len() == rolling.len() + address.len() + 32,
        state_hash_preimage(rolling, address, account).subrange(0, rolling.len() as int) == rolling,
        state_hash_preimage(rolling, address, account).subrange(
            rolling.len() as int,
            (rolling.len() + address.len()) as int,
        ) == address,
        le_value(
            state_hash_preimage(rolling, address, account).subrange(
                (rolling.len() + address.len()) as int,
                (rolling.len() + address.len() + 16) as int,
            ),
        ) == account.balance,
        le_value(
            state_hash_preimage(rolling, address, account).subrange(
                (rolling.len() + address.len() + 16) as int,
                (rolling.len() + address.len() + 32) as int,
            ),
        ) == account.nonce,
{
    lemma_pow256_values();
    lemma_le_roundtrip(account.balance as nat, 16);
    lemma_le_roundtrip(account.nonce as nat, 16);
    let p = state_hash_preimage(rolling, address, account);
    let r = rolling.len() as int;
    let a = address.len() as int;
    assert(p.subrange(0, r) =~= rolling);
    assert(p.subrange(r, r + a) =~= address);
    assert(p.subrange(r + a, r + a + 16) =~= le_bytes(account.balance as nat, 16));
    assert(p.subrange(r + a + 16, r + a + 32) =~= le_bytes(account.nonce as nat, 16));
}

/// Putting an account after the others folds it into the hash of the others when it
/// is not empty, and leaves that hash as it is when it is empty.
pub proof fn lemma_state_hash_push(h: Seq<u8>, s: Seq<Entry>, e: Entry)
    ensures
        rolling_state_hash(h, s.push(e)) == (if e.1.spec_is_empty() {
            rolling_state_hash(h, s)
        } else {
            sha256(state_hash_preimage(rolling_state_hash(h, s), e.0@, e.1))
        }),
    decreases s.len(),
{
    if s.len() == 0 {
        let empty = Seq::<Entry>::empty();
        assert(s.push(e).drop_first() =~= empty);
        assert(s.push(e)[0] == e);
        assert(rolling_state_hash(h, s) == h);
        if e.1.spec_is_empty() {
            assert(rolling_state_hash(h, s.push(e)) == rolling_state_hash(h, empty));
        } else {
            let x = sha256(state_hash_preimage(h, e.0@, e.1));
            assert(rolling_state_hash(h, s.push(e)) == rolling_state_hash(x, empty));
            assert(rolling_state_hash(x, empty) == x);
        }
    } else {
        assert(s.push(e).drop_first() =~= s.drop_first().push(e));
        assert(s.push(e)[0] == s[0]);
        if s[0].1.spec_is_empty() {
            lemma_state_hash_push(h, s.drop_first(), e);
        } else {
            lemma_state_hash_push(
                sha256(state_hash_preimage(h, s[0].0@, s[0].1)),
                s.drop_first(),
                e,
            );
        }
    }
}

/// A state with no accounts hashes to 32 zero bytes; the rolling hash starts there.
pub proof fn lemma_state_hash_of_no_accounts()
    ensures
        state_hash(Seq::<Entry>::empty()).len() == 32,
        forall|i: int| 0 <= i < 32 ==> #[trigger] state_hash(Seq::<Entry>::empty())[i] == 0u8,
{
}

/// Rows of empty accounts do not count towards the state hash.
pub proof fn lemma_state_hash_ignores_empty(h: Seq<u8>, s: Seq<Entry>)
    ensures
        rolling_state_hash(h, s) == rolling_state_hash(h, nonempty(s)),
    decreases s.len(),
{
    if s.len() > 0 {
        let t = s.drop_first();
        if s[0].1.spec_is_empty() {
            lemma_state_hash_ignores_empty(h, t);
        } else {
            let n = nonempty(s);
            assert(n.drop_first() =~= nonempty(t));
            lemma_state_hash_ignores_empty(sha256(state_hash_preimage(h, s[0].0@, s[0].1)), t);
        }
    }
}

/// The hash of a state with a change laid over it is the hash of the state after it
/// took the change in, whichever empty rows either keeps.
pub proof fn lemma_state_hash_after_delta(before: Seq<Entry>, d: Seq<Entry>, after: Seq<Entry>)
    requires
        nonempty(after) == nonempty(merge(before, d)),
    ensures
        state_hash(after) == state_hash(merge(before, d)),
{
    lemma_state_hash_ignores_empty(zero_hash(), after);
    lemma_state_hash_ignores_empty(zero_hash(), merge(before, d));
}

/// The bytes that fold `account` at `address` into the rolling hash `rolling`.
pub fn encode_state_hash_preimage(rolling: &Hash, address: &Address, account: &Account) -> (r: Vec<
    u8,
>)
    ensures
        r@ == state_hash_preimage(rolling@, address@, *account),
        r@.len() == 96,
        r@.subrange(0, 32) == rolling@,
        r@.subrange(32, 64) == address@,
        le_value(r@.subrange(64, 80)) == account.balance,
        le_value(r@.subrange(80, 96)) == account.nonce,
{
    proof {
        lemma_pow256_values();
        lemma_state_hash_preimage_layout(rolling@, address@, *account);
    }
    let mut preimage: Vec<u8> = Vec::with_capacity(32 + 32 + 16 + 16);
    push_bytes(&mut preimage, rolling.as_bytes().as_slice());
    push_bytes(&mut preimage, address.as_bytes().as_slice());
    push_le(&mut preimage, account.balance, 16);
    push_le(&mut preimage, account.nonce, 16);
    preimage
}

/// Folds the non-empty rows of `rows`, in order, into the zero hash.
fn rolling_hash_of(rows: &Vec<Entry>) -> (r: Hash)
    ensures
        r@ == state_hash(rows@),
{
    let mut rolling = Hash::zero();
    let mut i: usize = 0;
    assert(rows@.skip(0) =~= rows@);
    while i < rows.len()
        invariant
            i <= rows@.len(),
            state_hash(rows@) == rolling_state_hash(rolling@, rows@.skip(i as int)),
        decreases rows@.len() - i,
    {
        let (address, account) = rows[i];
        assert(rows@.skip(i as int)[0] == (address, account));
        assert(rows@.skip(i as int).drop_first() =~= rows@.skip(i + 1));
        if !account.is_empty() {
            let preimage = encode_state_hash_preimage(&rolling, &address, &account);
            rolling = Hash::compute(preimage.as_slice());
        }
        i = i + 1;
    }
    rolling
}

/// The hash of `state`: the zero hash, folded with each non-empty account in address order.
pub fn compute_state_hash<S: StateView>(state: &S) -> (r: Hash)
    requires
        state.wf(),
    ensures
        r@ == state_hash(state.entries()),
{
    let rows = state.all_accounts_in_order();
    rolling_hash_of(&rows)
}

/// The hash of `state` with `delta` laid over it.
pub fn compute_state_hash_from_delta<S: StateView>(state: &S, delta: &StateDelta) -> (r: Hash)
    requires
        state.wf(),
        delta.wf(),
    ensures
        r@ == state_hash(merge(state.entries(), delta@)),
{
    let overlay = StateDeltaOverlay::new(state, delta);
    proof {
        overlay.lemma_entries();
    }
    let rows = overlay.all_accounts_in_order();
    rolling_hash_of(&rows)
}

/// The bytes hashed to identify a list of transactions: the count as two
/// little-endian bytes, then the canonical bytes of each transaction in order.
pub open spec fn transactions_hash_preimage(txs: Seq<Transaction>) -> Seq<u8> {
    le_bytes(txs.len(), 2) + transactions_bytes(txs)
}

/// The digest that identifies a list of transactions.
pub open spec fn transactions_hash(txs: Seq<Transaction>) -> Seq<u8> {
    sha256(transactions_hash_preimage(txs))
}

/// The bytes hashed to identify a block: chain id, chain version and height in
/// little-endian, the previous block hash, the state hash and the transactions hash.
pub open spec fn block_hash_preimage(b: BlockModel) -> Seq<u8> {
    le_bytes(b.chain_id.0 as nat, 2) + le_bytes(b.chain_version.0 as nat, 2) + le_bytes(
        b.block_height as nat,
        16,
    ) + b.previous_block_hash@ + b.state_hash@ + transactions_hash(b.transactions)
}

/// The digest that identifies a block.
pub open spec fn block_hash(b: BlockModel) -> Seq<u8> {
    sha256(block_hash_preimage(b))
}

/// The digest that identifies a block, as a value of [`Hash`].
pub open spec fn block_hash_value(b: BlockModel) -> Hash {
    Hash(array_of::<32>(block_hash(b)))
}

/// The bytes of a list of transactions hold each transaction's 165 bytes in turn.
proof fn lemma_transactions_bytes_at(txs: Seq<Transaction>, i: int)
    requires
        0 <= i < txs.len(),
    ensures
        transactions_bytes(txs).subrange(165 * i, 165 * i + 165) == transaction_bytes(txs[i]),
    decreases txs.len(),
{
    let rest = txs.drop_first();
    lemma_transactions_bytes_len(txs);
    lemma_transactions_bytes_len(rest);
    let first = transaction_bytes(txs[0]);
    assert(first.len() == 165);
    if i == 0 {
        assert(transactions_bytes(txs).subrange(0, 165) =~= first);
    } else {
        lemma_transactions_bytes_at(rest, i - 1);
        assert(rest[i - 1] == txs[i]);
        assert(transactions_bytes(txs).subrange(165 * i, 165 * i + 165) =~= transactions_bytes(
            rest,
        ).subrange(165 * (i - 1), 165 * (i - 1) + 165));
    }
}

/// The bytes that identify a list of transactions are its count, read back from two
/// little-endian bytes, followed by the 165 bytes of every transaction in order.
pub proof fn lemma_transactions_hash_preimage_layout(txs: Seq<Transaction>)
    requires
        txs.len() <= 0xffff,
    ensures
        transactions_hash_preimage(txs).len() == 2 + 165 * txs.len(),
        le_value(transactions_hash_preimage(txs).subrange(0, 2)) == txs.len(),
        forall|i: int|
            0 <= i < txs.len() ==> #[trigger] transactions_hash_preimage(txs).subrange(
                2 + 165 * i,
                2 + 165 * i + 165,
            ) == transaction_bytes(txs[i]),
{
    lemma_pow256_values();
    lemma_le_roundtrip(txs.len(), 2);
    lemma_transactions_bytes_len(txs);
    let p = transactions_hash_preimage(txs);
    assert(p.subrange(0, 2) =~= le_bytes(txs.len(), 2));
    assert forall|i: int| 0 <= i < txs.len() implies #[trigger] p.subrange(
        2 + 165 * i,
        2 + 165 * i + 165,
    ) == transaction_bytes(txs[i]) by {
        lemma_transactions_bytes_at(txs, i);
        assert(p.subrange(2 + 165 * i, 2 + 165 * i + 165) =~= transactions_bytes(txs).subrange(
            165 * i,
            165 * i + 165,
        ));
    }
}

/// Two lists of transactions with the same identifying bytes are the same list: any
/// transaction that differs changes the bytes.
pub proof fn lemma_transactions_hash_preimage_injective(a: Seq<Transaction>, b: Seq<Transaction>)
    requires
        a.len() <= 0xffff,
        b.len() <= 0xffff,
        transactions_hash_preimage(a) == transactions_hash_preimage(b),
    ensures
        a == b,
{
    lemma_transactions_hash_preimage_layout(a);
    lemma_transactions_hash_preimage_layout(b);
    let p = transactions_hash_preimage(a);
    assert(a.len() == b.len());
    assert forall|i: int| 0 <= i < a.len() implies a[i] == b[i] by {
        let bytes = p.subrange(2 + 165 * i, 2 + 165 * i + 165);
        assert(bytes == transaction_bytes(a[i]));
        assert(bytes == transaction_bytes(b[i]));
        assert(bytes.subrange(0, 165) =~= bytes);
        lemma_transaction_roundtrip(a[i], bytes, 0);
        lemma_transaction_roundtrip(b[i], bytes, 0);
    }
    assert(a =~= b);
}

/// The bytes that identify a block: its chain id, chain version and height read back
/// from 2, 2 and 16 little-endian bytes, then the previous block hash, the state
/// hash, and the digest of its transactions.
pub proof fn lemma_block_hash_preimage_layout(b: BlockModel)
    ensures
        block_hash_preimage(b).len() == 84 + transactions_hash(b.transactions).len(),
        le_value(block_hash_preimage(b).subrange(0, 2)) == b.chain_id.0,
        le_value(block_hash_preimage(b).subrange(2, 4)) == b.chain_version.0,
        le_value(block_hash_preimage(b).subrange(4, 20)) == b.block_height,
        block_hash_preimage(b).subrange(20, 52) == b.previous_block_hash@,
        block_hash_preimage(b).subrange(52, 84) == b.state_hash@,
        block_hash_preimage(b).subrange(84, block_hash_preimage(b).len() as int) == transactions_hash(
            b.transactions,
        ),
{
    broadcast use vstd::array::group_array_axioms;

    lemma_pow256_values();
    lemma_le_roundtrip(b.chain_id.0 as nat, 2);
    lemma_le_roundtrip(b.chain_version.0 as nat, 2);
    lemma_le_roundtrip(b.block_height as nat, 16);
    let p = block_hash_preimage(b);
    assert(b.previous_block_hash@.len() == 32);
    assert(b.state_hash@.len() == 32);
    assert(p.subrange(0, 2) =~= le_bytes(b.chain_id.0 as nat, 2));
    assert(p.subrange(2, 4) =~= le_bytes(b.chain_version.0 as nat, 2));
    assert(p.subrange(4, 20) =~= le_bytes(b.block_height as nat, 16));
    assert(p.subrange(20, 52) =~= b.previous_block_hash@);
    assert(p.subrange(52, 84) =~= b.state_hash@);
    assert(p.subrange(84, p.len() as int) =~= transactions_hash(b.transactions));
}

/// Two blocks with the same identifying bytes agree on chain id, chain version,
/// height, previous block hash, state hash and transactions digest: a block that
/// differs in any of them has other bytes.
pub proof fn lemma_block_hash_preimage_injective(a: BlockModel, b: BlockModel)
    requires
        block_hash_preimage(a) == block_hash_preimage(b),
    ensures
        a.chain_id.0 == b.chain_id.0,
        a.chain_version.0 == b.chain_version.0,
        a.block_height == b.block_height,
        a.previous_block_hash == b.previous_block_hash,
        a.state_hash == b.state_hash,
        transactions_hash(a.transactions) == transactions_hash(b.transactions),
{
    lemma_block_hash_preimage_layout(a);
    lemma_block_hash_preimage_layout(b);
    lemma_hash_view_injective(a.previous_block_hash, b.previous_block_hash);
    lemma_hash_view_injective(a.state_hash, b.state_hash);
}

/// The bytes that identify `transactions`; at most 65535 of them can be counted.
pub fn encode_transactions_hash_preimage(transactions: &[Transaction]) -> (r: Vec<u8>)
    requires
        transactions@.len() <= 0xffff,
    ensures
        r@ == transactions_hash_preimage(transactions@),
        r@.len() == 2 + 165 * transactions@.len(),
        le_value(r@.subrange(0, 2)) == transactions@.len(),
        forall|i: int|
            0 <= i < transactions@.len() ==> #[trigger] r@.subrange(2 + 165 * i, 2 + 165 * i + 165)
                == transaction_bytes(transactions@[i]),
{
    proof {
        lemma_pow256_values();
        lemma_transactions_hash_preimage_layout(transactions@);
    }
    let mut preimage: Vec<u8> = Vec::new();
    push_le(&mut preimage, transactions.len() as u128, 2);
    let ghost header = preimage@;
    let mut i: usize = 0;
    while i < transactions.len()
        invariant
            i <= transactions@.len(),
            preimage@ == header + transactions_bytes(transactions@.take(i as int)),
        decreases transactions@.len() - i,
    {
        transactions[i].encode_canonical(&mut preimage);
        proof {
            assert(transactions@.take(i + 1) =~= transactions@.take(i as int).push(
                transactions@[i as int],
            ));
            lemma_transactions_bytes_push(transactions@.take(i as int), transactions@[i as int]);
        }
        i = i + 1;
    }
    assert(transactions@.take(transactions@.len() as int) =~= transactions@);
    assert(preimage@ =~= transactions_hash_preimage(transactions@));
    preimage
}

/// The digest that identifies `transactions`.
pub fn compute_transactions_hash(transactions: &[Transaction]) -> (r: Hash)
    requires
        transactions@.len() <= 0xffff,
    ensures
        r@ == transactions_hash(transactions@),
{
    let preimage = encode_transactions_hash_preimage(transactions);
    Hash::compute(preimage.as_slice())
}

/// The bytes that identify `block`.
pub fn encode_block_hash_preimage(block: &Block) -> (r: Vec<u8>)
    requires
        block.transactions@.len() <= 0xffff,
    ensures
        r@ == block_hash_preimage(block@),
        r@.len() == 116,
        le_value(r@.subrange(0, 2)) == block.chain_id.0,
        le_value(r@.subrange(2, 4)) == block.chain_version.0,
        le_value(r@.subrange(4, 20)) == block.block_height,
        r@.subrange(20, 52) == block.previous_block_hash@,
        r@.subrange(52, 84) == block.state_hash@,
        r@.subrange(84, 116) == transactions_hash(block.transactions@),
{
    broadcast use vstd::array::group_array_axioms;

    proof {
        lemma_pow256_values();
        lemma_block_hash_preimage_layout(block@);
    }
    let transactions_hash = compute_transactions_hash(block.transactions.as_slice());
    let mut preimage: Vec<u8> = Vec::with_capacity(2 + 2 + 16 + 32 + 32 + 32);
    push_le(&mut preimage, block.chain_id.into_u16() as u128, 2);
    push_le(&mut preimage, block.chain_version.into_u16() as u128, 2);
    push_le(&mut preimage, block.block_height, 16);
    push_bytes(&mut preimage, block.previous_block_hash.as_bytes().as_slice());
    push_bytes(&mut preimage, block.state_hash.as_bytes().as_slice());
    push_bytes(&mut preimage, transactions_hash.as_bytes().as_slice());
    assert(preimage@ =~= block_hash_preimage(block@));
    preimage
}

/// The digest that identifies `block`.
pub fn compute_block_hash(block: &Block) -> (r: Hash)
    requires
        block.transactions@.len() <= 0xffff,
    ensures
        r@ == block_hash(block@),
        r == block_hash_value(block@),
{
    let preimage = encode_block_hash_preimage(block);
    let r = Hash::compute(preimage.as_slice());
    proof {
        lemma_array_of::<32>(r.0);
    }
    r
}

} // verus!
