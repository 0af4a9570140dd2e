use vstd::prelude::*;
use crate::bytes::{bytes_lt, compare_bytes, Cmp};

verus! {

/// An account address: the 32 bytes of an Ed25519 verifying key.
#[derive(Debug, Clone, Copy, PartialEq, Eq, PartialOrd, Ord, Hash)]
pub struct Address(pub [u8; 32]);

impl View for Address {
    type V = Seq<u8>;

    open spec fn view(&self) -> Seq<u8> {
        self.0@
    }
}

impl Address {
    pub fn new(bytes: [u8; 32]) -> (r: Self)
        ensures
            r.0 == bytes,
    {
        Self(bytes)
    }

    pub fn as_bytes(&self) -> (r: &[u8; 32])
        ensures
            *r == self.0,
    {
        &self.0
    }
}

/// Two addresses with the same bytes are the same address.
pub proof fn lemma_address_view_injective(a: Address, b: Address)
    requires
        a@ == b@,
    ensures
        a == b,
{
    broadcast use vstd::array::group_array_axioms;

    assert(a.0 =~= b.0) by {
        assert forall|i: int| 0 <= i < 32 implies a.0[i] == b.0[i] by {
            assert(a.0@[i] == b.0@[i]);
        }
    }
}

/// Compares two addresses in byte-wise order.
pub fn compare_addresses(a: &Address, b: &Address) -> (r: Cmp)
    ensures
        r == Cmp::Less <==> bytes_lt(a@, b@),
        r == Cmp::Greater <==> bytes_lt(b@, a@),
        r == Cmp::Equal <==> a@ == b@,
{
    compare_bytes(a.0.as_slice(), b.0.as_slice())
}

/// Whether two addresses are the same.
pub fn same_address(a: &Address, b: &Address) -> (r: bool)
    ensures
        r <==> a == b,
{
    let c = compare_addresses(a, b);
    proof {
        if a@ == b@ {
            lemma_address_view_injective(*a, *b);
        }
    }
    match c {
        Cmp::Equal => true,
        _ => false,
    }
}

/// Whether `a` is one of `list`.
pub fn contains_address(list: &Vec<Address>, a: &Address) -> (r: bool)
    ensures
        r == list@.contains(*a),
{
    let mut i: usize = 0;
    while i < list.len()
        invariant
            i <= list@.len(),
            forall|k: int| 0 <= k < i ==> list@[k] != *a,
        decreases list@.len() - i,
    {
        if same_address(&list[i], a) {
            assert(list@[i as int] == *a);
            return true;
        }
        i = i + 1;
    }
    false
}

} // verus!
