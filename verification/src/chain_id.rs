use vstd::prelude::*;
use crate::text::{hex4, hex4_with_prefix};

verus! {

/// The identifier of a chain; transfers and blocks name the chain they belong to.
#[derive(Debug, Clone, Copy, PartialEq, Eq, PartialOrd, Ord, Hash, Structural)]
pub struct ChainId(pub u16);

impl ChainId {
    pub fn new(id: u16) -> (r: Self)
        ensures
            r.0 == id,
    {
        Self(id)
    }

    pub fn into_u16(self) -> (r: u16)
        ensures
            r == self.0,
    {
        self.0
    }

    /// The display text: `0x` and four lower-case hexadecimal digits.
    pub fn to_string(&self) -> (r: String)
        ensures
            r@ == seq!['0', 'x'] + hex4(self.0),
    {
        hex4_with_prefix(self.0)
    }
}

} // verus!
