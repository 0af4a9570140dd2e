use vstd::prelude::*;
use crate::text::{hex4, hex4_with_prefix};

verus! {

/// The version of the rules a chain runs by.
#[derive(Debug, Clone, Copy, PartialEq, Eq, PartialOrd, Ord, Hash, Structural)]
pub struct ChainVersion(pub u16);

impl ChainVersion {
    pub fn new(version: u16) -> (r: Self)
        ensures
            r.0 == version,
    {
        Self(version)
    }

    pub fn into_u16(self) -> (r: u16)
        ensures
            r == self.0,
    {
        self.0
    }

    /// The display text: `0x` and four lower-case hexadecimal digits.
    pub fn to_string(&self) -> (r: String)
        ensures
            r@ == seq!['0', 'x'] + hex4(self.0),
    {
        hex4_with_prefix(self.0)
    }
}

} // verus!
