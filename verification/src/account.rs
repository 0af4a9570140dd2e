use vstd::prelude::*;

verus! {

/// The balance and the number of transfers sent from one address.
#[derive(Default, Debug, Clone, Copy, PartialEq, Eq, Hash, Structural)]
pub struct Account {
    pub balance: u128,
    pub nonce: u128,
}

impl Account {
    pub fn new(balance: u128, nonce: u128) -> (r: Self)
        ensures
            r.balance == balance,
            r.nonce == nonce,
    {
        Self { balance, nonce }
    }

    /// An account is empty when it holds nothing and has sent nothing.
    pub open spec fn spec_is_empty(&self) -> bool {
        self.balance == 0 && self.nonce == 0
    }

    /// The account that every address holds before anything happened to it.
    pub open spec fn empty() -> Account {
        Account { balance: 0, nonce: 0 }
    }

    #[verifier::when_used_as_spec(spec_is_empty)]
    pub fn is_empty(&self) -> (r: bool)
        ensures
            r == self.spec_is_empty(),
    {
        self.balance == 0 && self.nonce == 0
    }
}

} // verus!
