//! Account states, the changes a transaction or block makes to them, and views
//! that lay a change over a state without touching it.
use vstd::prelude::*;
use crate::account::Account;
use crate::address::Address;
use crate::entries::{
    drop_empty_entries, find_entry, from_list, has_key, lemma_from_list_sorted, lemma_lookup_merge,
    lemma_merge_sorted, lemma_nonempty_identity, lemma_nonempty_props, lookup, merge,
    merge_entries, nonempty, sorted, Entry,
};

verus! {

/// Read access to the accounts of a state.
///
/// A state is the table `entries()` in address order; an address without a row
/// holds the empty account.
pub trait StateView {
    spec fn entries(&self) -> Seq<Entry>;

    spec fn wf(&self) -> bool;

    proof fn lemma_wf_sorted(&self)
        requires
            self.wf(),
        ensures
            sorted(self.entries()),
    ;

    /// Every row, in address order.
    fn all_accounts_in_order(&self) -> (r: Vec<Entry>)
        requires
            self.wf(),
        ensures
            r@ == self.entries(),
    ;

    /// The account held at `address`.
    fn get_account(&self, address: &Address) -> (r: Account)
        requires
            self.wf(),
        ensures
            r == lookup(self.entries(), address@),
    ;
}

/// A state that can take in a change.
pub trait WritableState: StateView {
    /// Applies `delta`: afterwards every address holds what `delta` gives it, or
    /// what it held before where `delta` has no row for it. A state may keep or
    /// drop rows of empty accounts.
    fn apply_delta(&mut self, delta: StateDelta)
        requires
            old(self).wf(),
            delta.wf(),
        ensures
            final(self).wf(),
            nonempty(final(self).entries()) == nonempty(merge(old(self).entries(), delta@)),
    ;
}

/// New accounts for some addresses, in address order.
#[derive(Default, Debug, Clone, PartialEq, Eq, Hash)]
pub struct StateDelta {
    account_updates: Vec<Entry>,
}

impl View for StateDelta {
    type V = Seq<Entry>;

    closed spec fn view(&self) -> Seq<Entry> {
        self.account_updates@
    }
}

impl StateDelta {
    pub open spec fn wf(&self) -> bool {
        sorted(self@)
    }

    pub fn new() -> (r: Self)
        ensures
            r@ == Seq::<Entry>::empty(),
            r.wf(),
    {
        Self { account_updates: Vec::new() }
    }

    pub fn account_updates(&self) -> (r: &Vec<Entry>)
        ensures
            r@ == self@,
    {
        &self.account_updates
    }

    pub fn is_empty(&self) -> (r: bool)
        ensures
            r <==> self@.len() == 0,
    {
        self.account_updates.len() == 0
    }

    /// Sets the new account of `address`, replacing any earlier one.
    pub fn update_account(&mut self, address: Address, account: Account)
        requires
            old(self).wf(),
        ensures
            final(self)@ == merge(old(self)@, seq![(address, account)]),
            final(self).wf(),
    {
        let mut single: Vec<Entry> = Vec::new();
        single.push((address, account));
        proof {
            lemma_merge_sorted(self@, single@);
        }
        self.account_updates = merge_entries(&self.account_updates, &single);
    }

    pub fn into_account_updates(self) -> (r: Vec<Entry>)
        ensures
            r@ == self@,
    {
        self.account_updates
    }

    /// The updates of both; where both set an address, `rhs` wins.
    pub fn merge(lhs: Self, rhs: Self) -> (r: Self)
        requires
            lhs.wf(),
            rhs.wf(),
        ensures
            r@ == merge(lhs@, rhs@),
            r.wf(),
    {
        proof {
            lemma_merge_sorted(lhs@, rhs@);
        }
        Self { account_updates: merge_entries(&lhs.account_updates, &rhs.account_updates) }
    }

    /// The new account this change sets for `address`, if it sets one.
    pub fn account_update(&self, address: &Address) -> (r: Option<Account>)
        ensures
            r is Some <==> has_key(self@, address@),
            r matches Some(acc) ==> acc == lookup(self@, address@),
    {
        find_entry(&self.account_updates, address)
    }
}

/// A state seen through a change laid over it.
pub struct StateDeltaOverlay<'s, S: StateView> {
    base: &'s S,
    delta: &'s StateDelta,
}

impl<'s, S: StateView> StateDeltaOverlay<'s, S> {
    pub closed spec fn base(&self) -> S {
        *self.base
    }

    pub closed spec fn delta(&self) -> StateDelta {
        *self.delta
    }

    pub fn new(base: &'s S, delta: &'s StateDelta) -> (r: Self)
        ensures
            r.base() == *base,
            r.delta() == *delta,
    {
        Self { base, delta }
    }
}

impl<'s, S: StateView> StateView for StateDeltaOverlay<'s, S> {
    closed spec fn entries(&self) -> Seq<Entry> {
        merge(self.base.entries(), self.delta@)
    }

    closed spec fn wf(&self) -> bool {
        self.base.wf() && self.delta.wf()
    }

    proof fn lemma_wf_sorted(&self) {
        self.base.lemma_wf_sorted();
        lemma_merge_sorted(self.base.entries(), self.delta@);
    }

    fn all_accounts_in_order(&self) -> (r: Vec<Entry>) {
        let base = self.base.all_accounts_in_order();
        merge_entries(&base, self.delta.account_updates())
    }

    fn get_account(&self, address: &Address) -> (r: Account) {
        proof {
            self.base.lemma_wf_sorted();
            lemma_lookup_merge(self.base.entries(), self.delta@, address@);
        }
        match self.delta.account_update(address) {
            Some(account) => account,
            None => self.base.get_account(address),
        }
    }
}

impl<'s, S: StateView> StateDeltaOverlay<'s, S> {
    /// What the overlay shows: the base with the change laid over it.
    pub proof fn lemma_entries(&self)
        ensures
            self.entries() == merge(self.base().entries(), self.delta()@),
            self.wf() == (self.base().wf() && self.delta().wf()),
    {
    }
}

/// A state under construction: a base state and the change made to it so far.
pub struct WorkingState<'s, S: StateView> {
    base: &'s S,
    delta: StateDelta,
}

impl<'s, S: StateView> WorkingState<'s, S> {
    pub closed spec fn base(&self) -> S {
        *self.base
    }

    pub closed spec fn delta(&self) -> StateDelta {
        self.delta
    }

    pub fn new(base: &'s S) -> (r: Self)
        ensures
            r.base() == *base,
            r.delta()@ == Seq::<Entry>::empty(),
            r.delta().wf(),
    {
        Self { base, delta: StateDelta::new() }
    }

    /// Lays `delta` over the change made so far.
    pub fn apply_delta(&mut self, delta: StateDelta)
        requires
            old(self).delta().wf(),
            delta.wf(),
        ensures
            final(self).base() == old(self).base(),
            final(self).delta()@ == merge(old(self).delta()@, delta@),
            final(self).delta().wf(),
    {
        proof {
            lemma_merge_sorted(self.delta@, delta@);
        }
        self.delta = StateDelta {
            account_updates: merge_entries(&self.delta.account_updates, &delta.account_updates),
        };
    }

    /// The change made so far.
    pub fn into_delta(self) -> (r: StateDelta)
        ensures
            r == self.delta(),
    {
        self.delta
    }

    pub proof fn lemma_entries(&self)
        ensures
            self.entries() == merge(self.base().entries(), self.delta()@),
            self.wf() == (self.base().wf() && self.delta().wf()),
    {
    }
}

impl<'s, S: StateView> StateView for WorkingState<'s, S> {
    closed spec fn entries(&self) -> Seq<Entry> {
        merge(self.base.entries(), self.delta@)
    }

    closed spec fn wf(&self) -> bool {
        self.base.wf() && self.delta.wf()
    }

    proof fn lemma_wf_sorted(&self) {
        self.base.lemma_wf_sorted();
        lemma_merge_sorted(self.base.entries(), self.delta@);
    }

    fn all_accounts_in_order(&self) -> (r: Vec<Entry>) {
        let base = self.base.all_accounts_in_order();
        merge_entries(&base, &self.delta.account_updates)
    }

    fn get_account(&self, address: &Address) -> (r: Account) {
        proof {
            self.base.lemma_wf_sorted();
            lemma_lookup_merge(self.base.entries(), self.delta@, address@);
        }
        match self.delta.account_update(address) {
            Some(account) => account,
            None => self.base.get_account(address),
        }
    }
}

/// A state that keeps rows for non-empty accounts only.
#[derive(Default, Debug, Clone, PartialEq, Eq, Hash)]
pub struct State {
    accounts: Vec<Entry>,
}

impl State {
    /// The state holding the given rows (a later row for an address replacing an
    /// earlier one), without the empty accounts.
    pub fn new(accounts: Vec<Entry>) -> (r: Self)
        ensures
            r.entries() == nonempty(from_list(accounts@)),
            r.wf(),
    {
        let mut table: Vec<Entry> = Vec::new();
        let mut i: usize = 0;
        while i < accounts.len()
            invariant
                i <= accounts@.len(),
                table@ == from_list(accounts@.take(i as int)),
            decreases accounts@.len() - i,
        {
            let mut single: Vec<Entry> = Vec::new();
            single.push(accounts[i]);
            let ghost prefix = accounts@.take(i + 1);
            assert(prefix.drop_last() =~= accounts@.take(i as int));
            assert(single@ =~= seq![prefix.last()]);
            table = merge_entries(&table, &single);
            i = i + 1;
        }
        assert(accounts@.take(accounts@.len() as int) =~= accounts@);
        proof {
            lemma_from_list_sorted(accounts@);
            lemma_nonempty_props(from_list(accounts@));
        }
        Self { accounts: drop_empty_entries(&table) }
    }

    /// The state keeps no empty row: its rows are its non-empty accounts.
    pub proof fn lemma_keeps_no_empty_rows(&self)
        requires
            self.wf(),
        ensures
            nonempty(self.entries()) == self.entries(),
    {
        lemma_nonempty_identity(self.accounts@);
    }

    /// The rows of the state, in address order.
    pub fn accounts(&self) -> (r: &Vec<Entry>)
        ensures
            r@ == self.entries(),
    {
        &self.accounts
    }
}

impl StateView for State {
    closed spec fn entries(&self) -> Seq<Entry> {
        self.accounts@
    }

    closed spec fn wf(&self) -> bool {
        &&& sorted(self.accounts@)
        &&& forall|i: int|
            0 <= i < self.accounts@.len() ==> !(#[trigger] self.accounts@[i]).1.spec_is_empty()
    }

    proof fn lemma_wf_sorted(&self) {
    }

    fn all_accounts_in_order(&self) -> (r: Vec<Entry>) {
        let mut out: Vec<Entry> = Vec::new();
        let mut i: usize = 0;
        while i < self.accounts.len()
            invariant
                i <= self.accounts@.len(),
                out@ == self.accounts@.take(i as int),
            decreases self.accounts@.len() - i,
        {
            out.push(self.accounts[i]);
            assert(self.accounts@.take(i + 1) =~= self.accounts@.take(i as int).push(
                self.accounts@[i as int],
            ));
            i = i + 1;
        }
        assert(self.accounts@.take(self.accounts@.len() as int) =~= self.accounts@);
        out
    }

    fn get_account(&self, address: &Address) -> (r: Account) {
        match find_entry(&self.accounts, address) {
            Some(account) => account,
            None => Account::new(0, 0),
        }
    }
}

impl WritableState for State {
    fn apply_delta(&mut self, delta: StateDelta) {
        proof {
            lemma_merge_sorted(self.accounts@, delta@);
            lemma_nonempty_props(merge(self.accounts@, delta@));
        }
        let merged = merge_entries(&self.accounts, delta.account_updates());
        self.accounts = drop_empty_entries(&merged);
    }
}

/// A state that keeps a row for every address it was given, empty or not.
#[derive(Default, Debug, Clone, PartialEq, Eq, Hash)]
pub struct InMemoryState {
    accounts: Vec<Entry>,
}

impl InMemoryState {
    pub fn new() -> (r: Self)
        ensures
            r.entries() == Seq::<Entry>::empty(),
            r.wf(),
    {
        Self { accounts: Vec::new() }
    }
}

impl StateView for InMemoryState {
    closed spec fn entries(&self) -> Seq<Entry> {
        self.accounts@
    }

    closed spec fn wf(&self) -> bool {
        sorted(self.accounts@)
    }

    proof fn lemma_wf_sorted(&self) {
    }

    fn all_accounts_in_order(&self) -> (r: Vec<Entry>) {
        let mut out: Vec<Entry> = Vec::new();
        let mut i: usize = 0;
        while i < self.accounts.len()
            invariant
                i <= self.accounts@.len(),
                out@ == self.accounts@.take(i as int),
            decreases self.accounts@.len() - i,
        {
            out.push(self.accounts[i]);
            assert(self.accounts@.take(i + 1) =~= self.accounts@.take(i as int).push(
                self.accounts@[i as int],
            ));
            i = i + 1;
        }
        assert(self.accounts@.take(self.accounts@.len() as int) =~= self.accounts@);
        out
    }

    fn get_account(&self, address: &Address) -> (r: Account) {
        match find_entry(&self.accounts, address) {
            Some(account) => account,
            None => Account::new(0, 0),
        }
    }
}

impl WritableState for InMemoryState {
    fn apply_delta(&mut self, delta: StateDelta) {
        proof {
            lemma_merge_sorted(self.accounts@, delta@);
        }
        self.accounts = merge_entries(&self.accounts, delta.account_updates());
    }
}

} // verus!
