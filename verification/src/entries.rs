//! Account tables as sequences of `(address, account)` entries kept in address
//! order, and what can be said of looking up, merging and pruning them.
use vstd::prelude::*;
use crate::account::Account;
use crate::address::{compare_addresses, lemma_address_view_injective, Address};
use crate::bytes::{
    bytes_lt, lemma_bytes_lt_asymmetric, lemma_bytes_lt_irreflexive, lemma_bytes_lt_total,
    lemma_bytes_lt_transitive, Cmp,
};

verus! {

/// One row of an account table.
pub type Entry = (Address, Account);

/// Addresses strictly increase along the table, so no address occurs twice.
pub open spec fn sorted(s: Seq<Entry>) -> bool {
    forall|i: int, j: int| 0 <= i < j < s.len() ==> bytes_lt(#[trigger] s[i].0@, #[trigger] s[j].0@)
}

/// Every address in the table comes after `k`.
pub open spec fn all_above(k: Seq<u8>, s: Seq<Entry>) -> bool {
    forall|i: int| 0 <= i < s.len() ==> bytes_lt(k, #[trigger] s[i].0@)
}

/// Whether the table has a row for the address with bytes `a`.
pub open spec fn has_key(s: Seq<Entry>, a: Seq<u8>) -> bool
    decreases s.len(),
{
    if s.len() == 0 {
        false
    } else {
        s[0].0@ == a || has_key(s.drop_first(), a)
    }
}

/// The account of the first row for `a`, or the empty account where there is none.
pub open spec fn lookup(s: Seq<Entry>, a: Seq<u8>) -> Account
    decreases s.len(),
{
    if s.len() == 0 {
        Account::empty()
    } else if s[0].0@ == a {
        s[0].1
    } else {
        lookup(s.drop_first(), a)
    }
}

/// The table holding the rows of `b` and of `d`; where both have a row for the
/// same address, the row of `d` wins.
pub open spec fn merge(b: Seq<Entry>, d: Seq<Entry>) -> Seq<Entry>
    decreases b.len() + d.len(),
{
    if b.len() == 0 {
        d
    } else if d.len() == 0 {
        b
    } else if bytes_lt(b[0].0@, d[0].0@) {
        seq![b[0]] + merge(b.drop_first(), d)
    } else if bytes_lt(d[0].0@, b[0].0@) {
        seq![d[0]] + merge(b, d.drop_first())
    } else {
        seq![d[0]] + merge(b.drop_first(), d.drop_first())
    }
}

/// The rows whose account is not empty.
pub open spec fn nonempty(s: Seq<Entry>) -> Seq<Entry>
    decreases s.len(),
{
    if s.len() == 0 {
        s
    } else if s[0].1.spec_is_empty() {
        nonempty(s.drop_first())
    } else {
        seq![s[0]] + nonempty(s.drop_first())
    }
}

/// The table built from a list of rows, a later row for an address replacing an earlier one.
pub open spec fn from_list(s: Seq<Entry>) -> Seq<Entry>
    decreases s.len(),
{
    if s.len() == 0 {
        s
    } else {
        merge(from_list(s.drop_last()), seq![s.last()])
    }
}

pub proof fn lemma_sorted_tail(s: Seq<Entry>)
    requires
        sorted(s),
        s.len() > 0,
    ensures
        sorted(s.drop_first()),
        all_above(s[0].0@, s.drop_first()),
{
    assert forall|i: int| 0 <= i < s.drop_first().len() implies bytes_lt(
        s[0].0@,
        #[trigger] s.drop_first()[i].0@,
    ) by {
        assert(s.drop_first()[i] == s[i + 1]);
    }
}

pub proof fn lemma_sorted_cons(x: Entry, s: Seq<Entry>)
    requires
        sorted(s),
        all_above(x.0@, s),
    ensures
        sorted(seq![x] + s),
{
    let t = seq![x] + s;
    assert forall|i: int, j: int| 0 <= i < j < t.len() implies bytes_lt(
        #[trigger] t[i].0@,
        #[trigger] t[j].0@,
    ) by {
        if i == 0 {
            assert(t[j] == s[j - 1]);
        } else {
            assert(t[i] == s[i - 1]);
            assert(t[j] == s[j - 1]);
        }
    }
}

pub proof fn lemma_all_above_lower(k1: Seq<u8>, k2: Seq<u8>, s: Seq<Entry>)
    requires
        bytes_lt(k1, k2),
        all_above(k2, s),
    ensures
        all_above(k1, s),
{
    assert forall|i: int| 0 <= i < s.len() implies bytes_lt(k1, #[trigger] s[i].0@) by {
        lemma_bytes_lt_transitive(k1, k2, s[i].0@);
    }
}

pub proof fn lemma_all_above_not_has(k: Seq<u8>, s: Seq<Entry>)
    requires
        all_above(k, s),
    ensures
        !has_key(s, k),
        lookup(s, k) == Account::empty(),
    decreases s.len(),
{
    if s.len() > 0 {
        lemma_bytes_lt_irreflexive(k);
        assert(bytes_lt(k, s[0].0@));
        assert(all_above(k, s.drop_first())) by {
            assert forall|i: int| 0 <= i < s.drop_first().len() implies bytes_lt(
                k,
                #[trigger] s.drop_first()[i].0@,
            ) by {
                assert(s.drop_first()[i] == s[i + 1]);
            }
        }
        lemma_all_above_not_has(k, s.drop_first());
    }
}

pub proof fn lemma_not_has_lookup(s: Seq<Entry>, a: Seq<u8>)
    requires
        !has_key(s, a),
    ensures
        lookup(s, a) == Account::empty(),
    decreases s.len(),
{
    if s.len() > 0 {
        lemma_not_has_lookup(s.drop_first(), a);
    }
}

pub proof fn lemma_merge_all_above(k: Seq<u8>, b: Seq<Entry>, d: Seq<Entry>)
    requires
        all_above(k, b),
        all_above(k, d),
    ensures
        all_above(k, merge(b, d)),
    decreases b.len() + d.len(),
{
    if b.len() > 0 && d.len() > 0 {
        let bt = b.drop_first();
        let dt = d.drop_first();
        assert(all_above(k, bt)) by {
            assert forall|i: int| 0 <= i < bt.len() implies bytes_lt(k, #[trigger] bt[i].0@) by {
                assert(bt[i] == b[i + 1]);
            }
        }
        assert(all_above(k, dt)) by {
            assert forall|i: int| 0 <= i < dt.len() implies bytes_lt(k, #[trigger] dt[i].0@) by {
                assert(dt[i] == d[i + 1]);
            }
        }
        let m = merge(b, d);
        if bytes_lt(b[0].0@, d[0].0@) {
            lemma_merge_all_above(k, bt, d);
            let r = merge(bt, d);
            assert forall|i: int| 0 <= i < m.len() implies bytes_lt(k, #[trigger] m[i].0@) by {
                if i > 0 {
                    assert(m[i] == r[i - 1]);
                }
            }
        } else if bytes_lt(d[0].0@, b[0].0@) {
            lemma_merge_all_above(k, b, dt);
            let r = merge(b, dt);
            assert forall|i: int| 0 <= i < m.len() implies bytes_lt(k, #[trigger] m[i].0@) by {
                if i > 0 {
                    assert(m[i] == r[i - 1]);
                }
            }
        } else {
            lemma_merge_all_above(k, bt, dt);
            let r = merge(bt, dt);
            assert forall|i: int| 0 <= i < m.len() implies bytes_lt(k, #[trigger] m[i].0@) by {
                if i > 0 {
                    assert(m[i] == r[i - 1]);
                }
            }
        }
    }
}

/// Merging two tables in address order gives a table in address order.
pub proof fn lemma_merge_sorted(b: Seq<Entry>, d: Seq<Entry>)
    requires
        sorted(b),
        sorted(d),
    ensures
        sorted(merge(b, d)),
    decreases b.len() + d.len(),
{
    if b.len() > 0 && d.len() > 0 {
        let bt = b.drop_first();
        let dt = d.drop_first();
        lemma_sorted_tail(b);
        lemma_sorted_tail(d);
        if bytes_lt(b[0].0@, d[0].0@) {
            lemma_merge_sorted(bt, d);
            lemma_all_above_lower(b[0].0@, d[0].0@, dt);
            assert(all_above(b[0].0@, d)) by {
                assert forall|i: int| 0 <= i < d.len() implies bytes_lt(b[0].0@, #[trigger] d[i].0@) by {
                    if i > 0 {
                        assert(d[i] == dt[i - 1]);
                    }
                }
            }
            lemma_merge_all_above(b[0].0@, bt, d);
            lemma_sorted_cons(b[0], merge(bt, d));
        } else if bytes_lt(d[0].0@, b[0].0@) {
            lemma_merge_sorted(b, dt);
            lemma_all_above_lower(d[0].0@, b[0].0@, bt);
            assert(all_above(d[0].0@, b)) by {
                assert forall|i: int| 0 <= i < b.len() implies bytes_lt(d[0].0@, #[trigger] b[i].0@) by {
                    if i > 0 {
                        assert(b[i] == bt[i - 1]);
                    }
                }
            }
            lemma_merge_all_above(d[0].0@, b, dt);
            lemma_sorted_cons(d[0], merge(b, dt));
        } else {
            lemma_bytes_lt_total(b[0].0@, d[0].0@);
            lemma_merge_sorted(bt, dt);
            lemma_merge_all_above(d[0].0@, bt, dt);
            lemma_sorted_cons(d[0], merge(bt, dt));
        }
    }
}

/// Looking an address up in a merged table finds the row of `d` where `d` has one,
/// and that of `b` otherwise.
pub proof fn lemma_lookup_merge(b: Seq<Entry>, d: Seq<Entry>, a: Seq<u8>)
    requires
        sorted(b),
        sorted(d),
    ensures
        lookup(merge(b, d), a) == (if has_key(d, a) {
            lookup(d, a)
        } else {
            lookup(b, a)
        }),
        has_key(merge(b, d), a) == (has_key(b, a) || has_key(d, a)),
    decreases b.len() + d.len(),
{
    if b.len() == 0 {
        if !has_key(d, a) {
            lemma_not_has_lookup(d, a);
        }
    } else if d.len() > 0 {
        let bt = b.drop_first();
        let dt = d.drop_first();
        lemma_sorted_tail(b);
        lemma_sorted_tail(d);
        let m = merge(b, d);
        if bytes_lt(b[0].0@, d[0].0@) {
            lemma_lookup_merge(bt, d, a);
            assert(m.drop_first() =~= merge(bt, d));
            if a == b[0].0@ {
                lemma_all_above_lower(b[0].0@, d[0].0@, dt);
                lemma_all_above_not_has(a, dt);
                lemma_bytes_lt_asymmetric(a, d[0].0@);
            }
        } else if bytes_lt(d[0].0@, b[0].0@) {
            lemma_lookup_merge(b, dt, a);
            assert(m.drop_first() =~= merge(b, dt));
            if a == d[0].0@ {
                lemma_all_above_lower(d[0].0@, b[0].0@, bt);
                lemma_all_above_not_has(a, bt);
                lemma_bytes_lt_asymmetric(a, b[0].0@);
            }
        } else {
            lemma_bytes_lt_total(b[0].0@, d[0].0@);
            lemma_lookup_merge(bt, dt, a);
            assert(m.drop_first() =~= merge(bt, dt));
        }
    }
}

/// Dropping empty rows changes no lookup.
pub proof fn lemma_lookup_nonempty(s: Seq<Entry>, a: Seq<u8>)
    requires
        sorted(s),
    ensures
        lookup(nonempty(s), a) == lookup(s, a),
    decreases s.len(),
{
    if s.len() > 0 {
        lemma_sorted_tail(s);
        lemma_lookup_nonempty(s.drop_first(), a);
        if s[0].0@ == a {
            lemma_all_above_not_has(a, s.drop_first());
        }
        if !s[0].1.spec_is_empty() {
            assert((seq![s[0]] + nonempty(s.drop_first())).drop_first() =~= nonempty(
                s.drop_first(),
            ));
        }
    }
}

/// A table in address order is determined by the addresses it has rows for and
/// the account it holds at each.
pub proof fn lemma_sorted_unique(s: Seq<Entry>, t: Seq<Entry>)
    requires
        sorted(s),
        sorted(t),
        forall|a: Seq<u8>| #[trigger] has_key(s, a) == has_key(t, a),
        forall|a: Seq<u8>| #[trigger] lookup(s, a) == lookup(t, a),
    ensures
        s == t,
    decreases s.len(),
{
    if s.len() == 0 {
        if t.len() > 0 {
            assert(has_key(t, t[0].0@));
            assert(!has_key(s, t[0].0@));
        }
        assert(s =~= t);
    } else if t.len() == 0 {
        assert(has_key(s, s[0].0@));
        assert(!has_key(t, s[0].0@));
    } else {
        lemma_sorted_tail(s);
        lemma_sorted_tail(t);
        let st = s.drop_first();
        let tt = t.drop_first();
        let ks = s[0].0@;
        let kt = t[0].0@;
        lemma_bytes_lt_total(ks, kt);
        lemma_bytes_lt_irreflexive(ks);
        lemma_bytes_lt_irreflexive(kt);
        if bytes_lt(ks, kt) {
            assert(has_key(s, ks));
            lemma_all_above_lower(ks, kt, tt);
            lemma_all_above_not_has(ks, tt);
            assert(!has_key(t, ks));
        } else if bytes_lt(kt, ks) {
            assert(has_key(t, kt));
            lemma_all_above_lower(kt, ks, st);
            lemma_all_above_not_has(kt, st);
            assert(!has_key(s, kt));
        } else {
            lemma_address_view_injective(s[0].0, t[0].0);
            assert(lookup(s, ks) == s[0].1);
            assert(lookup(t, ks) == t[0].1);
            lemma_all_above_not_has(ks, st);
            lemma_all_above_not_has(ks, tt);
            assert forall|a: Seq<u8>| #[trigger] has_key(st, a) == has_key(tt, a) by {
                if a != ks {
                    assert(has_key(s, a) == has_key(st, a));
                    assert(has_key(t, a) == has_key(tt, a));
                }
            }
            assert forall|a: Seq<u8>| #[trigger] lookup(st, a) == lookup(tt, a) by {
                if a != ks {
                    assert(lookup(s, a) == lookup(st, a));
                    assert(lookup(t, a) == lookup(tt, a));
                }
            }
            lemma_sorted_unique(st, tt);
            assert(s =~= seq![s[0]] + st);
            assert(t =~= seq![t[0]] + tt);
        }
    }
}

/// Laying `b` over `a` and then `c` over the result gives the table that laying
/// `b` and `c` together over `a` gives.
pub proof fn lemma_merge_assoc(a: Seq<Entry>, b: Seq<Entry>, c: Seq<Entry>)
    requires
        sorted(a),
        sorted(b),
        sorted(c),
    ensures
        merge(merge(a, b), c) == merge(a, merge(b, c)),
{
    let ab = merge(a, b);
    let bc = merge(b, c);
    lemma_merge_sorted(a, b);
    lemma_merge_sorted(b, c);
    lemma_merge_sorted(ab, c);
    lemma_merge_sorted(a, bc);
    assert forall|k: Seq<u8>| #[trigger] has_key(merge(ab, c), k) == has_key(merge(a, bc), k) by {
        lemma_lookup_merge(ab, c, k);
        lemma_lookup_merge(a, b, k);
        lemma_lookup_merge(b, c, k);
        lemma_lookup_merge(a, bc, k);
    }
    assert forall|k: Seq<u8>| #[trigger] lookup(merge(ab, c), k) == lookup(merge(a, bc), k) by {
        lemma_lookup_merge(ab, c, k);
        lemma_lookup_merge(a, b, k);
        lemma_lookup_merge(b, c, k);
        lemma_lookup_merge(a, bc, k);
    }
    lemma_sorted_unique(merge(ab, c), merge(a, bc));
}

/// A table without its empty rows has a row for an address exactly when the
/// table has one and it is not empty.
pub proof fn lemma_has_key_nonempty(s: Seq<Entry>, a: Seq<u8>)
    requires
        sorted(s),
    ensures
        has_key(nonempty(s), a) == (has_key(s, a) && !lookup(s, a).spec_is_empty()),
    decreases s.len(),
{
    if s.len() > 0 {
        lemma_sorted_tail(s);
        let st = s.drop_first();
        lemma_has_key_nonempty(st, a);
        if s[0].0@ == a {
            lemma_all_above_not_has(a, st);
        }
        if !s[0].1.spec_is_empty() {
            assert((seq![s[0]] + nonempty(st)).drop_first() =~= nonempty(st));
        }
    }
}

/// Which empty rows a table keeps makes no difference once a change is laid over it
/// and the empty rows are dropped.
pub proof fn lemma_nonempty_merge(s: Seq<Entry>, d: Seq<Entry>)
    requires
        sorted(s),
        sorted(d),
    ensures
        nonempty(merge(nonempty(s), d)) == nonempty(merge(s, d)),
{
    let n = nonempty(s);
    lemma_nonempty_props(s);
    lemma_merge_sorted(n, d);
    lemma_merge_sorted(s, d);
    lemma_nonempty_props(merge(n, d));
    lemma_nonempty_props(merge(s, d));
    assert forall|k: Seq<u8>| #[trigger] has_key(nonempty(merge(n, d)), k) == has_key(
        nonempty(merge(s, d)),
        k,
    ) by {
        lemma_has_key_nonempty(merge(n, d), k);
        lemma_has_key_nonempty(merge(s, d), k);
        lemma_lookup_merge(n, d, k);
        lemma_lookup_merge(s, d, k);
        lemma_has_key_nonempty(s, k);
        lemma_lookup_nonempty(s, k);
    }
    assert forall|k: Seq<u8>| #[trigger] lookup(nonempty(merge(n, d)), k) == lookup(
        nonempty(merge(s, d)),
        k,
    ) by {
        lemma_lookup_nonempty(merge(n, d), k);
        lemma_lookup_nonempty(merge(s, d), k);
        lemma_lookup_merge(n, d, k);
        lemma_lookup_merge(s, d, k);
        lemma_lookup_nonempty(s, k);
    }
    lemma_sorted_unique(nonempty(merge(n, d)), nonempty(merge(s, d)));
}

/// The sum of the balances of all rows.
pub open spec fn total_balance(s: Seq<Entry>) -> int
    decreases s.len(),
{
    if s.len() == 0 {
        0
    } else {
        s[0].1.balance + total_balance(s.drop_first())
    }
}

/// Setting the account of one address changes the total by the difference between
/// the new balance and the one it held.
pub proof fn lemma_total_balance_set(s: Seq<Entry>, e: Entry)
    requires
        sorted(s),
    ensures
        total_balance(merge(s, seq![e])) == total_balance(s) - lookup(s, e.0@).balance
            + e.1.balance,
    decreases s.len(),
{
    let d = seq![e];
    let k = e.0@;
    assert(d.drop_first() =~= Seq::<Entry>::empty());
    if s.len() == 0 {
        assert(total_balance(d.drop_first()) == 0);
    } else {
        lemma_sorted_tail(s);
        let st = s.drop_first();
        let m = merge(s, d);
        if bytes_lt(s[0].0@, k) {
            lemma_total_balance_set(st, e);
            assert(m.drop_first() =~= merge(st, d));
            lemma_bytes_lt_irreflexive(k);
        } else if bytes_lt(k, s[0].0@) {
            lemma_bytes_lt_asymmetric(k, s[0].0@);
            assert(merge(s, d.drop_first()) == s);
            assert(m =~= seq![e] + s);
            assert(m.drop_first() =~= s);
            lemma_all_above_lower(k, s[0].0@, st);
            lemma_bytes_lt_irreflexive(k);
            assert(all_above(k, s)) by {
                assert forall|i: int| 0 <= i < s.len() implies bytes_lt(k, #[trigger] s[i].0@) by {
                    if i > 0 {
                        assert(s[i] == st[i - 1]);
                    }
                }
            }
            lemma_all_above_not_has(k, s);
        } else {
            lemma_bytes_lt_total(s[0].0@, k);
            if st.len() == 0 {
                assert(st =~= d.drop_first());
            }
            assert(merge(st, d.drop_first()) == st);
            assert(m =~= seq![e] + st);
            assert(m.drop_first() =~= st);
        }
    }
}

/// Empty rows hold no balance.
pub proof fn lemma_total_balance_nonempty(s: Seq<Entry>)
    ensures
        total_balance(nonempty(s)) == total_balance(s),
    decreases s.len(),
{
    if s.len() > 0 {
        lemma_total_balance_nonempty(s.drop_first());
        if !s[0].1.spec_is_empty() {
            assert((seq![s[0]] + nonempty(s.drop_first())).drop_first() =~= nonempty(
                s.drop_first(),
            ));
        }
    }
}

pub proof fn lemma_nonempty_all_above(k: Seq<u8>, s: Seq<Entry>)
    requires
        all_above(k, s),
    ensures
        all_above(k, nonempty(s)),
    decreases s.len(),
{
    if s.len() > 0 {
        let t = s.drop_first();
        assert(all_above(k, t)) by {
            assert forall|i: int| 0 <= i < t.len() implies bytes_lt(k, #[trigger] t[i].0@) by {
                assert(t[i] == s[i + 1]);
            }
        }
        lemma_nonempty_all_above(k, t);
        if !s[0].1.spec_is_empty() {
            let n = nonempty(s);
            assert forall|i: int| 0 <= i < n.len() implies bytes_lt(k, #[trigger] n[i].0@) by {
                if i > 0 {
                    assert(n[i] == nonempty(t)[i - 1]);
                }
            }
        }
    }
}

/// Dropping empty rows keeps the table in order, leaves no empty row, and doing it
/// twice is doing it once.
pub proof fn lemma_nonempty_props(s: Seq<Entry>)
    requires
        sorted(s),
    ensures
        sorted(nonempty(s)),
        forall|i: int| 0 <= i < nonempty(s).len() ==> !(#[trigger] nonempty(s)[i]).1.spec_is_empty(),
        nonempty(nonempty(s)) == nonempty(s),
    decreases s.len(),
{
    if s.len() > 0 {
        let t = s.drop_first();
        lemma_sorted_tail(s);
        lemma_nonempty_props(t);
        if !s[0].1.spec_is_empty() {
            lemma_nonempty_all_above(s[0].0@, t);
            lemma_sorted_cons(s[0], nonempty(t));
            let n = nonempty(s);
            assert(n.drop_first() =~= nonempty(t));
            assert forall|i: int| 0 <= i < n.len() implies !(#[trigger] n[i]).1.spec_is_empty() by {
                if i > 0 {
                    assert(n[i] == nonempty(t)[i - 1]);
                }
            }
        }
    }
}

/// A table with no empty row is left as it is by dropping empty rows.
pub proof fn lemma_nonempty_identity(s: Seq<Entry>)
    requires
        forall|i: int| 0 <= i < s.len() ==> !(#[trigger] s[i]).1.spec_is_empty(),
    ensures
        nonempty(s) == s,
    decreases s.len(),
{
    if s.len() > 0 {
        let t = s.drop_first();
        assert forall|i: int| 0 <= i < t.len() implies !(#[trigger] t[i]).1.spec_is_empty() by {
            assert(t[i] == s[i + 1]);
        }
        lemma_nonempty_identity(t);
        assert(s =~= seq![s[0]] + t);
    }
}

pub proof fn lemma_from_list_sorted(s: Seq<Entry>)
    ensures
        sorted(from_list(s)),
    decreases s.len(),
{
    if s.len() > 0 {
        lemma_from_list_sorted(s.drop_last());
        lemma_merge_sorted(from_list(s.drop_last()), seq![s.last()]);
    }
}

/// Builds the table of rows of `b` and `d`, `d` winning on a shared address.
pub fn merge_entries(b: &Vec<Entry>, d: &Vec<Entry>) -> (r: Vec<Entry>)
    ensures
        r@ == merge(b@, d@),
{
    let mut out: Vec<Entry> = Vec::new();
    let mut i: usize = 0;
    let mut j: usize = 0;
    assert(b@.skip(0) =~= b@);
    assert(d@.skip(0) =~= d@);
    while i < b.len() || j < d.len()
        invariant
            i <= b@.len(),
            j <= d@.len(),
            merge(b@, d@) == out@ + merge(b@.skip(i as int), d@.skip(j as int)),
        decreases b@.len() + d@.len() - i - j,
    {
        let ghost bs = b@.skip(i as int);
        let ghost ds = d@.skip(j as int);
        let ghost before = out@;
        if i == b.len() {
            let e = d[j];
            out.push(e);
            assert(ds.drop_first() =~= d@.skip(j + 1));
            assert(bs.len() == 0);
            assert(merge(bs, ds) == ds);
            assert(ds =~= seq![e] + d@.skip(j + 1));
            assert(merge(bs, d@.skip(j + 1)) == d@.skip(j + 1));
            assert(before + merge(bs, ds) =~= out@ + merge(bs, d@.skip(j + 1)));
            j = j + 1;
        } else if j == d.len() {
            let e = b[i];
            out.push(e);
            assert(bs.drop_first() =~= b@.skip(i + 1));
            assert(ds.len() == 0);
            assert(merge(bs, ds) == bs);
            assert(bs =~= seq![e] + b@.skip(i + 1));
            assert(merge(b@.skip(i + 1), ds) == b@.skip(i + 1));
            assert(before + merge(bs, ds) =~= out@ + merge(b@.skip(i + 1), ds));
            i = i + 1;
        } else {
            let x = b[i];
            let y = d[j];
            assert(bs[0] == x);
            assert(ds[0] == y);
            assert(bs.drop_first() =~= b@.skip(i + 1));
            assert(ds.drop_first() =~= d@.skip(j + 1));
            match compare_addresses(&x.0, &y.0) {
                Cmp::Less => {
                    out.push(x);
                    assert(before + merge(bs, ds) =~= out@ + merge(b@.skip(i + 1), ds));
                    i = i + 1;
                },
                Cmp::Greater => {
                    out.push(y);
                    assert(before + merge(bs, ds) =~= out@ + merge(bs, d@.skip(j + 1)));
                    j = j + 1;
                },
                Cmp::Equal => {
                    proof { lemma_bytes_lt_irreflexive(x.0@); }
                    out.push(y);
                    assert(before + merge(bs, ds) =~= out@ + merge(
                        b@.skip(i + 1),
                        d@.skip(j + 1),
                    ));
                    i = i + 1;
                    j = j + 1;
                },
            }
        }
    }
    assert(b@.skip(i as int) =~= Seq::<Entry>::empty());
    assert(d@.skip(j as int) =~= Seq::<Entry>::empty());
    assert(out@ + Seq::<Entry>::empty() =~= out@);
    out
}

/// The rows of `v` whose account is not empty.
pub fn drop_empty_entries(v: &Vec<Entry>) -> (r: Vec<Entry>)
    ensures
        r@ == nonempty(v@),
{
    let mut out: Vec<Entry> = Vec::new();
    let mut i: usize = 0;
    assert(v@.skip(0) =~= v@);
    while i < v.len()
        invariant
            i <= v@.len(),
            nonempty(v@) == out@ + nonempty(v@.skip(i as int)),
        decreases v@.len() - i,
    {
        let ghost vs = v@.skip(i as int);
        let ghost before = out@;
        let e = v[i];
        assert(vs[0] == e);
        assert(vs.drop_first() =~= v@.skip(i + 1));
        if !e.1.is_empty() {
            out.push(e);
            assert(before + nonempty(vs) =~= out@ + nonempty(v@.skip(i + 1)));
        }
        i = i + 1;
    }
    assert(v@.skip(i as int) =~= Seq::<Entry>::empty());
    assert(out@ + Seq::<Entry>::empty() =~= out@);
    out
}

/// The account that `v` holds for `address`, if it has a row for it.
pub fn find_entry(v: &Vec<Entry>, address: &Address) -> (r: Option<Account>)
    ensures
        r is Some <==> has_key(v@, address@),
        r matches Some(acc) ==> acc == lookup(v@, address@),
        r is None ==> lookup(v@, address@) == Account::empty(),
{
    let mut i: usize = 0;
    assert(v@.skip(0) =~= v@);
    while i < v.len()
        invariant
            i <= v@.len(),
            has_key(v@, address@) == has_key(v@.skip(i as int), address@),
            lookup(v@, address@) == lookup(v@.skip(i as int), address@),
        decreases v@.len() - i,
    {
        let e = v[i];
        assert(v@.skip(i as int)[0] == e);
        assert(v@.skip(i as int).drop_first() =~= v@.skip(i + 1));
        match compare_addresses(&e.0, address) {
            Cmp::Equal => {
                return Some(e.1);
            },
            _ => {},
        }
        i = i + 1;
    }
    proof {
        assert(v@.skip(i as int).len() == 0);
        lemma_not_has_lookup(v@, address@);
    }
    None
}

} // verus!
