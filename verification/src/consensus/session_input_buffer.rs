//! A bounded buffer of inputs that arrived before consensus was ready for them,
//! kept in the order they are to be handled.
use vstd::prelude::*;
use crate::bytes::Cmp;
use crate::consensus::proposal::Proposal;
use crate::consensus::state_input::{
    height_round, height_round_lt, input_before, input_height_round, input_lt, input_priority,
    inputs_same, lemma_inputs_same_reflexive, lemma_inputs_same_symmetric, same_input, StateInput,
};

verus! {

/// An input held by the buffer.
#[derive(Debug, Clone, PartialEq, Eq)]
pub struct Element<P: Proposal> {
    state_input: StateInput<P>,
}

impl<P: Proposal> Element<P> {
    pub closed spec fn input(&self) -> StateInput<P> {
        self.state_input
    }

    pub fn new(state_input: StateInput<P>) -> (r: Self)
        ensures
            r.input() == state_input,
    {
        Self { state_input }
    }

    pub fn state_input(&self) -> (r: &StateInput<P>)
        ensures
            *r == self.input(),
    {
        &self.state_input
    }

    pub fn into_state_input(self) -> (r: StateInput<P>)
        ensures
            r == self.input(),
    {
        self.state_input
    }

    /// Where two elements stand relative to each other in the buffer: by height and
    /// round, and within one height and round by priority, the higher first.
    pub fn compare(&self, other: &Self) -> (r: Cmp)
        ensures
            (r == Cmp::Less) == input_lt(self.input(), other.input()),
            (r == Cmp::Greater) == input_lt(other.input(), self.input()),
    {
        if input_before(&self.state_input, &other.state_input) {
            Cmp::Less
        } else if input_before(&other.state_input, &self.state_input) {
            Cmp::Greater
        } else {
            Cmp::Equal
        }
    }
}

/// Inputs are in the order they are to be handled.
pub open spec fn inputs_sorted<P>(s: Seq<StateInput<P>>) -> bool {
    forall|i: int, j: int| 0 <= i < j < s.len() ==> !input_lt(#[trigger] s[j], #[trigger] s[i])
}

/// No two inputs of `s` are the same input.
pub open spec fn inputs_distinct<P: Proposal>(s: Seq<StateInput<P>>) -> bool {
    forall|i: int, j: int|
        0 <= i < s.len() && 0 <= j < s.len() && i != j ==> !inputs_same(#[trigger] s[i], #[trigger] s[j])
}

/// Putting in an input that is the same as none held keeps the inputs distinct, and so
/// does dropping the last one.
pub proof fn lemma_insert_distinct<P: Proposal>(s: Seq<StateInput<P>>, x: StateInput<P>, p: int)
    requires
        inputs_distinct(s),
        !holds_same(s, x),
        0 <= p <= s.len(),
    ensures
        inputs_distinct(s.insert(p, x)),
        s.insert(p, x).len() > 0 ==> inputs_distinct(s.insert(p, x).drop_last()),
{
    let t = s.insert(p, x);
    assert forall|i: int, j: int|
        0 <= i < t.len() && 0 <= j < t.len() && i != j implies !inputs_same(
        #[trigger] t[i],
        #[trigger] t[j],
    ) by {
        let si = if i < p { i } else { i - 1 };
        let sj = if j < p { j } else { j - 1 };
        if i == p {
            assert(t[j] == s[sj]);
            assert(!inputs_same(s[sj], x));
            lemma_inputs_same_symmetric(s[sj], x);
        } else if j == p {
            assert(t[i] == s[si]);
            assert(!inputs_same(s[si], x));
        } else {
            assert(t[i] == s[si] && t[j] == s[sj]);
        }
    }
    if t.len() > 0 {
        let u = t.drop_last();
        assert forall|i: int, j: int|
            0 <= i < u.len() && 0 <= j < u.len() && i != j implies !inputs_same(
            #[trigger] u[i],
            #[trigger] u[j],
        ) by {
            assert(u[i] == t[i] && u[j] == t[j]);
        }
    }
}

/// The inputs for later heights and rounds are distinct when all inputs are.
pub proof fn lemma_inputs_after_distinct<P: Proposal>(s: Seq<StateInput<P>>, h: u128, r: u32)
    requires
        inputs_distinct(s),
    ensures
        inputs_distinct(inputs_after(s, h, r)),
        forall|a: int|
            0 <= a < inputs_after(s, h, r).len() ==> exists|i: int|
                0 <= i < s.len() && #[trigger] inputs_after(s, h, r)[a] == s[i],
    decreases s.len(),
{
    if s.len() > 0 {
        let d = s.drop_last();
        let n = s.len() - 1;
        assert(inputs_distinct(d)) by {
            assert forall|i: int, j: int|
                0 <= i < d.len() && 0 <= j < d.len() && i != j implies !inputs_same(
                #[trigger] d[i],
                #[trigger] d[j],
            ) by {
                assert(d[i] == s[i] && d[j] == s[j]);
            }
        }
        lemma_inputs_after_distinct(d, h, r);
        let f = inputs_after(d, h, r);
        if height_round_lt((h, r), input_height_round(s.last())) {
            let g = f.push(s.last());
            assert forall|a: int| 0 <= a < g.len() implies exists|i: int|
                0 <= i < s.len() && #[trigger] g[a] == s[i] by {
                if a < f.len() {
                    let i = choose|i: int| 0 <= i < d.len() && #[trigger] f[a] == d[i];
                    assert(g[a] == s[i]);
                } else {
                    assert(g[a] == s[n]);
                }
            }
            assert forall|a: int, b: int|
                0 <= a < g.len() && 0 <= b < g.len() && a != b implies !inputs_same(
                #[trigger] g[a],
                #[trigger] g[b],
            ) by {
                if a < f.len() && b < f.len() {
                    assert(g[a] == f[a] && g[b] == f[b]);
                } else if a < f.len() {
                    let i = choose|i: int| 0 <= i < d.len() && #[trigger] f[a] == d[i];
                    assert(g[a] == s[i] && g[b] == s[n]);
                } else {
                    let i = choose|i: int| 0 <= i < d.len() && #[trigger] f[b] == d[i];
                    assert(g[b] == s[i] && g[a] == s[n]);
                }
            }
        } else {
            assert forall|a: int| 0 <= a < f.len() implies exists|i: int|
                0 <= i < s.len() && #[trigger] f[a] == s[i] by {
                let i = choose|i: int| 0 <= i < d.len() && #[trigger] f[a] == d[i];
                assert(f[a] == s[i]);
            }
        }
    }
}

/// Whether `s` holds an input that is the same as `x`.
pub open spec fn holds_same<P: Proposal>(s: Seq<StateInput<P>>, x: StateInput<P>) -> bool {
    exists|k: int| 0 <= k < s.len() && inputs_same(#[trigger] s[k], x)
}

/// An input that `s` holds is the same as one that `s` holds, so pushing it again
/// leaves the buffer as it was.
pub proof fn lemma_held_input_is_same<P: Proposal>(s: Seq<StateInput<P>>, k: int)
    requires
        0 <= k < s.len(),
    ensures
        holds_same(s, s[k]),
{
    lemma_inputs_same_reflexive(s[k]);
}

/// Where `x` goes: after every leading input that is not handled after it.
pub open spec fn insertion_point<P>(s: Seq<StateInput<P>>, x: StateInput<P>) -> nat
    decreases s.len(),
{
    if s.len() == 0 {
        0
    } else if input_lt(x, s[0]) {
        0
    } else {
        1 + insertion_point(s.drop_first(), x)
    }
}

/// `s` with `x` put in its place, and the last input dropped when that makes more
/// than `max`.
pub open spec fn pushed<P>(s: Seq<StateInput<P>>, max: nat, x: StateInput<P>) -> Seq<StateInput<P>> {
    let ins = s.insert(insertion_point(s, x) as int, x);
    if ins.len() > max {
        ins.drop_last()
    } else {
        ins
    }
}

/// The inputs of `s` for height `h` and round `r`, in order.
pub open spec fn inputs_at<P>(s: Seq<StateInput<P>>, h: u128, r: u32) -> Seq<StateInput<P>>
    decreases s.len(),
{
    if s.len() == 0 {
        s
    } else if input_height_round(s.last()) == (h, r) {
        inputs_at(s.drop_last(), h, r).push(s.last())
    } else {
        inputs_at(s.drop_last(), h, r)
    }
}

/// The inputs of `s` for a later height and round than `h` and `r`, in order.
pub open spec fn inputs_after<P>(s: Seq<StateInput<P>>, h: u128, r: u32) -> Seq<StateInput<P>>
    decreases s.len(),
{
    if s.len() == 0 {
        s
    } else if height_round_lt((h, r), input_height_round(s.last())) {
        inputs_after(s.drop_last(), h, r).push(s.last())
    } else {
        inputs_after(s.drop_last(), h, r)
    }
}

proof fn lemma_input_lt_order<P>(a: StateInput<P>, b: StateInput<P>, c: StateInput<P>)
    ensures
        input_lt(a, b) ==> !input_lt(b, a),
        input_lt(a, b) && input_lt(b, c) ==> input_lt(a, c),
        input_lt(a, b) && !input_lt(c, b) ==> input_lt(a, c),
{
}

proof fn lemma_insertion_point<P>(s: Seq<StateInput<P>>, x: StateInput<P>)
    ensures
        insertion_point(s, x) <= s.len(),
        forall|i: int| 0 <= i < insertion_point(s, x) ==> !input_lt(x, #[trigger] s[i]),
        insertion_point(s, x) < s.len() ==> input_lt(x, s[insertion_point(s, x) as int]),
    decreases s.len(),
{
    if s.len() > 0 && !input_lt(x, s[0]) {
        let t = s.drop_first();
        lemma_insertion_point(t, x);
        assert forall|i: int| 0 <= i < insertion_point(s, x) implies !input_lt(
            x,
            #[trigger] s[i],
        ) by {
            if i > 0 {
                assert(s[i] == t[i - 1]);
            }
        }
        if insertion_point(s, x) < s.len() {
            assert(s[insertion_point(s, x) as int] == t[insertion_point(t, x) as int]);
        }
    }
}

proof fn lemma_insertion_point_is<P>(s: Seq<StateInput<P>>, x: StateInput<P>, p: int)
    requires
        0 <= p <= s.len(),
        forall|i: int| 0 <= i < p ==> !input_lt(x, #[trigger] s[i]),
        p < s.len() ==> input_lt(x, s[p]),
    ensures
        insertion_point(s, x) == p,
    decreases s.len(),
{
    if s.len() > 0 && p > 0 {
        let t = s.drop_first();
        assert(!input_lt(x, s[0]));
        assert forall|i: int| 0 <= i < p - 1 implies !input_lt(x, #[trigger] t[i]) by {
            assert(t[i] == s[i + 1]);
        }
        if p < s.len() {
            assert(t[p - 1] == s[p]);
        }
        lemma_insertion_point_is(t, x, p - 1);
    }
}

/// Putting an input in its place keeps the inputs in order.
pub proof fn lemma_insert_sorted<P>(s: Seq<StateInput<P>>, x: StateInput<P>)
    requires
        inputs_sorted(s),
    ensures
        inputs_sorted(s.insert(insertion_point(s, x) as int, x)),
{
    let p = insertion_point(s, x) as int;
    lemma_insertion_point(s, x);
    let t = s.insert(p, x);
    assert forall|i: int, j: int| 0 <= i < j < t.len() implies !input_lt(
        #[trigger] t[j],
        #[trigger] t[i],
    ) by {
        if j < p {
            assert(t[i] == s[i] && t[j] == s[j]);
        } else if j == p {
            assert(t[i] == s[i] && t[j] == x);
        } else if i == p {
            assert(t[i] == x && t[j] == s[j - 1]);
            lemma_input_lt_order(x, s[p], s[j - 1]);
            if j - 1 > p {
                assert(!input_lt(s[j - 1], s[p]));
            }
            lemma_input_lt_order(s[j - 1], x, s[p]);
        } else if i < p {
            assert(t[i] == s[i] && t[j] == s[j - 1]);
        } else {
            assert(t[i] == s[i - 1] && t[j] == s[j - 1]);
        }
    }
}

/// The inputs for later heights and rounds are in order when all inputs are, and
/// there are no more of them.
pub proof fn lemma_inputs_after_sorted<P>(s: Seq<StateInput<P>>, h: u128, r: u32)
    requires
        inputs_sorted(s),
    ensures
        inputs_sorted(inputs_after(s, h, r)),
        inputs_after(s, h, r).len() <= s.len(),
        forall|a: int|
            0 <= a < inputs_after(s, h, r).len() ==> exists|i: int|
                0 <= i < s.len() && #[trigger] inputs_after(s, h, r)[a] == s[i],
    decreases s.len(),
{
    if s.len() > 0 {
        let d = s.drop_last();
        assert(inputs_sorted(d)) by {
            assert forall|i: int, j: int| 0 <= i < j < d.len() implies !input_lt(
                #[trigger] d[j],
                #[trigger] d[i],
            ) by {
                assert(d[i] == s[i] && d[j] == s[j]);
            }
        }
        lemma_inputs_after_sorted(d, h, r);
        let f = inputs_after(d, h, r);
        if height_round_lt((h, r), input_height_round(s.last())) {
            let g = f.push(s.last());
            assert forall|a: int| 0 <= a < g.len() implies exists|i: int|
                0 <= i < s.len() && #[trigger] g[a] == s[i] by {
                if a < f.len() {
                    let i = choose|i: int| 0 <= i < d.len() && #[trigger] f[a] == d[i];
                    assert(g[a] == s[i]);
                } else {
                    assert(g[a] == s[s.len() - 1]);
                }
            }
            assert forall|i: int, j: int| 0 <= i < j < g.len() implies !input_lt(
                #[trigger] g[j],
                #[trigger] g[i],
            ) by {
                if j < f.len() {
                    assert(g[i] == f[i] && g[j] == f[j]);
                } else {
                    let k = choose|k: int| 0 <= k < d.len() && #[trigger] f[i] == d[k];
                    assert(g[i] == s[k]);
                    assert(g[j] == s[s.len() - 1]);
                }
            }
        } else {
            assert forall|a: int| 0 <= a < f.len() implies exists|i: int|
                0 <= i < s.len() && #[trigger] f[a] == s[i] by {
                let i = choose|i: int| 0 <= i < d.len() && #[trigger] f[a] == d[i];
                assert(f[a] == s[i]);
            }
        }
    }
}

/// The inputs in the reverse order.
fn reversed<T>(v: Vec<T>) -> (r: Vec<T>)
    ensures
        r@.len() == v@.len(),
        forall|i: int| 0 <= i < v@.len() ==> #[trigger] r@[i] == v@[v@.len() - 1 - i],
{
    let ghost orig = v@;
    let mut v = v;
    let mut r: Vec<T> = Vec::new();
    while v.len() > 0
        invariant
            v@ == orig.take(orig.len() - r@.len()),
            r@.len() <= orig.len(),
            forall|i: int| 0 <= i < r@.len() ==> #[trigger] r@[i] == orig[orig.len() - 1 - i],
        decreases v@.len(),
    {
        let ghost before = v@;
        match v.pop() {
            Some(x) => {
                r.push(x);
                assert(v@ =~= orig.take(orig.len() - r@.len()));
            },
            None => {},
        }
    }
    r
}

/// A bounded buffer of inputs in the order they are to be handled, with no input held
/// twice.
pub struct SessionInputBuffer<P: Proposal> {
    max_inputs: usize,
    ordered_inputs: Vec<Element<P>>,
}

impl<P: Proposal> SessionInputBuffer<P> {
    /// The inputs held, in order.
    pub closed spec fn inputs(&self) -> Seq<StateInput<P>> {
        self.ordered_inputs@.map_values(|e: Element<P>| e.input())
    }

    /// How many inputs the buffer holds at most.
    pub closed spec fn max(&self) -> nat {
        self.max_inputs as nat
    }

    /// The inputs are in order, no two of them are the same, and there are no more of
    /// them than the maximum. Every buffer keeps this.
    #[verifier::type_invariant]
    pub open spec fn wf(&self) -> bool {
        &&& inputs_sorted(self.inputs())
        &&& inputs_distinct(self.inputs())
        &&& self.inputs().len() <= self.max()
    }

    pub fn new(max_inputs: usize) -> (r: Self)
        ensures
            r.wf(),
            r.max() == max_inputs,
            r.inputs() == Seq::<StateInput<P>>::empty(),
    {
        let r = Self { max_inputs, ordered_inputs: Vec::new() };
        assert(r.inputs() =~= Seq::<StateInput<P>>::empty());
        r
    }

    /// Takes in an input, unless the buffer holds none or already holds the same
    /// input. It goes after every input that is not handled after it; when that makes
    /// one too many, the last input is dropped.
    pub fn push(&mut self, state_input: StateInput<P>)
        ensures
            old(self).wf(),
            final(self).wf(),
            final(self).max() == old(self).max(),
            final(self).inputs() == (if old(self).max() == 0 || holds_same(
                old(self).inputs(),
                state_input,
            ) {
                old(self).inputs()
            } else {
                pushed(old(self).inputs(), old(self).max(), state_input)
            }),
    {
        proof {
            use_type_invariant(&*self);
        }
        if self.max_inputs == 0 {
            return;
        }
        let ghost s = self.inputs();
        let mut k: usize = 0;
        while k < self.ordered_inputs.len()
            invariant
                k <= self.ordered_inputs@.len(),
                s == self.inputs(),
                s == old(self).inputs(),
                self.wf(),
                self.max() == old(self).max(),
                forall|m: int| 0 <= m < k ==> !inputs_same(#[trigger] s[m], state_input),
            decreases self.ordered_inputs@.len() - k,
        {
            if same_input(self.ordered_inputs[k].state_input(), &state_input) {
                assert(inputs_same(s[k as int], state_input));
                return;
            }
            k = k + 1;
        }
        assert(!holds_same(s, state_input));
        let mut p: usize = 0;
        while p < self.ordered_inputs.len()
            invariant
                p <= self.ordered_inputs@.len(),
                s == self.inputs(),
                forall|i: int| 0 <= i < p ==> !input_lt(state_input, #[trigger] s[i]),
            ensures
                p <= self.ordered_inputs@.len(),
                s == self.inputs(),
                forall|i: int| 0 <= i < p ==> !input_lt(state_input, #[trigger] s[i]),
                p < self.ordered_inputs@.len() ==> input_lt(state_input, s[p as int]),
            decreases self.ordered_inputs@.len() - p,
        {
            if input_before(&state_input, self.ordered_inputs[p].state_input()) {
                break;
            }
            p = p + 1;
        }
        proof {
            lemma_insertion_point_is(s, state_input, p as int);
            lemma_insert_sorted(s, state_input);
            lemma_insert_distinct(s, state_input, p as int);
        }
        let ghost x = state_input;
        let mut items: Vec<Element<P>> = Vec::new();
        proof {
            assert(items@.map_values(|e: Element<P>| e.input()) =~= Seq::<StateInput<P>>::empty());
        }
        std::mem::swap(&mut items, &mut self.ordered_inputs);
        assert(items@.map_values(|e: Element<P>| e.input()) == s);
        items.insert(p, Element::new(state_input));
        assert(items@.map_values(|e: Element<P>| e.input()) =~= s.insert(p as int, x));
        if items.len() > self.max_inputs {
            items.pop();
            assert(items@.map_values(|e: Element<P>| e.input()) =~= s.insert(p as int, x).drop_last());
        }
        self.ordered_inputs = items;
    }

    /// Takes out the inputs for height `height` and round `round`, in order, and drops
    /// those for earlier heights and rounds; those for later ones stay.
    pub fn pop(&mut self, height: u128, round: u32) -> (r: Vec<StateInput<P>>)
        ensures
            old(self).wf(),
            final(self).wf(),
            final(self).max() == old(self).max(),
            r@ == inputs_at(old(self).inputs(), height, round),
            final(self).inputs() == inputs_after(old(self).inputs(), height, round),
    {
        proof {
            use_type_invariant(&*self);
        }
        let ghost s = self.inputs();
        proof {
            lemma_inputs_after_sorted(s, height, round);
            lemma_inputs_after_distinct(s, height, round);
        }
        let mut items: Vec<Element<P>> = Vec::new();
        proof {
            assert(items@.map_values(|e: Element<P>| e.input()) =~= Seq::<StateInput<P>>::empty());
        }
        std::mem::swap(&mut items, &mut self.ordered_inputs);
        let n = items.len();
        let mut rest = reversed(items);
        let mut result: Vec<StateInput<P>> = Vec::new();
        let mut remaining: Vec<Element<P>> = Vec::new();
        let mut k: usize = 0;
        while k < n
            invariant
                k <= n,
                n == s.len(),
                rest@.len() == n - k,
                forall|i: int| 0 <= i < n - k ==> (#[trigger] rest@[i]).input() == s[n - 1 - i],
                result@ == inputs_at(s.take(k as int), height, round),
                remaining@.map_values(|e: Element<P>| e.input()) == inputs_after(
                    s.take(k as int),
                    height,
                    round,
                ),
            decreases n - k,
        {
            let ghost before = rest@;
            let element = match rest.pop() {
                Some(element) => element,
                None => {
                    return result;
                },
            };
            assert(element.input() == s[k as int]);
            assert(s.take(k + 1).drop_last() =~= s.take(k as int));
            assert(s.take(k + 1).last() == s[k as int]);
            let (element_height, element_round) = height_round(element.state_input());
            if element_height == height && element_round == round {
                result.push(element.into_state_input());
            } else if element_height > height || (element_height == height && element_round
                > round) {
                let ghost e = element;
                let ghost prev = remaining@;
                remaining.push(element);
                assert(remaining@.map_values(|e: Element<P>| e.input()) =~= prev.map_values(
                    |e: Element<P>| e.input(),
                ).push(e.input()));
            }
            proof {
                assert forall|i: int| 0 <= i < n - (k + 1) implies (#[trigger] rest@[i]).input()
                    == s[n - 1 - i] by {
                    assert(rest@[i] == before[i]);
                }
            }
            k = k + 1;
        }
        assert(s.take(n as int) =~= s);
        self.ordered_inputs = remaining;
        result
    }
}

} // verus!
