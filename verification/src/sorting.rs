//! Sorting that keeps equals in the order in which they came.
use vstd::prelude::*;

verus! {

/// Values that can be put in order.
pub trait Ranked: Sized {
    /// Whether `self` may stand before `other`.
    spec fn at_most(&self, other: &Self) -> bool;

    proof fn ranks_are_total(a: &Self, b: &Self)
        ensures
            a.at_most(b) || b.at_most(a),
    ;

    proof fn ranks_are_transitive(a: &Self, b: &Self, c: &Self)
        requires
            a.at_most(b),
            b.at_most(c),
        ensures
            a.at_most(c),
    ;

    /// Whether `self` may stand before `other`.
    fn is_at_most(&self, other: &Self) -> (b: bool)
        ensures
            b == self.at_most(other),
    ;
}

/// Whether two values rank equally.
pub open spec fn same_rank<T: Ranked>(a: T, b: T) -> bool {
    a.at_most(&b) && b.at_most(&a)
}

/// The values of `s` that rank as `y` does, in the order in which they stand.
pub open spec fn equals_of<T: Ranked>(s: Seq<T>, y: T) -> Seq<T> {
    s.filter(|e: T| same_rank(e, y))
}

/// Whether every value may stand before those that follow it.
pub open spec fn in_order<T: Ranked>(s: Seq<T>) -> bool {
    forall|i: int, j: int| #![trigger s[i], s[j]] 0 <= i < j < s.len() ==> s[i].at_most(&s[j])
}

/// Whether `output` is `input` put in order, with equals in the order in which they came.
pub open spec fn sorted_from<T: Ranked>(input: Seq<T>, output: Seq<T>) -> bool {
    in_order(output) && forall|y: T| #[trigger] equals_of(output, y) == equals_of(input, y)
}

proof fn lemma_filter_none<T>(s: Seq<T>, keep: spec_fn(T) -> bool)
    requires
        forall|i: int| 0 <= i < s.len() ==> !keep(#[trigger] s[i]),
    ensures
        s.filter(keep) == Seq::<T>::empty(),
    decreases s.len(),
{
    reveal(Seq::filter);
    if s.len() > 0 {
        lemma_filter_none(s.drop_last(), keep);
    }
}

proof fn lemma_filter_one<T>(x: T, keep: spec_fn(T) -> bool)
    ensures
        seq![x].filter(keep) == (if keep(x) {
            seq![x]
        } else {
            Seq::<T>::empty()
        }),
{
    reveal(Seq::filter);
    let s = seq![x];
    assert(s.drop_last() =~= Seq::<T>::empty());
    assert(s.drop_last().filter(keep) =~= Seq::<T>::empty());
    assert(Seq::<T>::empty().push(x) =~= s);
}

proof fn lemma_insert_keeps_equals<T: Ranked>(s: Seq<T>, k: int, x: T, y: T)
    requires
        in_order(s),
        0 <= k <= s.len(),
        k < s.len() ==> !s[k].at_most(&x),
    ensures
        equals_of(s.insert(k, x), y) == equals_of(s.push(x), y),
{
    let keep = |e: T| same_rank(e, y);
    let front = s.take(k);
    let back = s.skip(k);
    assert(s.insert(k, x) =~= front + seq![x] + back);
    assert(s.push(x) =~= front + back + seq![x]);
    Seq::filter_distributes_over_add(front + seq![x], back, keep);
    Seq::filter_distributes_over_add(front, seq![x], keep);
    Seq::filter_distributes_over_add(front + back, seq![x], keep);
    Seq::filter_distributes_over_add(front, back, keep);
    lemma_filter_one(x, keep);
    if keep(x) {
        assert forall|i: int| 0 <= i < back.len() implies !keep(#[trigger] back[i]) by {
            if keep(back[i]) {
                T::ranks_are_transitive(&back[i], &y, &x);
                if i > 0 {
                    assert(s[k].at_most(&s[k + i]));
                    T::ranks_are_transitive(&s[k], &s[k + i], &x);
                }
            }
        }
        lemma_filter_none(back, keep);
        assert(front.filter(keep) + seq![x] + Seq::<T>::empty() =~= front.filter(keep) + Seq::<
            T,
        >::empty() + seq![x]);
    } else {
        assert(front.filter(keep) + Seq::<T>::empty() + back.filter(keep) =~= front.filter(keep)
            + back.filter(keep) + Seq::<T>::empty());
    }
}

proof fn lemma_insert_in_order<T: Ranked>(s: Seq<T>, k: int, x: T)
    requires
        in_order(s),
        0 <= k <= s.len(),
        forall|i: int| 0 <= i < k ==> (#[trigger] s[i]).at_most(&x),
        k < s.len() ==> !s[k].at_most(&x),
    ensures
        in_order(s.insert(k, x)),
{
    let t = s.insert(k, x);
    if k < s.len() {
        T::ranks_are_total(&s[k], &x);
    }
    assert forall|i: int, j: int| #![trigger t[i], t[j]] 0 <= i < j < t.len() implies t[i].at_most(
        &t[j],
    ) by {
        if i == k {
            assert(t[j] == s[j - 1]);
            if j - 1 > k {
                assert(s[k].at_most(&s[j - 1]));
                T::ranks_are_transitive(&x, &s[k], &s[j - 1]);
            }
        } else if j == k {
            assert(t[i] == s[i]);
        } else {
            let a = if i < k {
                i
            } else {
                i - 1
            };
            let b = if j < k {
                j
            } else {
                j - 1
            };
            assert(s[a].at_most(&s[b]));
        }
    }
}

/// Put a list in order; equals stay in the order in which they came.
pub fn sort<T: Ranked>(list: Vec<T>) -> (sorted: Vec<T>)
    ensures
        sorted_from(list@, sorted@),
        sorted@.len() == list@.len(),
{
    let mut rest = list;
    let mut sorted: Vec<T> = Vec::new();
    let ghost all = rest@;
    let ghost mut done: int = 0;
    assert(all.skip(0) =~= all);
    assert(all.take(0) =~= sorted@);
    while rest.len() > 0
        invariant
            0 <= done <= all.len(),
            rest@ == all.skip(done),
            sorted@.len() == done,
            in_order(sorted@),
            forall|y: T| #[trigger] equals_of(sorted@, y) == equals_of(all.take(done), y),
        decreases rest@.len(),
    {
        let x = rest.remove(0);
        assert(rest@ =~= all.skip(done + 1));
        assert(x == all[done]);
        let mut k: usize = 0;
        while k < sorted.len() && sorted[k].is_at_most(&x)
            invariant
                k <= sorted@.len(),
                forall|i: int| 0 <= i < k ==> (#[trigger] sorted@[i]).at_most(&x),
            decreases sorted@.len() - k,
        {
            k += 1;
        }
        let ghost before = sorted@;
        sorted.insert(k, x);
        proof {
            lemma_insert_in_order(before, k as int, x);
            assert(all.take(done + 1) =~= all.take(done) + seq![x]);
            assert(before.push(x) =~= before + seq![x]);
            assert forall|y: T| #[trigger] equals_of(sorted@, y) == equals_of(
                all.take(done + 1),
                y,
            ) by {
                let keep = |e: T| same_rank(e, y);
                lemma_insert_keeps_equals(before, k as int, x, y);
                Seq::filter_distributes_over_add(before, seq![x], keep);
                Seq::filter_distributes_over_add(all.take(done), seq![x], keep);
                assert(equals_of(before, y) == equals_of(all.take(done), y));
            }
            done = done + 1;
        }
    }
    assert(all.take(done) =~= all);
    sorted
}

/// Sorting drops nothing and adds nothing.
pub proof fn law_sorting_keeps_values<T: Ranked>(input: Seq<T>, output: Seq<T>, x: T)
    requires
        sorted_from(input, output),
    ensures
        input.contains(x) <==> output.contains(x),
{
    let keep = |e: T| same_rank(e, x);
    T::ranks_are_total(&x, &x);
    assert(equals_of(output, x) == equals_of(input, x));
    if input.contains(x) {
        let i = choose|i: int| 0 <= i < input.len() && input[i] == x;
        input.lemma_filter_contains(keep, i);
        output.lemma_filter_contains_rev(keep, x);
    }
    if output.contains(x) {
        let i = choose|i: int| 0 <= i < output.len() && output[i] == x;
        output.lemma_filter_contains(keep, i);
        input.lemma_filter_contains_rev(keep, x);
    }
}

/// What comes out of sorting is what went in, each value as often, every value before those that
/// may only follow it, and of those that rank equally the one first that came first.
pub proof fn law_sorting_only_moves_values<T: Ranked>(
    input: Seq<T>,
    output: Seq<T>,
    i: int,
    j: int,
    y: T,
)
    requires
        sorted_from(input, output),
    ensures
        output.to_multiset() == input.to_multiset(),
        output.len() == input.len(),
        0 <= i < j < output.len() ==> output[i].at_most(&output[j]),
        output.filter(|e: T| e.at_most(&y) && y.at_most(&e)) == input.filter(
            |e: T| e.at_most(&y) && y.at_most(&e),
        ),
{
    broadcast use vstd::seq_lib::group_to_multiset_ensures;

    assert forall|x: T| output.to_multiset().count(x) == input.to_multiset().count(x) by {
        let keep = |e: T| same_rank(e, x);
        T::ranks_are_total(&x, &x);
        assert(equals_of(output, x) == equals_of(input, x));
        lemma_filter_keeps_count(output, keep, x);
        lemma_filter_keeps_count(input, keep, x);
    }
    assert(output.to_multiset() =~= input.to_multiset());
    assert(output.to_multiset().len() == output.len());
    assert(input.to_multiset().len() == input.len());
    assert(equals_of(output, y) == equals_of(input, y));
    assert((|e: T| same_rank(e, y)) =~= (|e: T| e.at_most(&y) && y.at_most(&e)));
}

proof fn lemma_filter_keeps_count<T>(s: Seq<T>, keep: spec_fn(T) -> bool, x: T)
    requires
        keep(x),
    ensures
        s.filter(keep).to_multiset().count(x) == s.to_multiset().count(x),
    decreases s.len(),
{
    broadcast use vstd::seq_lib::group_to_multiset_ensures;

    reveal(Seq::filter);
    if s.len() > 0 {
        let front = s.drop_last();
        lemma_filter_keeps_count(front, keep, x);
        assert(s =~= front.push(s.last()));
    } else {
        assert(s.filter(keep) =~= s);
    }
}

} // verus!
