//! Taking items out of a list by what they are.
use vstd::prelude::*;

verus! {

/// The items of `s` whose verdict is `want`, in their order.
pub open spec fn picked<T>(s: Seq<T>, verdicts: Seq<bool>, want: bool) -> Seq<T>
    decreases s.len(),
{
    if s.len() == 0 {
        Seq::empty()
    } else {
        let rest = picked(s.drop_last(), verdicts.drop_last(), want);
        if verdicts.last() == want {
            rest.push(s.last())
        } else {
            rest
        }
    }
}

/// The verdicts are what `pred` says of the items, one by one.
pub open spec fn judged<T, Pred: Fn(&T) -> bool>(
    pred: Pred,
    s: Seq<T>,
    verdicts: Seq<bool>,
) -> bool {
    &&& verdicts.len() == s.len()
    &&& forall|i: int| 0 <= i < s.len() ==> call_ensures(pred, (&s[i],), #[trigger] verdicts[i])
}

/// A test that answers by `p` picks what `filter` picks.
pub proof fn lemma_picked_is_filter<T>(s: Seq<T>, verdicts: Seq<bool>, p: spec_fn(T) -> bool)
    requires
        verdicts.len() == s.len(),
        forall|i: int| 0 <= i < s.len() ==> #[trigger] verdicts[i] == p(s[i]),
    ensures
        picked(s, verdicts, true) == s.filter(p),
        picked(s, verdicts, false) == s.filter(|x: T| !p(x)),
    decreases s.len(),
{
    reveal(Seq::filter);
    if s.len() > 0 {
        let n = s.len() - 1;
        assert(verdicts[n] == p(s[n]));
        assert forall|i: int| 0 <= i < n implies #[trigger] verdicts.drop_last()[i] == p(
            s.drop_last()[i],
        ) by {
            assert(verdicts[i] == p(s[i]));
        }
        lemma_picked_is_filter(s.drop_last(), verdicts.drop_last(), p);
    }
}

/// Draining loses nothing and makes nothing up: what is taken and what is left are
/// together what was there.
pub proof fn law_drain_keeps_every_item<T>(s: Seq<T>, verdicts: Seq<bool>)
    requires
        verdicts.len() == s.len(),
    ensures
        picked(s, verdicts, true).to_multiset().add(picked(s, verdicts, false).to_multiset())
            =~= s.to_multiset(),
        picked(s, verdicts, true).len() + picked(s, verdicts, false).len() == s.len(),
    decreases s.len(),
{
    broadcast use vstd::seq_lib::group_to_multiset_ensures;

    if s.len() > 0 {
        law_drain_keeps_every_item(s.drop_last(), verdicts.drop_last());
        assert(s =~= s.drop_last().push(s.last()));
    }
}

/// Each item taken was judged to be one to take.
pub proof fn lemma_picked_were_judged<T, Pred: Fn(&T) -> bool>(
    pred: Pred,
    s: Seq<T>,
    verdicts: Seq<bool>,
    want: bool,
    i: int,
)
    requires
        judged(pred, s, verdicts),
        0 <= i < picked(s, verdicts, want).len(),
    ensures
        call_ensures(pred, (&picked(s, verdicts, want)[i],), want),
    decreases s.len(),
{
    if s.len() > 0 {
        let n = s.len() - 1;
        let rest = picked(s.drop_last(), verdicts.drop_last(), want);
        assert(call_ensures(pred, (&s[n],), verdicts[n]));
        assert forall|k: int| 0 <= k < n implies call_ensures(
            pred,
            (&s.drop_last()[k],),
            #[trigger] verdicts.drop_last()[k],
        ) by {
            assert(call_ensures(pred, (&s[k],), verdicts[k]));
        }
        if i < rest.len() {
            lemma_picked_were_judged(pred, s.drop_last(), verdicts.drop_last(), want, i);
        }
    }
}

/// Moves the items for which `pred` holds out of `source`; both lists keep the order.
pub fn drain_where<T, Pred: Fn(&T) -> bool>(source: &mut Vec<T>, pred: Pred) -> (r: Vec<T>)
    requires
        forall|i: int|
            0 <= i < old(source)@.len() ==> call_requires(pred, (&#[trigger] old(source)@[i],)),
    ensures
        exists|verdicts: Seq<bool>| #[trigger]
            judged(pred, old(source)@, verdicts) && r@ == picked(old(source)@, verdicts, true)
                && final(source)@ == picked(old(source)@, verdicts, false),
{
    let mut items: Vec<T> = Vec::new();
    std::mem::swap(source, &mut items);
    let ghost all = items@;
    let ghost mut verdicts: Seq<bool> = Seq::empty();
    let mut left: Vec<T> = Vec::new();
    let mut drained: Vec<T> = Vec::new();
    for item in it: items
        invariant
            it.seq() == all,
            verdicts.len() == it.index(),
            judged(pred, all.take(it.index() as int), verdicts),
            forall|i: int| 0 <= i < all.len() ==> call_requires(pred, (&#[trigger] all[i],)),
            drained@ == picked(all.take(it.index() as int), verdicts, true),
            left@ == picked(all.take(it.index() as int), verdicts, false),
    {
        let ghost n = it.index() as int;
        assert(item == all[n]);
        let verdict: bool = pred(&item);
        proof {
            let before = verdicts;
            verdicts = before.push(verdict);
            assert(verdicts.drop_last() =~= before);
            assert(all.take(n + 1).drop_last() =~= all.take(n));
            assert forall|i: int| 0 <= i < n + 1 implies call_ensures(
                pred,
                (&all.take(n + 1)[i],),
                #[trigger] verdicts[i],
            ) by {
                if i < n {
                    assert(call_ensures(pred, (&all.take(n)[i],), before[i]));
                }
            }
        }
        if verdict {
            drained.push(item);
        } else {
            left.push(item);
        }
    }
    assert(all.take(all.len() as int) =~= all);
    *source = left;
    drained
}

/// What is taken is what passes the test, and what is left is what does not, both in their
/// order.
pub proof fn law_drain_parts_the_list<T, Pred: Fn(&T) -> bool>(
    source: &mut Vec<T>,
    pred: Pred,
    p: spec_fn(T) -> bool,
    r: Vec<T>,
)
    requires
        forall|x: T| call_requires(pred, (&x,)),
        forall|x: T, b: bool| #[trigger] call_ensures(pred, (&x,), b) ==> b == p(x),
        call_ensures(drain_where::<T, Pred>, (source, pred), r),
    ensures
        r@ == old(source)@.filter(p),
        final(source)@ == old(source)@.filter(|x: T| !p(x)),
{
    let verdicts = choose|verdicts: Seq<bool>| #[trigger]
        judged(pred, old(source)@, verdicts) && r@ == picked(old(source)@, verdicts, true)
            && final(source)@ == picked(old(source)@, verdicts, false);
    assert forall|i: int| 0 <= i < old(source)@.len() implies #[trigger] verdicts[i] == p(
        old(source)@[i],
    ) by {
        assert(call_ensures(pred, (&old(source)@[i],), verdicts[i]));
    }
    lemma_picked_is_filter(old(source)@, verdicts, p);
}

} // verus!
