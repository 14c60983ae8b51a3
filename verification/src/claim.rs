//! Handing out channels in the order in which they were asked for.
use crate::drain::{
    drain_where, judged, law_drain_keeps_every_item, lemma_picked_is_filter,
    lemma_picked_were_judged, picked,
};
use vstd::prelude::*;

verus! {

/// What has been handed out, and what is still there.
#[verifier::ext_equal]
pub struct Claims<D> {
    pub granted: Seq<D>,
    pub left: Seq<D>,
}

/// Hands out, for each key in turn, the one item that is still there and belongs to it.
/// `None` as soon as a key finds no item, or more than one.
pub open spec fn claims<D, K>(
    items: Seq<D>,
    keys: Seq<K>,
    belongs: spec_fn(D, K) -> bool,
) -> Option<Claims<D>>
    decreases keys.len(),
{
    if keys.len() == 0 {
        Some(Claims { granted: Seq::empty(), left: items })
    } else {
        match claims(items, keys.drop_last(), belongs) {
            None => None,
            Some(c) => {
                let found = c.left.filter(|d: D| belongs(d, keys.last()));
                if found.len() == 1 {
                    Some(
                        Claims {
                            granted: c.granted.push(found[0]),
                            left: c.left.filter(|d: D| !belongs(d, keys.last())),
                        },
                    )
                } else {
                    None
                }
            },
        }
    }
}

/// The items in the order of the keys, where every key can be served.
pub open spec fn claimed<D, K>(
    items: Seq<D>,
    keys: Seq<K>,
    belongs: spec_fn(D, K) -> bool,
) -> Option<Seq<D>> {
    match claims(items, keys, belongs) {
        Some(c) => Some(c.granted),
        None => None,
    }
}

/// `test` answers by `belongs`.
pub open spec fn decides<D, K, F: Fn(&D, &K) -> bool>(
    test: F,
    belongs: spec_fn(D, K) -> bool,
) -> bool {
    forall|d: D, k: K, b: bool| #[trigger] call_ensures(test, (&d, &k), b) ==> b == belongs(d, k)
}

/// Claims stop at the first key that cannot be served.
proof fn lemma_claims_prefix<D, K>(
    items: Seq<D>,
    keys: Seq<K>,
    belongs: spec_fn(D, K) -> bool,
    n: int,
)
    requires
        0 <= n <= keys.len(),
        claims(items, keys.take(n), belongs) is None,
    ensures
        claims(items, keys, belongs) is None,
    decreases keys.len(),
{
    if n == keys.len() {
        assert(keys.take(n) =~= keys);
    } else {
        assert(keys.drop_last().take(n) =~= keys.take(n));
        lemma_claims_prefix(items, keys.drop_last(), belongs, n);
    }
}

/// The items that belong to a key.
pub open spec fn items_of<D, K>(items: Seq<D>, key: K, belongs: spec_fn(D, K) -> bool) -> Seq<D> {
    items.filter(|d: D| belongs(d, key))
}

/// No item belongs to two keys.
pub open spec fn keys_are_apart<D, K>(keys: Seq<K>, belongs: spec_fn(D, K) -> bool) -> bool {
    forall|d: D, i: int, j: int|
        0 <= i < j < keys.len() ==> !(#[trigger] belongs(d, keys[i]) && #[trigger] belongs(
            d,
            keys[j],
        ))
}

/// An item that belongs to none of the keys.
spec fn unclaimed<D, K>(d: D, keys: Seq<K>, belongs: spec_fn(D, K) -> bool) -> bool {
    forall|i: int| 0 <= i < keys.len() ==> !#[trigger] belongs(d, keys[i])
}

proof fn lemma_filter_twice<T>(s: Seq<T>, p: spec_fn(T) -> bool, q: spec_fn(T) -> bool, both: spec_fn(
    T,
) -> bool)
    requires
        forall|x: T| #[trigger] both(x) == (p(x) && q(x)),
    ensures
        s.filter(p).filter(q) == s.filter(both),
    decreases s.len(),
{
    reveal(Seq::filter);
    if s.len() > 0 {
        lemma_filter_twice(s.drop_last(), p, q, both);
        let rest = s.drop_last().filter(p);
        assert(both(s.last()) == (p(s.last()) && q(s.last())));
        if p(s.last()) {
            assert(rest.push(s.last()).drop_last() =~= rest);
        }
    }
}

proof fn lemma_claims<D, K>(items: Seq<D>, keys: Seq<K>, belongs: spec_fn(D, K) -> bool)
    requires
        keys_are_apart(keys, belongs),
    ensures
        claims(items, keys, belongs) is Some <==> forall|i: int|
            0 <= i < keys.len() ==> items_of(items, #[trigger] keys[i], belongs).len() == 1,
        claims(items, keys, belongs) matches Some(c) ==> {
            &&& c.granted.len() == keys.len()
            &&& c.left == items.filter(|d: D| unclaimed(d, keys, belongs))
            &&& forall|i: int|
                0 <= i < keys.len() ==> #[trigger] c.granted[i] == items_of(
                    items,
                    keys[i],
                    belongs,
                )[0]
        },
    decreases keys.len(),
{
    if keys.len() == 0 {
        let p = |d: D| unclaimed(d, keys, belongs);
        lemma_filter_all(items, p);
    } else {
        let rest = keys.drop_last();
        let n = keys.len() - 1;
        assert(keys_are_apart(rest, belongs)) by {
            assert forall|d: D, i: int, j: int| 0 <= i < j < rest.len() implies !(#[trigger] belongs(
                d,
                rest[i],
            ) && #[trigger] belongs(d, rest[j])) by {
                assert(!(belongs(d, keys[i]) && belongs(d, keys[j])));
            }
        }
        lemma_claims(items, rest, belongs);
        if claims(items, rest, belongs) is Some {
            let c = claims(items, rest, belongs)->0;
            let p = |d: D| unclaimed(d, rest, belongs);
            let q = |d: D| belongs(d, keys.last());
            let not_q = |d: D| !belongs(d, keys.last());
            let after = |d: D| unclaimed(d, keys, belongs);
            assert forall|d: D| #[trigger] q(d) == (p(d) && q(d)) by {
                if q(d) {
                    assert forall|i: int| 0 <= i < rest.len() implies !#[trigger] belongs(
                        d,
                        rest[i],
                    ) by {
                        assert(!(belongs(d, keys[i]) && belongs(d, keys[n])));
                    }
                }
            }
            lemma_filter_twice(items, p, q, q);
            assert forall|d: D| #[trigger] after(d) == (p(d) && not_q(d)) by {
                if after(d) {
                    assert forall|i: int| 0 <= i < rest.len() implies !#[trigger] belongs(
                        d,
                        rest[i],
                    ) by {
                        assert(!belongs(d, keys[i]));
                    }
                    assert(!belongs(d, keys[n]));
                }
                if p(d) && not_q(d) {
                    assert forall|i: int| 0 <= i < keys.len() implies !#[trigger] belongs(
                        d,
                        keys[i],
                    ) by {
                        if i < n {
                            assert(!belongs(d, rest[i]));
                        }
                    }
                }
            }
            lemma_filter_twice(items, p, not_q, after);
            assert(c.left.filter(q) == items_of(items, keys[n], belongs));
            assert forall|i: int| 0 <= i < n implies items_of(
                items,
                #[trigger] keys[i],
                belongs,
            ).len() == 1 by {
                assert(items_of(items, rest[i], belongs).len() == 1);
            }
            if claims(items, keys, belongs) is Some {
                let now = claims(items, keys, belongs)->0;
                assert forall|i: int| 0 <= i < keys.len() implies #[trigger] now.granted[i]
                    == items_of(items, keys[i], belongs)[0] by {
                    if i < n {
                        assert(c.granted[i] == items_of(items, rest[i], belongs)[0]);
                    }
                }
            }
        } else {
            let i = choose|i: int|
                0 <= i < rest.len() && items_of(items, #[trigger] rest[i], belongs).len() != 1;
            assert(items_of(items, keys[i], belongs).len() != 1);
        }
    }
}

proof fn lemma_filter_all<T>(s: Seq<T>, p: spec_fn(T) -> bool)
    requires
        forall|x: T| #[trigger] p(x),
    ensures
        s.filter(p) == s,
    decreases s.len(),
{
    reveal(Seq::filter);
    if s.len() > 0 {
        lemma_filter_all(s.drop_last(), p);
        assert(s =~= s.drop_last().push(s.last()));
    }
}

/// Where no item belongs to two keys, the items can be put into the order of the keys
/// exactly if every key has one item, and each key then gets its own.
pub proof fn law_each_key_gets_its_own_item<D, K>(
    items: Seq<D>,
    keys: Seq<K>,
    belongs: spec_fn(D, K) -> bool,
)
    requires
        keys_are_apart(keys, belongs),
    ensures
        claimed(items, keys, belongs) is Some <==> forall|i: int|
            0 <= i < keys.len() ==> items_of(items, #[trigger] keys[i], belongs).len() == 1,
        claimed(items, keys, belongs) matches Some(granted) ==> {
            &&& granted.len() == keys.len()
            &&& forall|i: int|
                0 <= i < keys.len() ==> #[trigger] granted[i] == items_of(items, keys[i], belongs)[0]
        },
{
    lemma_claims(items, keys, belongs);
}

proof fn lemma_nothing_lost<D, K>(items: Seq<D>, keys: Seq<K>, belongs: spec_fn(D, K) -> bool)
    requires
        claims(items, keys, belongs) is Some,
    ensures
        ({
            let c = claims(items, keys, belongs)->0;
            &&& c.granted.len() == keys.len()
            &&& c.granted.len() + c.left.len() == items.len()
            &&& c.granted.to_multiset().add(c.left.to_multiset()) =~= items.to_multiset()
        }),
    decreases keys.len(),
{
    broadcast use vstd::seq_lib::group_to_multiset_ensures;

    if keys.len() > 0 {
        lemma_nothing_lost(items, keys.drop_last(), belongs);
        let before = claims(items, keys.drop_last(), belongs)->0;
        let after = claims(items, keys, belongs)->0;
        let p = |d: D| belongs(d, keys.last());
        let verdicts = Seq::new(before.left.len(), |i: int| p(before.left[i]));
        lemma_picked_is_filter(before.left, verdicts, p);
        law_drain_keeps_every_item(before.left, verdicts);
        assert((|d: D| !p(d)) =~= (|d: D| !belongs(d, keys.last())));
        let found = before.left.filter(p);
        assert(found =~= Seq::empty().push(found[0]));
        assert(after.granted.to_multiset() =~= before.granted.to_multiset().insert(found[0]));
        assert(found.to_multiset().len() + after.left.to_multiset().len()
            == before.left.to_multiset().len());
    }
}

/// With as many keys as items, putting into order drops no item and doubles none.
pub proof fn law_order_keeps_every_item<D, K>(
    items: Seq<D>,
    keys: Seq<K>,
    belongs: spec_fn(D, K) -> bool,
)
    requires
        claimed(items, keys, belongs) is Some,
        items.len() == keys.len(),
    ensures
        claimed(items, keys, belongs)->0.to_multiset() =~= items.to_multiset(),
{
    broadcast use vstd::seq_lib::group_to_multiset_ensures;

    lemma_nothing_lost(items, keys, belongs);
    let c = claims(items, keys, belongs)->0;
    assert(c.left =~= Seq::empty());
    assert(c.granted.to_multiset().add(c.left.to_multiset()) =~= c.granted.to_multiset());
}

proof fn lemma_filter_to_multiset<T>(s: Seq<T>, p: spec_fn(T) -> bool)
    ensures
        s.filter(p).to_multiset() =~= s.to_multiset().filter(p),
    decreases s.len(),
{
    broadcast use vstd::seq_lib::group_to_multiset_ensures;
    broadcast use vstd::multiset::group_multiset_axioms;

    reveal(Seq::filter);
    if s.len() > 0 {
        lemma_filter_to_multiset(s.drop_last(), p);
        assert(s =~= s.drop_last().push(s.last()));
    }
}

/// Lists with the same items end up with the same claims, up to the order of what is left.
proof fn lemma_claims_of_permuted<D, K>(
    items: Seq<D>,
    others: Seq<D>,
    keys: Seq<K>,
    belongs: spec_fn(D, K) -> bool,
)
    requires
        items.to_multiset() == others.to_multiset(),
    ensures
        match (claims(items, keys, belongs), claims(others, keys, belongs)) {
            (Some(c), Some(d)) => c.granted == d.granted && c.left.to_multiset()
                == d.left.to_multiset(),
            (None, None) => true,
            _ => false,
        },
    decreases keys.len(),
{
    broadcast use vstd::seq_lib::group_to_multiset_ensures;

    if keys.len() > 0 {
        lemma_claims_of_permuted(items, others, keys.drop_last(), belongs);
        if claims(items, keys.drop_last(), belongs) is Some {
            let c = claims(items, keys.drop_last(), belongs)->0;
            let d = claims(others, keys.drop_last(), belongs)->0;
            let p = |d: D| belongs(d, keys.last());
            let q = |d: D| !belongs(d, keys.last());
            lemma_filter_to_multiset(c.left, p);
            lemma_filter_to_multiset(d.left, p);
            lemma_filter_to_multiset(c.left, q);
            lemma_filter_to_multiset(d.left, q);
            let found = c.left.filter(p);
            let other = d.left.filter(p);
            assert(found.len() == found.to_multiset().len());
            assert(other.len() == other.to_multiset().len());
            if found.len() == 1 {
                assert(found.contains(found[0]));
                assert(other.to_multiset().count(found[0]) > 0);
                assert(other.contains(found[0]));
            }
        }
    }
}

/// The order of the items has no influence on what each key gets: two lists that hold the
/// same items, in whatever order, are put into the same order, or neither can be.
pub proof fn law_order_of_items_has_no_influence<D, K>(
    items: Seq<D>,
    others: Seq<D>,
    keys: Seq<K>,
    belongs: spec_fn(D, K) -> bool,
)
    requires
        items.to_multiset() == others.to_multiset(),
    ensures
        claimed(items, keys, belongs) == claimed(others, keys, belongs),
{
    lemma_claims_of_permuted(items, others, keys, belongs);
}

proof fn lemma_filter_of_looks<D, A>(
    s: Seq<D>,
    look: spec_fn(D) -> A,
    p: spec_fn(D) -> bool,
    q: spec_fn(A) -> bool,
)
    requires
        forall|d: D| #[trigger] p(d) == q(look(d)),
    ensures
        s.filter(p).map_values(look) == s.map_values(look).filter(q),
    decreases s.len(),
{
    reveal(Seq::filter);
    if s.len() > 0 {
        lemma_filter_of_looks(s.drop_last(), look, p, q);
        assert(s.map_values(look).drop_last() =~= s.drop_last().map_values(look));
        assert(p(s.last()) == q(look(s.last())));
        let rest = s.drop_last().filter(p);
        assert(rest.push(s.last()).map_values(look) =~= rest.map_values(look).push(
            look(s.last()),
        ));
    } else {
        assert(s.filter(p).map_values(look) =~= s.map_values(look).filter(q));
    }
}

/// Lists that look the same, up to the order, have as many items that belong to a key.
pub proof fn lemma_as_many_items<D, E, A, K>(
    items: Seq<D>,
    others: Seq<E>,
    key: K,
    belongs: spec_fn(D, K) -> bool,
    others_belong: spec_fn(E, K) -> bool,
    look: spec_fn(D) -> A,
    look_at_others: spec_fn(E) -> A,
    fits: spec_fn(A, K) -> bool,
)
    requires
        forall|d: D, k: K| #[trigger] belongs(d, k) == fits(look(d), k),
        forall|e: E, k: K| #[trigger] others_belong(e, k) == fits(look_at_others(e), k),
        items.map_values(look).to_multiset() == others.map_values(look_at_others).to_multiset(),
    ensures
        items_of(items, key, belongs).len() == items_of(others, key, others_belong).len(),
{
    broadcast use vstd::seq_lib::group_to_multiset_ensures;

    let p = |a: A| fits(a, key);
    lemma_filter_of_looks(items, look, |d: D| belongs(d, key), p);
    lemma_filter_of_looks(others, look_at_others, |e: E| others_belong(e, key), p);
    lemma_filter_to_multiset(items.map_values(look), p);
    lemma_filter_to_multiset(others.map_values(look_at_others), p);
    let ours = items.map_values(look).filter(p);
    let theirs = others.map_values(look_at_others).filter(p);
    assert(ours.len() == ours.to_multiset().len());
    assert(theirs.len() == theirs.to_multiset().len());
    assert(items_of(items, key, belongs).map_values(look).len() == items_of(
        items,
        key,
        belongs,
    ).len());
    assert(items_of(others, key, others_belong).map_values(look_at_others).len() == items_of(
        others,
        key,
        others_belong,
    ).len());
}

/// Where a look at an item decides to which keys it belongs, claims can be made by the looks.
proof fn lemma_claims_by_looks<D, A, K>(
    items: Seq<D>,
    keys: Seq<K>,
    belongs: spec_fn(D, K) -> bool,
    look: spec_fn(D) -> A,
    fits: spec_fn(A, K) -> bool,
)
    requires
        forall|d: D, k: K| #[trigger] belongs(d, k) == fits(look(d), k),
    ensures
        match (claims(items, keys, belongs), claims(items.map_values(look), keys, fits)) {
            (Some(c), Some(d)) => c.granted.map_values(look) == d.granted && c.left.map_values(
                look,
            ) == d.left,
            (None, None) => true,
            _ => false,
        },
    decreases keys.len(),
{
    if keys.len() > 0 {
        lemma_claims_by_looks(items, keys.drop_last(), belongs, look, fits);
        if claims(items, keys.drop_last(), belongs) is Some {
            let c = claims(items, keys.drop_last(), belongs)->0;
            let k = keys.last();
            lemma_filter_of_looks(c.left, look, |d: D| belongs(d, k), |a: A| fits(a, k));
            lemma_filter_of_looks(c.left, look, |d: D| !belongs(d, k), |a: A| !fits(a, k));
            let found = c.left.filter(|d: D| belongs(d, k));
            assert(found.map_values(look).len() == found.len());
            if found.len() == 1 {
                assert(c.granted.push(found[0]).map_values(look) =~= c.granted.map_values(
                    look,
                ).push(look(found[0])));
            }
        }
    } else {
        assert(Seq::<D>::empty().map_values(look) =~= Seq::<A>::empty());
    }
}

/// The same of items that differ, but not by what `look` sees of them: where that decides to
/// which keys they belong, two lists that look the same up to the order come to lists that
/// look the same place by place, or neither can be put into the order of the keys.
pub proof fn law_order_of_looks_has_no_influence<D, A, K>(
    items: Seq<D>,
    others: Seq<D>,
    keys: Seq<K>,
    belongs: spec_fn(D, K) -> bool,
    look: spec_fn(D) -> A,
    fits: spec_fn(A, K) -> bool,
)
    requires
        forall|d: D, k: K| #[trigger] belongs(d, k) == fits(look(d), k),
        items.map_values(look).to_multiset() == others.map_values(look).to_multiset(),
    ensures
        match (claimed(items, keys, belongs), claimed(others, keys, belongs)) {
            (Some(v), Some(w)) => v.map_values(look) == w.map_values(look),
            (None, None) => true,
            _ => false,
        },
{
    lemma_claims_by_looks(items, keys, belongs, look, fits);
    lemma_claims_by_looks(others, keys, belongs, look, fits);
    lemma_claims_of_permuted(items.map_values(look), others.map_values(look), keys, fits);
}

/// Puts `items` into the order of `keys`. `None` if some key does not have exactly one
/// item among those that are left when its turn comes.
pub fn claim_in_order<D, K, F: Fn(&D, &K) -> bool + Copy>(items: Vec<D>, keys: &Vec<K>, test: F) -> (r:
    Option<Vec<D>>)
    requires
        forall|d: D, k: K| call_requires(test, (&d, &k)),
    ensures
        r matches Some(v) ==> {
            &&& v@.len() == keys@.len()
            &&& forall|i: int|
                0 <= i < keys@.len() ==> call_ensures(test, (&#[trigger] v@[i], &keys@[i]), true)
        },
        forall|belongs: spec_fn(D, K) -> bool| #[trigger]
            decides(test, belongs) ==> match r {
                Some(v) => claimed(items@, keys@, belongs) == Some(v@),
                None => claimed(items@, keys@, belongs) is None,
            },
{
    let mut left = items;
    let mut granted: Vec<D> = Vec::new();
    assert(keys@.take(0) =~= Seq::empty());
    for i in 0..keys.len()
        invariant
            granted@.len() == i,
            forall|d: D, k: K| call_requires(test, (&d, &k)),
            forall|k: int|
                0 <= k < i ==> call_ensures(test, (&#[trigger] granted@[k], &keys@[k]), true),
            forall|belongs: spec_fn(D, K) -> bool| #[trigger]
                decides(test, belongs) ==> claims(items@, keys@.take(i as int), belongs) == Some(
                    Claims { granted: granted@, left: left@ },
                ),
    {
        let ghost before = left@;
        let key = &keys[i];
        let pred = |d: &D| -> (b: bool)
            requires
                call_requires(test, (d, key)),
            ensures
                call_ensures(test, (d, key), b),
            { test(d, key) };
        let mut found: Vec<D> = drain_where(&mut left, pred);
        let ghost verdicts = choose|verdicts: Seq<bool>| #[trigger]
            judged(pred, before, verdicts) && found@ == picked(before, verdicts, true) && left@
                == picked(before, verdicts, false);
        proof {
            assert(keys@.take(i + 1).drop_last() =~= keys@.take(i as int));
            assert(keys@.take(i + 1).last() == keys@[i as int]);
            assert forall|belongs: spec_fn(D, K) -> bool| #[trigger]
                decides(test, belongs) implies found@ == before.filter(
                |d: D| belongs(d, keys@[i as int]),
            ) && left@ == before.filter(|d: D| !belongs(d, keys@[i as int])) by {
                let p = |d: D| belongs(d, keys@[i as int]);
                assert forall|k: int| 0 <= k < before.len() implies #[trigger] verdicts[k] == p(
                    before[k],
                ) by {
                    assert(call_ensures(pred, (&before[k],), verdicts[k]));
                    assert(call_ensures(test, (&before[k], &keys@[i as int]), verdicts[k]));
                }
                lemma_picked_is_filter(before, verdicts, p);
                assert((|d: D| !p(d)) =~= (|d: D| !belongs(d, keys@[i as int])));
            }
            if found@.len() == 1 {
                lemma_picked_were_judged(pred, before, verdicts, true, 0);
            }
        }
        if found.len() != 1 {
            proof {
                assert forall|belongs: spec_fn(D, K) -> bool| #[trigger]
                    decides(test, belongs) implies claimed(items@, keys@, belongs) is None by {
                    assert(claims(items@, keys@.take(i + 1), belongs) is None);
                    lemma_claims_prefix(items@, keys@, belongs, i + 1);
                }
            }
            return None;
        }
        granted.push(found.pop().unwrap());
    }
    assert(keys@.take(keys@.len() as int) =~= keys@);
    Some(granted)
}

proof fn lemma_filter_one<T>(s: Seq<T>, p: spec_fn(T) -> bool)
    ensures
        s.filter(p).len() == 0 <==> forall|k: int| 0 <= k < s.len() ==> !p(#[trigger] s[k]),
        s.filter(p).len() == 1 ==> is_only(s, p, first_index(s, p)) && s.filter(p)[0] == s[first_index(
            s,
            p,
        )],
        forall|j: int| #[trigger] is_only(s, p, j) ==> s.filter(p).len() == 1,
    decreases s.len(),
{
    reveal(Seq::filter);
    if s.len() > 0 {
        let rest = s.drop_last();
        let n = s.len() - 1;
        lemma_filter_one(rest, p);
        assert forall|k: int| 0 <= k < rest.len() implies rest[k] == #[trigger] s[k] by {}
        if s.filter(p).len() == 0 {
            assert forall|k: int| 0 <= k < s.len() implies !p(#[trigger] s[k]) by {
                if k < n {
                    assert(!p(rest[k]));
                }
            }
        }
        if s.filter(p).len() == 1 {
            if p(s[n]) {
                assert(rest.filter(p).len() == 0);
                assert forall|k: int| 0 <= k < s.len() && p(#[trigger] s[k]) implies k == n by {
                    if k < n {
                        assert(!p(rest[k]));
                    }
                }
                assert(is_only(s, p, n));
            } else {
                let j = first_index(rest, p);
                assert(is_only(rest, p, j));
                assert forall|k: int| 0 <= k < s.len() && p(#[trigger] s[k]) implies k == j by {
                    assert(rest[k] == s[k]);
                }
                assert(is_only(s, p, j));
            }
            let j = first_index(s, p);
            assert(is_only(s, p, j));
            if p(s[n]) {
                assert(j == n);
            } else {
                assert(rest[first_index(rest, p)] == s[first_index(rest, p)]);
                assert(j == first_index(rest, p));
            }
        }
        assert forall|j: int| #[trigger] is_only(s, p, j) implies s.filter(p).len() == 1 by {
            if j == n {
                assert forall|k: int| 0 <= k < rest.len() implies !p(#[trigger] rest[k]) by {
                    assert(rest[k] == s[k]);
                }
            } else {
                assert(!p(s[n]));
                assert forall|k: int| 0 <= k < rest.len() && p(#[trigger] rest[k]) implies k == j by {
                    assert(rest[k] == s[k]);
                }
                assert(rest[j] == s[j]);
                assert(is_only(rest, p, j));
            }
        }
    }
}

/// The item at place `j` passes the test, and no other does.
spec fn is_only<T>(s: Seq<T>, p: spec_fn(T) -> bool, j: int) -> bool {
    &&& 0 <= j < s.len()
    &&& p(s[j])
    &&& forall|k: int| 0 <= k < s.len() && p(#[trigger] s[k]) ==> k == j
}

spec fn first_index<T>(s: Seq<T>, p: spec_fn(T) -> bool) -> int {
    choose|j: int| is_only(s, p, j)
}

/// The item at place `j` belongs to the key, and no other does.
pub open spec fn is_owned<D, K>(
    items: Seq<D>,
    key: K,
    belongs: spec_fn(D, K) -> bool,
    j: int,
) -> bool {
    &&& 0 <= j < items.len()
    &&& belongs(items[j], key)
    &&& forall|k: int| 0 <= k < items.len() && belongs(#[trigger] items[k], key) ==> k == j
}

/// Some item belongs to the key, and no other does.
pub open spec fn has_own_item<D, K>(items: Seq<D>, key: K, belongs: spec_fn(D, K) -> bool) -> bool {
    exists|j: int| #[trigger] is_owned(items, key, belongs, j)
}

/// A list has one item that belongs to a key exactly if some place holds such an item and no
/// other place does, and it is the item at that place.
pub proof fn law_one_item_belongs<D, K>(items: Seq<D>, key: K, belongs: spec_fn(D, K) -> bool)
    ensures
        items_of(items, key, belongs).len() == 1 <==> exists|j: int| #[trigger]
            is_owned(items, key, belongs, j),
        forall|j: int| #[trigger]
            is_owned(items, key, belongs, j) ==> items_of(items, key, belongs)[0] == items[j],
{
    let p = |d: D| belongs(d, key);
    lemma_filter_one(items, p);
    assert forall|j: int| #[trigger] is_only(items, p, j) implies is_owned(
        items,
        key,
        belongs,
        j,
    ) by {
        assert forall|k: int|
            0 <= k < items.len() && belongs(#[trigger] items[k], key) implies k == j by {
            assert(p(items[k]));
        }
    }
    let f = first_index(items, p);
    if items_of(items, key, belongs).len() == 1 {
        assert(is_only(items, p, f));
    }
    if exists|j: int| #[trigger] is_owned(items, key, belongs, j) {
        let j = choose|j: int| #[trigger] is_owned(items, key, belongs, j);
        assert(is_only(items, p, j));
    }
    assert forall|j: int| #[trigger]
        is_owned(items, key, belongs, j) implies items_of(items, key, belongs)[0] == items[j] by {
        assert(is_only(items, p, j));
        assert(j == f);
    }
}

/// Whatever the keys, what a key gets is one of the items and belongs to it, and there is one
/// for every key.
pub proof fn law_granted_items_belong<D, K>(
    items: Seq<D>,
    keys: Seq<K>,
    belongs: spec_fn(D, K) -> bool,
)
    requires
        claimed(items, keys, belongs) is Some,
    ensures
        claimed(items, keys, belongs)->0.len() == keys.len(),
        forall|i: int|
            0 <= i < keys.len() ==> belongs(
                #[trigger] claimed(items, keys, belongs)->0[i],
                keys[i],
            ) && items.contains(claimed(items, keys, belongs)->0[i]),
{
    lemma_granted_items_belong(items, keys, belongs);
}

proof fn lemma_granted_items_belong<D, K>(
    items: Seq<D>,
    keys: Seq<K>,
    belongs: spec_fn(D, K) -> bool,
)
    requires
        claims(items, keys, belongs) is Some,
    ensures
        ({
            let c = claims(items, keys, belongs)->0;
            &&& c.granted.len() == keys.len()
            &&& forall|i: int|
                0 <= i < keys.len() ==> belongs(#[trigger] c.granted[i], keys[i])
                    && items.contains(c.granted[i])
            &&& forall|d: D| #[trigger] c.left.contains(d) ==> items.contains(d)
        }),
    decreases keys.len(),
{
    if keys.len() > 0 {
        lemma_granted_items_belong(items, keys.drop_last(), belongs);
        let before = claims(items, keys.drop_last(), belongs)->0;
        let c = claims(items, keys, belongs)->0;
        let n = keys.len() - 1;
        let p = |d: D| belongs(d, keys.last());
        let q = |d: D| !belongs(d, keys.last());
        let found = before.left.filter(p);
        lemma_filter_holds(before.left, p, 0);
        assert(before.left.contains(found[0]));
        assert forall|i: int| 0 <= i < keys.len() implies belongs(#[trigger] c.granted[i], keys[i])
            && items.contains(c.granted[i]) by {
            if i < n {
                assert(c.granted[i] == before.granted[i]);
                assert(keys.drop_last()[i] == keys[i]);
            }
        }
        assert forall|d: D| #[trigger] c.left.contains(d) implies items.contains(d) by {
            let i = choose|i: int| 0 <= i < c.left.len() && c.left[i] == d;
            lemma_filter_holds(before.left, q, i);
            assert(before.left.contains(d));
        }
    }
}

proof fn lemma_filter_holds<T>(s: Seq<T>, p: spec_fn(T) -> bool, i: int)
    requires
        0 <= i < s.filter(p).len(),
    ensures
        p(s.filter(p)[i]),
        s.contains(s.filter(p)[i]),
    decreases s.len(),
{
    reveal(Seq::filter);
    if s.len() > 0 {
        let rest = s.drop_last();
        if i < rest.filter(p).len() {
            lemma_filter_holds(rest, p, i);
            let k = choose|k: int| 0 <= k < rest.len() && rest[k] == rest.filter(p)[i];
            assert(s[k] == s.filter(p)[i]);
        } else {
            assert(s[s.len() - 1] == s.filter(p)[i]);
        }
    }
}

} // verus!
