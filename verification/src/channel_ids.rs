//! Which number a channel gets.
//!
//! Both peers number the channels they agreed on by the same rule, so that a channel
//! has one number on either side without a word being exchanged about it.
use std::collections::HashSet;
use vstd::prelude::*;

verus! {

/// The outcome of numbering: a number per channel, and all numbers in use.
#[verifier::ext_equal]
pub struct IdPlan {
    pub ids: Seq<u16>,
    pub used: Set<u16>,
}

/// Whether two channels ask for the same number.
pub open spec fn has_duplicate(wanted: Seq<Option<u16>>) -> bool {
    exists|i: int, j: int|
        0 <= i < j < wanted.len() && #[trigger] wanted[i] is Some && wanted[i]
            == #[trigger] wanted[j]
}

/// The numbers that are asked for.
pub open spec fn wanted_ids(wanted: Seq<Option<u16>>) -> Set<u16>
    decreases wanted.len(),
{
    if wanted.len() == 0 {
        Set::empty()
    } else {
        match wanted.last() {
            Some(id) => wanted_ids(wanted.drop_last()).insert(id),
            None => wanted_ids(wanted.drop_last()),
        }
    }
}

/// The smallest number from `from` on that is not in use.
pub open spec fn free_from(used: Set<u16>, from: int) -> Option<u16>
    decreases u16::MAX + 1 - from,
{
    if from > u16::MAX {
        None
    } else if !used.contains(from as u16) {
        Some(from as u16)
    } else {
        free_from(used, from + 1)
    }
}

/// Numbers the channels in order, where `used` holds the numbers that are taken. A
/// channel that asks for a number gets it; any other gets the first free one, counted
/// from how many are in use. `None` if that search runs out of numbers.
pub open spec fn plan(wanted: Seq<Option<u16>>, used: Set<u16>) -> Option<IdPlan>
    decreases wanted.len(),
{
    if wanted.len() == 0 {
        Some(IdPlan { ids: Seq::empty(), used })
    } else {
        match plan(wanted.drop_last(), used) {
            None => None,
            Some(p) => match wanted.last() {
                Some(id) => Some(IdPlan { ids: p.ids.push(id), used: p.used }),
                None => match free_from(p.used, p.used.len() as int) {
                    Some(id) => Some(IdPlan { ids: p.ids.push(id), used: p.used.insert(id) }),
                    None => None,
                },
            },
        }
    }
}

/// The numbers of all channels.
pub open spec fn assigned(wanted: Seq<Option<u16>>) -> Option<Seq<u16>> {
    match plan(wanted, wanted_ids(wanted)) {
        Some(p) => Some(p.ids),
        None => None,
    }
}

/// What `free_from` finds is free, and nothing below it is.
pub proof fn lemma_free_from(used: Set<u16>, from: int)
    requires
        0 <= from,
    ensures
        match free_from(used, from) {
            Some(id) => {
                &&& from <= id
                &&& !used.contains(id)
                &&& forall|k: u16| from <= k < id ==> used.contains(k)
            },
            None => forall|k: u16| from <= k ==> used.contains(k),
        },
    decreases u16::MAX + 1 - from,
{
    if from <= u16::MAX && used.contains(from as u16) {
        lemma_free_from(used, from + 1);
        assert forall|k: u16| from <= k && k < from + 1 implies used.contains(k) by {
            assert(k == from as u16);
        }
    }
}

/// The search may start at any number below which everything is in use.
pub proof fn lemma_free_from_skips(used: Set<u16>, from: int, to: int)
    requires
        0 <= from <= to <= u16::MAX + 1,
        forall|k: u16| from <= k < to ==> used.contains(k),
    ensures
        free_from(used, from) == free_from(used, to),
    decreases to - from,
{
    if from < to {
        assert(used.contains(from as u16));
        lemma_free_from_skips(used, from + 1, to);
    }
}

/// `wanted_ids` holds exactly what is asked for.
pub proof fn lemma_wanted_ids(wanted: Seq<Option<u16>>)
    ensures
        wanted_ids(wanted).finite(),
        wanted_ids(wanted).len() <= wanted.len(),
        forall|id: u16| #[trigger]
            wanted_ids(wanted).contains(id) <==> exists|i: int|
                0 <= i < wanted.len() && #[trigger] wanted[i] == Some(id),
    decreases wanted.len(),
{
    if wanted.len() > 0 {
        let rest = wanted.drop_last();
        lemma_wanted_ids(rest);
        assert forall|id: u16| #[trigger] wanted_ids(wanted).contains(id) implies exists|i: int|
            0 <= i < wanted.len() && #[trigger] wanted[i] == Some(id) by {
            if wanted.last() == Some(id) {
                assert(wanted[wanted.len() - 1] == Some(id));
            } else {
                assert(wanted_ids(rest).contains(id));
                let i = choose|i: int| 0 <= i < rest.len() && #[trigger] rest[i] == Some(id);
                assert(wanted[i] == Some(id));
            }
        }
        assert forall|id: u16, i: int|
            0 <= i < wanted.len() && #[trigger] wanted[i] == Some(id) implies #[trigger] wanted_ids(
            wanted,
        ).contains(id) by {
            if i < rest.len() {
                assert(rest[i] == Some(id));
                assert(wanted_ids(rest).contains(id));
            }
        }
    }
}

/// A plan for all channels begins with a plan for the first ones.
pub proof fn lemma_plan_prefix(wanted: Seq<Option<u16>>, used: Set<u16>, n: int)
    requires
        0 <= n <= wanted.len(),
        plan(wanted, used) is Some,
    ensures
        plan(wanted.take(n), used) is Some,
        plan(wanted.take(n), used)->0.ids == plan(wanted, used)->0.ids.take(n),
        plan(wanted, used)->0.ids.len() == wanted.len(),
    decreases wanted.len(),
{
    if wanted.len() == 0 {
        assert(wanted.take(n) =~= wanted);
    } else {
        let rest = wanted.drop_last();
        if n < wanted.len() {
            lemma_plan_prefix(rest, used, n);
            assert(rest.take(n) =~= wanted.take(n));
            assert(plan(wanted, used)->0.ids.take(n) =~= plan(rest, used)->0.ids.take(n));
        } else {
            lemma_plan_prefix(rest, used, rest.len() as int);
            assert(wanted.take(n) =~= wanted);
            assert(plan(wanted, used)->0.ids.take(n) =~= plan(wanted, used)->0.ids);
        }
    }
}

/// What every plan keeps: numbers in use stay in use, wanted numbers are given, and what
/// is given beside them was free when it was given.
proof fn lemma_plan(wanted: Seq<Option<u16>>, used: Set<u16>)
    requires
        used.finite(),
        plan(wanted, used) is Some,
        forall|i: int| 0 <= i < wanted.len() && (#[trigger] wanted[i]) is Some ==> used.contains(
            wanted[i]->0,
        ),
    ensures
        ({
            let p = plan(wanted, used)->0;
            &&& p.ids.len() == wanted.len()
            &&& p.used.finite()
            &&& used.subset_of(p.used)
            &&& p.used.len() <= used.len() + wanted.len()
            &&& forall|i: int| 0 <= i < wanted.len() ==> p.used.contains(#[trigger] p.ids[i])
            &&& forall|i: int|
                0 <= i < wanted.len() ==> match #[trigger] wanted[i] {
                    Some(id) => p.ids[i] == id,
                    None => !used.contains(p.ids[i]),
                }
            &&& forall|i: int, j: int|
                0 <= i < j < wanted.len() && (wanted[i] is None || wanted[j] is None)
                    ==> #[trigger] p.ids[i] != #[trigger] p.ids[j]
        }),
    decreases wanted.len(),
{
    if wanted.len() > 0 {
        let rest = wanted.drop_last();
        assert forall|i: int|
            0 <= i < rest.len() && (#[trigger] rest[i]) is Some implies used.contains(
            rest[i]->0,
        ) by {
            assert(rest[i] == wanted[i]);
        }
        lemma_plan(rest, used);
        let q = plan(rest, used)->0;
        let p = plan(wanted, used)->0;
        let last = wanted.len() - 1;
        lemma_free_from(q.used, q.used.len() as int);
        assert forall|i: int| 0 <= i < wanted.len() implies match #[trigger] wanted[i] {
            Some(id) => p.ids[i] == id,
            None => !used.contains(p.ids[i]),
        } by {
            if i < last {
                assert(rest[i] == wanted[i]);
            }
        }
        assert forall|i: int, j: int|
            0 <= i < j < wanted.len() && (wanted[i] is None || wanted[j] is None) implies #[trigger] p.ids[i]
            != #[trigger] p.ids[j] by {
            assert(rest[i] == wanted[i]);
            if j < last {
                assert(rest[j] == wanted[j]);
                assert(q.ids[i] != q.ids[j]);
            } else {
                assert(q.used.contains(q.ids[i]));
                if wanted[last] is Some {
                    assert(used.contains(wanted[last]->0));
                    assert(rest[i] is None);
                    assert(!used.contains(q.ids[i]));
                }
            }
        }
    }
}

/// No two channels share a number.
pub proof fn law_ids_are_distinct(wanted: Seq<Option<u16>>, i: int, j: int)
    requires
        !has_duplicate(wanted),
        assigned(wanted) is Some,
        0 <= i < wanted.len(),
        0 <= j < wanted.len(),
        i != j,
    ensures
        assigned(wanted)->0.len() == wanted.len(),
        assigned(wanted)->0[i] != assigned(wanted)->0[j],
{
    lemma_wanted_ids(wanted);
    lemma_plan(wanted, wanted_ids(wanted));
    let (a, b) = if i < j { (i, j) } else { (j, i) };
    let ids = assigned(wanted)->0;
    if wanted[a] is Some && wanted[b] is Some {
        assert(wanted[a] != wanted[b]);
    } else {
        assert(ids[a] != ids[b]);
    }
}

/// A channel that asks for a number has that number.
pub proof fn law_wanted_id_is_kept(wanted: Seq<Option<u16>>, i: int)
    requires
        assigned(wanted) is Some,
        0 <= i < wanted.len(),
        wanted[i] is Some,
    ensures
        assigned(wanted)->0.len() == wanted.len(),
        assigned(wanted)->0[i] == wanted[i]->0,
{
    lemma_wanted_ids(wanted);
    lemma_plan(wanted, wanted_ids(wanted));
    assert(wanted[i] is Some);
}

/// Channels of which none asks for a number are counted from zero.
pub proof fn law_unnumbered_channels_are_counted(wanted: Seq<Option<u16>>, i: int)
    requires
        forall|k: int| 0 <= k < wanted.len() ==> (#[trigger] wanted[k]) is None,
        0 <= i < wanted.len() <= u16::MAX + 1,
    ensures
        assigned(wanted) is Some,
        assigned(wanted)->0.len() == wanted.len(),
        assigned(wanted)->0[i] == i,
{
    lemma_nothing_wanted(wanted);
    lemma_counted(wanted);
}

proof fn lemma_nothing_wanted(wanted: Seq<Option<u16>>)
    requires
        forall|k: int| 0 <= k < wanted.len() ==> (#[trigger] wanted[k]) is None,
    ensures
        wanted_ids(wanted) == Set::<u16>::empty(),
    decreases wanted.len(),
{
    if wanted.len() > 0 {
        lemma_nothing_wanted(wanted.drop_last());
    }
}

proof fn lemma_counted(wanted: Seq<Option<u16>>)
    requires
        forall|k: int| 0 <= k < wanted.len() ==> (#[trigger] wanted[k]) is None,
        wanted.len() <= u16::MAX + 1,
    ensures
        ({
            let p = plan(wanted, Set::empty());
            &&& p is Some
            &&& p->0.ids.len() == wanted.len()
            &&& p->0.used.finite()
            &&& p->0.used.len() == wanted.len()
            &&& forall|k: int| 0 <= k < wanted.len() ==> #[trigger] p->0.ids[k] == k
            &&& forall|k: u16| #[trigger] p->0.used.contains(k) <==> k < wanted.len()
        }),
    decreases wanted.len(),
{
    if wanted.len() > 0 {
        lemma_counted(wanted.drop_last());
        let q = plan(wanted.drop_last(), Set::empty())->0;
        lemma_free_from(q.used, q.used.len() as int);
    }
}

/// Half of all numbers always suffice: up to 32768 channels can be numbered, whatever
/// they ask for.
pub proof fn law_few_channels_can_be_numbered(wanted: Seq<Option<u16>>)
    requires
        wanted.len() <= 32768,
    ensures
        assigned(wanted) is Some,
{
    lemma_wanted_count(wanted);
    lemma_enough(wanted, wanted_ids(wanted), wanted.len());
}

/// The channels that ask for no number.
spec fn open_count(wanted: Seq<Option<u16>>) -> nat
    decreases wanted.len(),
{
    if wanted.len() == 0 {
        0
    } else {
        open_count(wanted.drop_last()) + (if wanted.last() is None {
            1nat
        } else {
            0nat
        })
    }
}

proof fn lemma_wanted_count(wanted: Seq<Option<u16>>)
    ensures
        wanted_ids(wanted).finite(),
        wanted_ids(wanted).len() + open_count(wanted) <= wanted.len(),
    decreases wanted.len(),
{
    if wanted.len() > 0 {
        lemma_wanted_count(wanted.drop_last());
    }
}

proof fn lemma_enough(wanted: Seq<Option<u16>>, used: Set<u16>, total: nat)
    requires
        used.finite(),
        total <= 32768,
        used.len() + open_count(wanted) <= total,
    ensures
        plan(wanted, used) is Some,
        plan(wanted, used)->0.used.finite(),
        plan(wanted, used)->0.used.len() <= used.len() + open_count(wanted),
    decreases wanted.len(),
{
    if wanted.len() > 0 {
        lemma_enough(wanted.drop_last(), used, total);
        let q = plan(wanted.drop_last(), used)->0;
        if wanted.last() is None {
            lemma_room(q.used);
        }
    }
}

proof fn lemma_room(used: Set<u16>)
    requires
        used.finite(),
        used.len() < 32768,
    ensures
        free_from(used, used.len() as int) is Some,
{
    lemma_free_from(used, used.len() as int);
    if free_from(used, used.len() as int) is None {
        let lo = used.len() as u16;
        let taken = Set::<u16>::range(lo, u16::MAX);
        vstd::set_lib::range_set_properties::<u16>(lo, u16::MAX);
        assert(taken.subset_of(used));
        vstd::set_lib::lemma_len_subset(taken, used);
    }
}

/// The first free number, counted from how many are in use.
pub fn free_id(used: &HashSet<u16>) -> (r: Option<u16>)
    ensures
        r == free_from(used@, used@.len() as int),
{
    broadcast use vstd::std_specs::hash::group_hash_axioms;

    let count: usize = used.len();
    if count > 65535 {
        return None;
    }
    let mut id: u16 = count as u16;
    while used.contains(&id)
        invariant
            used@.len() <= id,
            forall|k: u16| used@.len() <= k < id ==> used@.contains(k),
        decreases u16::MAX - id,
    {
        if id == u16::MAX {
            proof {
                lemma_free_from_skips(used@, used@.len() as int, id as int + 1);
            }
            return None;
        }
        id = id + 1;
    }
    proof {
        lemma_free_from_skips(used@, used@.len() as int, id as int);
    }
    Some(id)
}

/// The numbers in use when channel `n` is numbered: all that are asked for, and those that
/// channels before it were given.
pub open spec fn in_use(wanted: Seq<Option<u16>>, ids: Seq<u16>, n: int) -> Set<u16> {
    Set::new(
        |k: u16|
            (exists|j: int| 0 <= j < wanted.len() && #[trigger] wanted[j] == Some(k)) || (exists|
                j: int,
            |
                0 <= j < n && wanted[j] is None && #[trigger] ids[j] == k),
    )
}

/// The number is free, and between it and how many are in use there is no free one.
pub open spec fn is_first_free(id: u16, used: Set<u16>) -> bool {
    &&& used.finite()
    &&& used.len() <= id
    &&& !used.contains(id)
    &&& forall|k: u16| used.len() <= k < id ==> #[trigger] used.contains(k)
}

/// The first `n` channels have the number they ask for, or the first free one.
pub open spec fn numbers(wanted: Seq<Option<u16>>, ids: Seq<u16>, n: int) -> bool {
    forall|i: int|
        0 <= i < n ==> match #[trigger] wanted[i] {
            Some(id) => ids[i] == id,
            None => is_first_free(ids[i], in_use(wanted, ids, i)),
        }
}

/// The numbers in use after a plan are those in use before and those that it gave.
proof fn lemma_plan_uses(wanted: Seq<Option<u16>>, used: Set<u16>)
    requires
        used.finite(),
        plan(wanted, used) is Some,
    ensures
        ({
            let p = plan(wanted, used)->0;
            &&& p.used.finite()
            &&& p.ids.len() == wanted.len()
            &&& forall|k: u16| #[trigger]
                p.used.contains(k) <==> used.contains(k) || exists|j: int|
                    0 <= j < wanted.len() && wanted[j] is None && #[trigger] p.ids[j] == k
        }),
    decreases wanted.len(),
{
    if wanted.len() > 0 {
        let rest = wanted.drop_last();
        lemma_plan_uses(rest, used);
        let q = plan(rest, used)->0;
        let p = plan(wanted, used)->0;
        let last = wanted.len() - 1;
        assert forall|k: u16| #[trigger] p.used.contains(k) implies used.contains(k) || exists|
            j: int,
        |
            0 <= j < wanted.len() && wanted[j] is None && #[trigger] p.ids[j] == k by {
            if q.used.contains(k) {
                if !used.contains(k) {
                    let j = choose|j: int|
                        0 <= j < rest.len() && rest[j] is None && #[trigger] q.ids[j] == k;
                    assert(wanted[j] is None && p.ids[j] == k);
                }
            } else {
                assert(wanted[last] is None && p.ids[last] == k);
            }
        }
        assert forall|k: u16|
            used.contains(k) || (exists|j: int|
                0 <= j < wanted.len() && wanted[j] is None && #[trigger] p.ids[j]
                    == k) implies #[trigger] p.used.contains(k) by {
            if !used.contains(k) {
                let j = choose|j: int|
                    0 <= j < wanted.len() && wanted[j] is None && #[trigger] p.ids[j] == k;
                if j < last {
                    assert(rest[j] is None && q.ids[j] == k);
                    assert(q.used.contains(k));
                }
            }
        }
    }
}

/// What is in use after the first `n` channels, by the plan and by the numbers.
proof fn lemma_in_use(wanted: Seq<Option<u16>>, ids: Seq<u16>, n: int)
    requires
        0 <= n <= wanted.len(),
        n <= ids.len(),
        plan(wanted.take(n), wanted_ids(wanted)) is Some,
        plan(wanted.take(n), wanted_ids(wanted))->0.ids == ids.take(n),
    ensures
        plan(wanted.take(n), wanted_ids(wanted))->0.used == in_use(wanted, ids, n),
        in_use(wanted, ids, n).finite(),
{
    lemma_wanted_ids(wanted);
    lemma_plan_uses(wanted.take(n), wanted_ids(wanted));
    let p = plan(wanted.take(n), wanted_ids(wanted))->0;
    let used = in_use(wanted, ids, n);
    assert forall|k: u16| p.used.contains(k) implies used.contains(k) by {
        if !wanted_ids(wanted).contains(k) {
            let j = choose|j: int|
                0 <= j < n && wanted.take(n)[j] is None && #[trigger] p.ids[j] == k;
            assert(wanted[j] is None && ids[j] == k);
        }
    }
    assert forall|k: u16| used.contains(k) implies p.used.contains(k) by {
        if !(exists|j: int| 0 <= j < wanted.len() && #[trigger] wanted[j] == Some(k)) {
            let j = choose|j: int| 0 <= j < n && wanted[j] is None && #[trigger] ids[j] == k;
            assert(wanted.take(n)[j] is None && p.ids[j] == k);
        } else {
            assert(wanted_ids(wanted).contains(k));
        }
    }
    assert(p.used =~= used);
}

proof fn lemma_numbers(wanted: Seq<Option<u16>>, ids: Seq<u16>, n: int)
    requires
        0 <= n <= wanted.len(),
        n <= ids.len(),
        plan(wanted.take(n), wanted_ids(wanted)) is Some,
        plan(wanted.take(n), wanted_ids(wanted))->0.ids == ids.take(n),
    ensures
        numbers(wanted, ids, n),
    decreases n,
{
    let start = wanted_ids(wanted);
    if n > 0 {
        let m = n - 1;
        lemma_plan_prefix(wanted.take(n), start, m);
        assert(wanted.take(n).take(m) =~= wanted.take(m));
        assert(ids.take(n).take(m) =~= ids.take(m));
        lemma_numbers(wanted, ids, m);
        assert(wanted.take(n).drop_last() =~= wanted.take(m));
        assert(wanted.take(n).last() == wanted[m]);
        let q = plan(wanted.take(m), start)->0;
        let p = plan(wanted.take(n), start)->0;
        assert(p.ids[m] == ids[m]);
        lemma_in_use(wanted, ids, m);
        assert(q.ids.len() == m);
        if wanted[m] is None {
            lemma_free_from(q.used, q.used.len() as int);
            assert(is_first_free(ids[m], in_use(wanted, ids, m)));
        }
    }
}

/// Every channel that asks for a number has it, and every other has the first number that is
/// not below how many are in use at its turn and is not in use itself.
pub proof fn law_open_channels_get_the_first_free_number(wanted: Seq<Option<u16>>)
    requires
        assigned(wanted) is Some,
    ensures
        assigned(wanted)->0.len() == wanted.len(),
        numbers(wanted, assigned(wanted)->0, wanted.len() as int),
{
    let n = wanted.len() as int;
    let ids = assigned(wanted)->0;
    assert(wanted.take(n) =~= wanted);
    lemma_wanted_ids(wanted);
    lemma_plan_uses(wanted, wanted_ids(wanted));
    assert(ids.take(n) =~= ids);
    lemma_numbers(wanted, ids, n);
}

/// Numbering fails only where it must: the channels before some channel can be numbered, and
/// at its turn no number is free from how many are in use on.
pub proof fn law_numbering_fails_only_when_none_is_free(wanted: Seq<Option<u16>>)
    requires
        assigned(wanted) is None,
    ensures
        exists|n: int, ids: Seq<u16>|
            0 <= n < wanted.len() && ids.len() == n && wanted[n] is None && #[trigger] numbers(
                wanted,
                ids,
                n,
            ) && forall|k: u16|
                in_use(wanted, ids, n).len() <= k ==> #[trigger] in_use(wanted, ids, n).contains(k),
{
    let start = wanted_ids(wanted);
    assert(wanted.take(wanted.len() as int) =~= wanted);
    let n = lemma_first_failure(wanted, start, wanted.len() as int);
    let q = plan(wanted.take(n), start)->0;
    let ids = q.ids;
    lemma_wanted_ids(wanted);
    lemma_plan_uses(wanted.take(n), start);
    assert(ids.take(n) =~= ids);
    lemma_numbers(wanted, ids, n);
    lemma_in_use(wanted, ids, n);
    lemma_free_from(q.used, q.used.len() as int);
}

/// The channel at which a plan fails.
proof fn lemma_first_failure(wanted: Seq<Option<u16>>, used: Set<u16>, m: int) -> (n: int)
    requires
        0 <= m <= wanted.len(),
        plan(wanted.take(m), used) is None,
    ensures
        0 <= n < wanted.len(),
        wanted[n] is None,
        plan(wanted.take(n), used) is Some,
        free_from(
            plan(wanted.take(n), used)->0.used,
            plan(wanted.take(n), used)->0.used.len() as int,
        ) is None,
    decreases m,
{
    assert(m > 0);
    assert(wanted.take(m).drop_last() =~= wanted.take(m - 1));
    assert(wanted.take(m).last() == wanted[m - 1]);
    if plan(wanted.take(m - 1), used) is None {
        lemma_first_failure(wanted, used, m - 1)
    } else {
        m - 1
    }
}

/// A request is refused for a number that is asked for twice, and for nothing else: where all
/// numbers that are asked for differ, there is no duplicate, and where two are the same, there
/// is one, wherever they stand.
pub proof fn law_only_equal_numbers_are_duplicates(wanted: Seq<Option<u16>>)
    ensures
        (forall|i: int, j: int|
            0 <= i < wanted.len() && 0 <= j < wanted.len() && i != j && (#[trigger] wanted[i])
                is Some ==> wanted[i] != #[trigger] wanted[j]) <==> !has_duplicate(wanted),
{
    if !has_duplicate(wanted) {
        assert forall|i: int, j: int|
            0 <= i < wanted.len() && 0 <= j < wanted.len() && i != j && (#[trigger] wanted[i])
                is Some implies wanted[i] != #[trigger] wanted[j] by {
            if wanted[i] == wanted[j] {
                let (a, b) = if i < j { (i, j) } else { (j, i) };
                assert(wanted[a] is Some && wanted[a] == wanted[b]);
            }
        }
    }
}

/// The number that is found is free, and between it and how many are in use there is no free
/// one; none is found only where there is none.
pub proof fn law_first_free_number_is_found(used: HashSet<u16>, r: Option<u16>)
    requires
        call_ensures(free_id, (&used,), r),
        used@.finite(),
    ensures
        r matches Some(id) ==> is_first_free(id, used@),
        r is None ==> forall|k: u16| used@.len() <= k ==> #[trigger] used@.contains(k),
{
    lemma_free_from(used@, used@.len() as int);
}

} // verus!
