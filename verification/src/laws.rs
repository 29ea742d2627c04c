use vstd::prelude::*;
use vstd::relations::sorted_by;
use vstd::seq_lib::group_to_multiset_ensures;

use crate::cli::Weight;
use crate::repo::{
    has_name, insert_sorted, item_leq, keep_fn, lemma_filter_push, sort_spec,
    spec_completed_item, spec_edited_item, spec_list, Item,
};

verus! {

/// The list order as a function, for use with `sorted_by`.
pub open spec fn item_leq_fn(by_deadline: bool, by_weight: bool) -> spec_fn(Item, Item) -> bool {
    |a: Item, b: Item| item_leq(by_deadline, by_weight, a, b)
}

/// Keeping only the tasks of one weight, as a function.
pub open spec fn weight_fn(w: Weight) -> spec_fn(Item) -> bool {
    |t: Item| t.weight == w
}

/// Keeping only the tasks of one name, as a function.
pub open spec fn name_fn(n: Seq<char>) -> spec_fn(Item) -> bool {
    |t: Item| t.name@ == n
}

/// The list order relates every two tasks, both ways round or at least one.
proof fn lemma_item_leq_props(by_deadline: bool, by_weight: bool)
    ensures
        forall|a: Item, b: Item|
            #[trigger] item_leq(by_deadline, by_weight, a, b) || item_leq(
                by_deadline,
                by_weight,
                b,
                a,
            ),
        forall|a: Item, b: Item, c: Item|
            #![trigger item_leq(by_deadline, by_weight, a, b), item_leq(by_deadline, by_weight, b, c)]
            item_leq(by_deadline, by_weight, a, b) && item_leq(by_deadline, by_weight, b, c)
                ==> item_leq(by_deadline, by_weight, a, c),
{
}

/// Filtering an empty sequence gives an empty sequence.
proof fn lemma_filter_empty(p: spec_fn(Item) -> bool)
    ensures
        Seq::<Item>::empty().filter(p) == Seq::<Item>::empty(),
{
    reveal(Seq::filter);
}

/// Every task in a filtered sequence occurs in the sequence it came from.
proof fn lemma_filter_subset(s: Seq<Item>, p: spec_fn(Item) -> bool)
    ensures
        forall|k: int|
            0 <= k < s.filter(p).len() ==> s.contains(#[trigger] s.filter(p)[k]),
    decreases s.len(),
{
    reveal(Seq::filter);
    if s.len() != 0 {
        let dl = s.drop_last();
        lemma_filter_subset(dl, p);
        assert forall|k: int| 0 <= k < s.filter(p).len() implies s.contains(
            #[trigger] s.filter(p)[k],
        ) by {
            if p(s.last()) {
                assert(s.filter(p) == dl.filter(p).push(s.last()));
                if k < s.filter(p).len() - 1 {
                    assert(dl.contains(dl.filter(p)[k]));
                    let m = choose|m: int| 0 <= m < dl.len() && dl[m] == dl.filter(p)[k];
                    assert(s[m] == s.filter(p)[k]);
                } else {
                    assert(s[s.len() - 1] == s.filter(p)[k]);
                }
            } else {
                assert(s.filter(p) == dl.filter(p));
                assert(dl.contains(dl.filter(p)[k]));
                let m = choose|m: int| 0 <= m < dl.len() && dl[m] == dl.filter(p)[k];
                assert(s[m] == s.filter(p)[k]);
            }
        }
    }
}

/// A filter that keeps everything returns the sequence itself.
proof fn lemma_filter_all(s: Seq<Item>, p: spec_fn(Item) -> bool)
    requires
        forall|i: int| 0 <= i < s.len() ==> p(#[trigger] s[i]),
    ensures
        s.filter(p) == s,
    decreases s.len(),
{
    reveal(Seq::filter);
    if s.len() == 0 {
        assert(s.filter(p) =~= s);
    } else {
        assert(forall|i: int|
            0 <= i < s.drop_last().len() ==> p(#[trigger] s.drop_last()[i]));
        lemma_filter_all(s.drop_last(), p);
        assert(s.filter(p) =~= s);
    }
}

/// A filter that keeps nothing returns the empty sequence.
proof fn lemma_filter_nothing(s: Seq<Item>, p: spec_fn(Item) -> bool)
    requires
        forall|i: int| 0 <= i < s.len() ==> !p(#[trigger] s[i]),
    ensures
        s.filter(p) == Seq::<Item>::empty(),
    decreases s.len(),
{
    reveal(Seq::filter);
    if s.len() != 0 {
        assert(forall|i: int|
            0 <= i < s.drop_last().len() ==> !p(#[trigger] s.drop_last()[i]));
        lemma_filter_nothing(s.drop_last(), p);
    }
}

/// Two filters in a row act as one filter by the joint condition.
proof fn lemma_filter_compose(
    s: Seq<Item>,
    p: spec_fn(Item) -> bool,
    q: spec_fn(Item) -> bool,
    pq: spec_fn(Item) -> bool,
)
    requires
        forall|t: Item| #[trigger] pq(t) == (p(t) && q(t)),
    ensures
        s.filter(p).filter(q) == s.filter(pq),
    decreases s.len(),
{
    if s.len() == 0 {
        lemma_filter_empty(p);
        lemma_filter_empty(q);
        lemma_filter_empty(pq);
    } else {
        let dl = s.drop_last();
        let x = s.last();
        lemma_filter_compose(dl, p, q, pq);
        assert(s =~= dl.push(x));
        lemma_filter_push(dl, x, p);
        lemma_filter_push(dl, x, pq);
        if p(x) {
            lemma_filter_push(dl.filter(p), x, q);
        }
    }
}

/// Placing a task into a sequence only rearranges: the contents grow by
/// exactly that task.
proof fn lemma_insert_sorted_multiset(s: Seq<Item>, x: Item, by_deadline: bool, by_weight: bool)
    ensures
        insert_sorted(s, x, by_deadline, by_weight).to_multiset() == s.to_multiset().insert(x),
    decreases s.len(),
{
    broadcast use group_to_multiset_ensures;

    if s.len() == 0 {
        assert(seq![x] =~= Seq::<Item>::empty().push(x));
        assert(s =~= Seq::<Item>::empty());
    } else if item_leq(by_deadline, by_weight, s.last(), x) {
    } else {
        lemma_insert_sorted_multiset(s.drop_last(), x, by_deadline, by_weight);
        assert(s =~= s.drop_last().push(s.last()));
        assert(s.drop_last().to_multiset().insert(x).insert(s.last())
            =~= s.drop_last().to_multiset().insert(s.last()).insert(x));
    }
}

/// Sorting only rearranges: the contents stay the same.
pub proof fn lemma_sort_spec_multiset(s: Seq<Item>, by_deadline: bool, by_weight: bool)
    ensures
        sort_spec(s, by_deadline, by_weight).to_multiset() == s.to_multiset(),
    decreases s.len(),
{
    broadcast use group_to_multiset_ensures;

    if s.len() != 0 {
        lemma_sort_spec_multiset(s.drop_last(), by_deadline, by_weight);
        lemma_insert_sorted_multiset(
            sort_spec(s.drop_last(), by_deadline, by_weight),
            s.last(),
            by_deadline,
            by_weight,
        );
        assert(s =~= s.drop_last().push(s.last()));
    }
}

/// Every task in a placed sequence is the placed task or one of the old.
proof fn lemma_insert_sorted_elems(s: Seq<Item>, x: Item, by_deadline: bool, by_weight: bool)
    ensures
        forall|k: int|
            0 <= k < insert_sorted(s, x, by_deadline, by_weight).len() ==> (#[trigger] insert_sorted(
                s,
                x,
                by_deadline,
                by_weight,
            )[k] == x || s.contains(insert_sorted(s, x, by_deadline, by_weight)[k])),
    decreases s.len(),
{
    if s.len() == 0 {
    } else if item_leq(by_deadline, by_weight, s.last(), x) {
    } else {
        lemma_insert_sorted_elems(s.drop_last(), x, by_deadline, by_weight);
        assert(forall|k: int|
            0 <= k < s.drop_last().len() ==> s.contains(#[trigger] s.drop_last()[k]));
    }
}

/// Placing a task into a sorted sequence keeps it sorted.
proof fn lemma_insert_sorted_sorted(s: Seq<Item>, x: Item, by_deadline: bool, by_weight: bool)
    requires
        sorted_by(s, item_leq_fn(by_deadline, by_weight)),
    ensures
        sorted_by(insert_sorted(s, x, by_deadline, by_weight), item_leq_fn(by_deadline, by_weight)),
    decreases s.len(),
{
    lemma_item_leq_props(by_deadline, by_weight);
    let leq = item_leq_fn(by_deadline, by_weight);
    if s.len() == 0 {
    } else if item_leq(by_deadline, by_weight, s.last(), x) {
        let r = s.push(x);
        assert forall|i: int, j: int| 0 <= i < j < r.len() implies leq(r[i], r[j]) by {
            if j == r.len() - 1 {
                if i < s.len() - 1 {
                    assert(leq(s[i], s[s.len() - 1]));
                }
            }
        }
    } else {
        let dl = s.drop_last();
        assert(sorted_by(dl, leq));
        lemma_insert_sorted_sorted(dl, x, by_deadline, by_weight);
        lemma_insert_sorted_elems(dl, x, by_deadline, by_weight);
        let inner = insert_sorted(dl, x, by_deadline, by_weight);
        assert forall|k: int| 0 <= k < inner.len() implies leq(inner[k], s.last()) by {
            if inner[k] == x {
                assert(item_leq(by_deadline, by_weight, x, s.last()));
            } else {
                let e = inner[k];
                assert(dl.contains(e));
                let m = choose|m: int| 0 <= m < dl.len() && dl[m] == e;
                assert(leq(s[m], s[s.len() - 1]));
            }
        }
        let r = inner.push(s.last());
        assert(sorted_by(r, leq));
    }
}

/// What insertion sort yields is sorted under the list order.
pub proof fn lemma_sort_spec_sorted(s: Seq<Item>, by_deadline: bool, by_weight: bool)
    ensures
        sorted_by(sort_spec(s, by_deadline, by_weight), item_leq_fn(by_deadline, by_weight)),
    decreases s.len(),
{
    if s.len() != 0 {
        lemma_sort_spec_sorted(s.drop_last(), by_deadline, by_weight);
        lemma_insert_sorted_sorted(
            sort_spec(s.drop_last(), by_deadline, by_weight),
            s.last(),
            by_deadline,
            by_weight,
        );
    }
}

/// Filtering commutes with placing a task into a sorted sequence.
proof fn lemma_filter_insert_sorted(
    t: Seq<Item>,
    x: Item,
    p: spec_fn(Item) -> bool,
    by_deadline: bool,
    by_weight: bool,
)
    requires
        sorted_by(t, item_leq_fn(by_deadline, by_weight)),
    ensures
        insert_sorted(t, x, by_deadline, by_weight).filter(p) == if p(x) {
            insert_sorted(t.filter(p), x, by_deadline, by_weight)
        } else {
            t.filter(p)
        },
    decreases t.len(),
{
    lemma_item_leq_props(by_deadline, by_weight);
    let leq = item_leq_fn(by_deadline, by_weight);
    if t.len() == 0 {
        lemma_filter_empty(p);
        assert(seq![x] =~= Seq::<Item>::empty().push(x));
        lemma_filter_push(Seq::<Item>::empty(), x, p);
    } else if item_leq(by_deadline, by_weight, t.last(), x) {
        lemma_filter_push(t, x, p);
        if p(x) {
            let f = t.filter(p);
            if f.len() == 0 {
                assert(insert_sorted(f, x, by_deadline, by_weight) == seq![x]);
                assert(seq![x] =~= Seq::<Item>::empty().push(x));
                assert(f =~= Seq::<Item>::empty());
            } else {
                lemma_filter_subset(t, p);
                let e = f.last();
                assert(t.contains(e));
                let m = choose|m: int| 0 <= m < t.len() && t[m] == e;
                assert(leq(t[m], t[t.len() - 1]));
                assert(item_leq(by_deadline, by_weight, f.last(), x));
                assert(insert_sorted(f, x, by_deadline, by_weight) == f.push(x));
            }
        }
    } else {
        let dl = t.drop_last();
        assert(sorted_by(dl, leq));
        lemma_filter_insert_sorted(dl, x, p, by_deadline, by_weight);
        let inner = insert_sorted(dl, x, by_deadline, by_weight);
        lemma_filter_push(inner, t.last(), p);
        assert(t =~= dl.push(t.last()));
        lemma_filter_push(dl, t.last(), p);
        if p(x) {
            if p(t.last()) {
                let fdl = dl.filter(p);
                assert(t.filter(p) == fdl.push(t.last()));
                assert((fdl.push(t.last())).last() == t.last());
                assert((fdl.push(t.last())).drop_last() =~= fdl);
                assert(insert_sorted(fdl.push(t.last()), x, by_deadline, by_weight)
                    == insert_sorted(fdl, x, by_deadline, by_weight).push(t.last()));
            }
        }
    }
}

/// Sorting commutes with filtering: filtering first and sorting, or sorting
/// first and filtering, give the same sequence.
pub proof fn lemma_sort_filter_commute(
    s: Seq<Item>,
    p: spec_fn(Item) -> bool,
    by_deadline: bool,
    by_weight: bool,
)
    ensures
        sort_spec(s.filter(p), by_deadline, by_weight) == sort_spec(s, by_deadline, by_weight)
            .filter(p),
    decreases s.len(),
{
    if s.len() == 0 {
        lemma_filter_empty(p);
    } else {
        let dl = s.drop_last();
        let x = s.last();
        lemma_sort_filter_commute(dl, p, by_deadline, by_weight);
        lemma_sort_spec_sorted(dl, by_deadline, by_weight);
        lemma_filter_insert_sorted(
            sort_spec(dl, by_deadline, by_weight),
            x,
            p,
            by_deadline,
            by_weight,
        );
        assert(s =~= dl.push(x));
        lemma_filter_push(dl, x, p);
        if p(x) {
            let fdl = dl.filter(p);
            assert(s.filter(p) == fdl.push(x));
            assert((fdl.push(x)).drop_last() =~= fdl);
            assert(sort_spec(fdl.push(x), by_deadline, by_weight) == insert_sorted(
                sort_spec(fdl, by_deadline, by_weight),
                x,
                by_deadline,
                by_weight,
            ));
        }
    }
}

/// A listing holds exactly the tasks passing its filter, each as often as
/// the store holds it, arranged by the chosen order: by deadline with the
/// deadline-free tasks last, or by weight from High down to Low, or newest
/// first, ties falling back to the id order.
pub proof fn lemma_list_sorted_permutation(
    s: Seq<Item>,
    weight: Option<Weight>,
    completed: bool,
    by_deadline: bool,
    by_weight: bool,
)
    ensures
        sorted_by(
            spec_list(s, weight, completed, by_deadline, by_weight),
            item_leq_fn(by_deadline, by_weight),
        ),
        spec_list(s, weight, completed, by_deadline, by_weight).to_multiset() == s.filter(
            keep_fn(weight, completed),
        ).to_multiset(),
{
    lemma_sort_spec_sorted(s.filter(keep_fn(weight, completed)), by_deadline, by_weight);
    lemma_sort_spec_multiset(s.filter(keep_fn(weight, completed)), by_deadline, by_weight);
}

/// A listing restricted to one weight is the unrestricted listing with the
/// other weights struck out: the filter narrows, it never reorders.
pub proof fn lemma_weight_filter_preserves_order(
    s: Seq<Item>,
    w: Weight,
    completed: bool,
    by_deadline: bool,
    by_weight: bool,
)
    ensures
        spec_list(s, Some(w), completed, by_deadline, by_weight) == spec_list(
            s,
            None,
            completed,
            by_deadline,
            by_weight,
        ).filter(weight_fn(w)),
{
    lemma_filter_compose(s, keep_fn(None, completed), weight_fn(w), keep_fn(Some(w), completed));
    lemma_sort_filter_commute(
        s.filter(keep_fn(None, completed)),
        weight_fn(w),
        by_deadline,
        by_weight,
    );
}

/// A freshly added task shows up in an unfiltered listing exactly once, with
/// the very fields it was created with.
pub proof fn lemma_add_then_list_contains_once(s: Seq<Item>, it: Item)
    requires
        !has_name(s, it.name@),
    ensures
        spec_list(s.push(it), None, false, false, false).filter(name_fn(it.name@)) == seq![it],
{
    let p = name_fn(it.name@);
    lemma_filter_all(s.push(it), keep_fn(None, false));
    lemma_sort_filter_commute(s.push(it), p, false, false);
    lemma_filter_push(s, it, p);
    assert(forall|i: int| 0 <= i < s.len() ==> !p(#[trigger] s[i]));
    lemma_filter_nothing(s, p);
    assert((s.push(it)).filter(p) =~= Seq::<Item>::empty().push(it));
    let one = Seq::<Item>::empty().push(it);
    assert(one.drop_last() =~= Seq::<Item>::empty());
    assert(one.last() == it);
    assert(sort_spec(Seq::<Item>::empty(), false, false) == Seq::<Item>::empty());
    assert(sort_spec(one, false, false) == insert_sorted(
        sort_spec(one.drop_last(), false, false),
        it,
        false,
        false,
    ));
    assert(insert_sorted(Seq::<Item>::empty(), it, false, false) == seq![it]);
}

/// After an add, the added name is taken: a second add under it is refused.
pub proof fn lemma_added_name_taken(s: Seq<Item>, it: Item)
    ensures
        has_name(s.push(it), it.name@),
{
    assert(s.push(it)[s.len() as int].name@ == it.name@);
}

/// An edit that only supplies a description leaves name, weight, dates and
/// completion exactly as they were.
pub proof fn lemma_edit_description_only(t: Item, d: String, now: i64)
    ensures
        ({
            let u = spec_edited_item(t, None, Some(d), None, None, None, now);
            &&& u.description == Some(d)
            &&& u.name == t.name
            &&& u.weight == t.weight
            &&& u.start_date == t.start_date
            &&& u.deadline == t.deadline
            &&& u.created_at == t.created_at
            &&& u.completed == t.completed
            &&& u.completed_at == t.completed_at
            &&& u.id == t.id
        }),
{
}

/// Completing stamps the task with the completion instant: with a clock that
/// has not run backwards, the stamp is at or after creation, and the task
/// reads completed from then on.
pub proof fn lemma_complete_stamps(t: Item, now: i64)
    requires
        now >= t.created_at,
    ensures
        ({
            let u = spec_completed_item(t, now);
            &&& u.completed
            &&& u.completed_at == Some(now)
            &&& u.completed_at matches Some(c) && c >= u.created_at
        }),
{
}

/// Once a task is completed, the name no longer names an active task: a
/// second completion of it is refused.
pub proof fn lemma_complete_only_once(s: Seq<Item>, i: int, now: i64)
    requires
        0 <= i < s.len(),
        forall|p: int, q: int|
            #![trigger s[p].name@, s[q].name@]
            0 <= p < q < s.len() ==> s[p].name@ != s[q].name@,
    ensures
        ({
            let s2 = s.update(i, spec_completed_item(s[i], now));
            let name = s[i].name@;
            &&& has_name(s2, name)
            &&& s2[crate::repo::index_of_name(s2, name)].completed
        }),
{
    let s2 = s.update(i, spec_completed_item(s[i], now));
    let name = s[i].name@;
    assert(s2[i].name@ == name);
    assert(has_name(s2, name));
    let k = crate::repo::index_of_name(s2, name);
    assert(0 <= k < s2.len() && s2[k].name@ == name);
    if k != i {
        assert(s2[k] == s[k]);
        if k < i {
            assert(s[k].name@ != s[i].name@);
        } else {
            assert(s[i].name@ != s[k].name@);
        }
    }
}

} // verus!
