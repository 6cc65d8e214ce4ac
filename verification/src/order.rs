//! Stable orderings of list positions by a key.
use vstd::prelude::*;

verus! {

/// A relation on positions that orders them: `before(a, b)` says position
/// `a` may stand before position `b`. It is total and transitive.
pub open spec fn is_total_preorder(before: spec_fn(int, int) -> bool) -> bool {
    &&& forall|a: int, b: int| #[trigger] before(a, b) || before(b, a)
    &&& forall|a: int, b: int, c: int|
        #[trigger] before(a, b) && #[trigger] before(b, c) ==> before(a, c)
}

/// `order` with position `i` inserted after every position that may stand
/// before it: a stable insertion.
pub open spec fn insert_by(order: Seq<int>, before: spec_fn(int, int) -> bool, i: int) -> Seq<int>
    decreases order.len(),
{
    if order.len() == 0 {
        seq![i]
    } else if before(order.last(), i) {
        order.push(i)
    } else {
        insert_by(order.drop_last(), before, i).push(order.last())
    }
}

/// The positions `0..n` ordered by `before`, ties in their original order
/// (the result of a stable insertion sort).
pub open spec fn stable_order(before: spec_fn(int, int) -> bool, n: nat) -> Seq<int>
    decreases n,
{
    if n == 0 {
        Seq::empty()
    } else {
        insert_by(stable_order(before, (n - 1) as nat), before, n - 1)
    }
}

/// `order` lists positions in an order `before` allows.
pub open spec fn sorted_by(order: Seq<int>, before: spec_fn(int, int) -> bool) -> bool {
    forall|a: int, b: int| 0 <= a < b < order.len() ==> before(#[trigger] order[a], #[trigger] order[b])
}

/// Two positions are tied when each may stand before the other.
pub open spec fn tied(before: spec_fn(int, int) -> bool, a: int, b: int) -> bool {
    before(a, b) && before(b, a)
}

/// Tied positions keep their original order.
pub open spec fn stable_by(order: Seq<int>, before: spec_fn(int, int) -> bool) -> bool {
    forall|a: int, b: int|
        0 <= a < b < order.len() && tied(before, #[trigger] order[a], #[trigger] order[b])
            ==> order[a] < order[b]
}

/// The descending order of keys.
pub open spec fn desc_before(keys: Seq<u64>) -> spec_fn(int, int) -> bool {
    |a: int, b: int| keys[a] >= keys[b]
}

/// The positions `0..n` by descending key, ties in their original order.
pub open spec fn desc_order(keys: Seq<u64>, n: nat) -> Seq<int> {
    stable_order(desc_before(keys), n)
}

/// `order` lists each of `0..n` exactly once.
pub open spec fn is_permutation(order: Seq<int>, n: nat) -> bool {
    &&& order.len() == n
    &&& forall|a: int| 0 <= a < order.len() ==> 0 <= #[trigger] order[a] < n
    &&& forall|a: int, b: int| 0 <= a < b < order.len() ==> #[trigger] order[a] != #[trigger] order[b]
}

proof fn lemma_insert_by(order: Seq<int>, before: spec_fn(int, int) -> bool, i: int)
    requires
        0 <= i,
        is_total_preorder(before),
        sorted_by(order, before),
        stable_by(order, before),
        forall|a: int| 0 <= a < order.len() ==> 0 <= #[trigger] order[a] < i,
        forall|a: int, b: int| 0 <= a < b < order.len() ==> #[trigger] order[a] != #[trigger] order[b],
    ensures
        insert_by(order, before, i).len() == order.len() + 1,
        sorted_by(insert_by(order, before, i), before),
        stable_by(insert_by(order, before, i), before),
        forall|a: int|
            0 <= a < insert_by(order, before, i).len() ==> 0 <= #[trigger] insert_by(
                order,
                before,
                i,
            )[a] <= i,
        forall|x: int| #[trigger]
            insert_by(order, before, i).contains(x) <==> (order.contains(x) || x == i),
        forall|a: int, b: int|
            0 <= a < b < insert_by(order, before, i).len() ==> #[trigger] insert_by(
                order,
                before,
                i,
            )[a] != #[trigger] insert_by(order, before, i)[b],
    decreases order.len(),
{
    let r = insert_by(order, before, i);
    if order.len() == 0 {
        assert(r =~= seq![i]);
        assert forall|x: int| r.contains(x) <==> (order.contains(x) || x == i) by {
            if x == i {
                assert(r[0] == i);
            }
        }
    } else if before(order.last(), i) {
        assert(r =~= order.push(i));
        assert forall|x: int| r.contains(x) <==> (order.contains(x) || x == i) by {
            if r.contains(x) {
                let k = choose|k: int| 0 <= k < r.len() && r[k] == x;
                if k < order.len() {
                    assert(order[k] == x);
                }
            }
            if order.contains(x) {
                let k = choose|k: int| 0 <= k < order.len() && order[k] == x;
                assert(r[k] == x);
            }
            if x == i {
                assert(r[order.len() as int] == i);
            }
        }
        assert forall|a: int, b: int| 0 <= a < b < r.len() implies before(#[trigger] r[a], #[trigger] r[b]) by {
            if b == order.len() {
                if a < order.len() - 1 {
                    assert(before(order[a], order[order.len() - 1]));
                }
            }
        }
    } else {
        let rest = order.drop_last();
        let last = order.last();
        assert(before(i, last));
        assert forall|a: int, b: int| 0 <= a < b < rest.len() implies #[trigger] rest[a] != #[trigger] rest[b] by {
            assert(order[a] != order[b]);
        }
        assert forall|a: int, b: int| 0 <= a < b < rest.len() implies before(#[trigger] rest[a], #[trigger] rest[b]) by {
            assert(before(order[a], order[b]));
        }
        assert forall|a: int, b: int| 0 <= a < b < rest.len() && tied(before, #[trigger] rest[a], #[trigger] rest[b]) implies rest[a] < rest[b] by {
            assert(order[a] < order[b]);
        }
        assert forall|a: int| 0 <= a < rest.len() implies 0 <= #[trigger] rest[a] < i by {
            assert(order[a] < i);
        }
        lemma_insert_by(rest, before, i);
        let mid = insert_by(rest, before, i);
        assert(r =~= mid.push(last));
        assert(last < i);
        assert forall|x: int| r.contains(x) <==> (order.contains(x) || x == i) by {
            if r.contains(x) {
                let k = choose|k: int| 0 <= k < r.len() && r[k] == x;
                if k < mid.len() {
                    assert(r[k] == mid[k]);
                    assert(mid.contains(x));
                    if rest.contains(x) {
                        let m = choose|m: int| 0 <= m < rest.len() && rest[m] == x;
                        assert(order[m] == x);
                    }
                } else {
                    assert(order[order.len() - 1] == x);
                }
            }
            if order.contains(x) {
                let k = choose|k: int| 0 <= k < order.len() && order[k] == x;
                if k < rest.len() {
                    assert(rest[k] == x);
                    assert(mid.contains(x));
                    let m = choose|m: int| 0 <= m < mid.len() && mid[m] == x;
                    assert(r[m] == x);
                } else {
                    assert(r[mid.len() as int] == x);
                }
            }
            if x == i {
                assert(mid.contains(i));
                let m = choose|m: int| 0 <= m < mid.len() && mid[m] == i;
                assert(r[m] == i);
            }
        }
        assert forall|a: int| 0 <= a < mid.len() implies before(#[trigger] mid[a], last) by {
            assert(mid.contains(mid[a]));
            if mid[a] == i {
            } else {
                assert(rest.contains(mid[a]));
                let m = choose|m: int| 0 <= m < rest.len() && rest[m] == mid[a];
                assert(before(order[m], order[order.len() - 1]));
            }
        }
        assert forall|a: int| 0 <= a < mid.len() implies #[trigger] mid[a] != last by {
            assert(mid.contains(mid[a]));
            if mid[a] != i {
                assert(rest.contains(mid[a]));
                let m = choose|m: int| 0 <= m < rest.len() && rest[m] == mid[a];
                assert(order[m] != order[order.len() - 1]);
            }
        }
        assert forall|a: int| 0 <= a < mid.len() && tied(before, #[trigger] mid[a], last) implies mid[a] < last by {
            assert(mid.contains(mid[a]));
            if mid[a] == i {
            } else {
                assert(rest.contains(mid[a]));
                let m = choose|m: int| 0 <= m < rest.len() && rest[m] == mid[a];
                assert(tied(before, order[m], order[order.len() - 1]));
                assert(order[m] < order[order.len() - 1]);
            }
        }
        assert forall|a: int, b: int| 0 <= a < b < r.len() implies before(#[trigger] r[a], #[trigger] r[b]) by {
            if b < mid.len() {
            } else {
                assert(r[b] == last);
                assert(r[a] == mid[a]);
            }
        }
        assert forall|a: int, b: int| 0 <= a < b < r.len() && tied(before, #[trigger] r[a], #[trigger] r[b]) implies r[a] < r[b] by {
            if b == mid.len() {
                assert(r[a] == mid[a]);
            }
        }
        assert forall|a: int, b: int| 0 <= a < b < r.len() implies #[trigger] r[a] != #[trigger] r[b] by {
            if b == mid.len() {
                assert(r[a] == mid[a]);
            }
        }
        assert forall|a: int| 0 <= a < r.len() implies 0 <= #[trigger] r[a] <= i by {
            if a == mid.len() {
                assert(r[a] == last);
            } else {
                assert(r[a] == mid[a]);
            }
        }
    }
}

/// A stable insertion sort's order is sorted, stable, and lists each of
/// `0..n` once.
pub proof fn lemma_stable_order(before: spec_fn(int, int) -> bool, n: nat)
    requires
        is_total_preorder(before),
    ensures
        sorted_by(stable_order(before, n), before),
        stable_by(stable_order(before, n), before),
        is_permutation(stable_order(before, n), n),
        forall|x: int| 0 <= x < n ==> #[trigger] stable_order(before, n).contains(x),
    decreases n,
{
    if n > 0 {
        let prev = stable_order(before, (n - 1) as nat);
        lemma_stable_order(before, (n - 1) as nat);
        lemma_insert_by(prev, before, n - 1);
        assert forall|x: int| 0 <= x < n implies #[trigger] stable_order(before, n).contains(x) by {
            if x < n - 1 {
                assert(prev.contains(x));
            }
        }
    }
}

/// Descending key order is a total preorder.
pub proof fn lemma_desc_before(keys: Seq<u64>)
    ensures
        is_total_preorder(desc_before(keys)),
{
}

/// Inserts position `i` into `order` as `insert_by` does for descending
/// keys.
fn insert_position_desc(order: &mut Vec<usize>, keys: &Vec<u64>, i: usize)
    requires
        i < keys.len(),
        forall|a: int| 0 <= a < old(order)@.len() ==> #[trigger] old(order)@[a] < keys.len(),
        old(order)@.len() < usize::MAX,
    ensures
        final(order)@.map_values(|p: usize| p as int) == insert_by(
            old(order)@.map_values(|p: usize| p as int),
            desc_before(keys@),
            i as int,
        ),
        forall|a: int| 0 <= a < final(order)@.len() ==> #[trigger] final(order)@[a] < keys.len(),
{
    let ghost before = desc_before(keys@);
    let ghost start = order@.map_values(|p: usize| p as int);
    let mut pos: usize = order.len();
    assert(start.take(pos as int) =~= start);
    assert(start.subrange(pos as int, start.len() as int) =~= Seq::<int>::empty());
    while pos > 0 && keys[order[pos - 1]] < keys[i]
        invariant
            pos <= order@.len(),
            order@.map_values(|p: usize| p as int) == start,
            forall|a: int| 0 <= a < order@.len() ==> #[trigger] order@[a] < keys.len(),
            i < keys.len(),
            before == desc_before(keys@),
            insert_by(start, before, i as int) == insert_by(start.take(pos as int), before, i as int)
                + start.subrange(pos as int, start.len() as int),
        decreases pos,
    {
        let ghost pre = start.take(pos as int);
        assert(pre.drop_last() =~= start.take(pos - 1));
        assert(pre.last() == order@[pos - 1] as int);
        assert(insert_by(pre, before, i as int) =~= insert_by(start.take(pos - 1), before, i as int).push(pre.last()));
        assert(start.subrange(pos - 1, start.len() as int) =~= seq![pre.last()] + start.subrange(pos as int, start.len() as int));
        assert(insert_by(start.take(pos - 1), before, i as int).push(pre.last()) + start.subrange(pos as int, start.len() as int)
            =~= insert_by(start.take(pos - 1), before, i as int) + start.subrange(pos - 1, start.len() as int));
        pos = pos - 1;
    }
    let ghost pre = start.take(pos as int);
    assert(insert_by(pre, before, i as int) =~= pre.push(i as int)) by {
        if pre.len() > 0 {
            assert(pre.last() == order@[pos - 1] as int);
        }
    }
    order.insert(pos, i);
    assert(order@.map_values(|p: usize| p as int) =~= pre.push(i as int) + start.subrange(pos as int, start.len() as int));
}

/// The positions of `keys` ordered by descending key, ties kept in their
/// original order.
pub fn order_by_desc_key(keys: &Vec<u64>) -> (r: Vec<usize>)
    ensures
        r@.map_values(|p: usize| p as int) == desc_order(keys@, keys@.len()),
        r@.len() == keys@.len(),
        forall|a: int| 0 <= a < r@.len() ==> #[trigger] r@[a] < keys@.len(),
{
    let mut order: Vec<usize> = Vec::new();
    let mut i: usize = 0;
    assert(order@.map_values(|p: usize| p as int) =~= Seq::<int>::empty());
    while i < keys.len()
        invariant
            i <= keys.len(),
            order@.map_values(|p: usize| p as int) == desc_order(keys@, i as nat),
            order@.len() == i,
            forall|a: int| 0 <= a < order@.len() ==> #[trigger] order@[a] < keys.len(),
        decreases keys.len() - i,
    {
        proof {
            lemma_desc_before(keys@);
            lemma_stable_order(desc_before(keys@), i as nat);
        }
        insert_position_desc(&mut order, keys, i);
        proof {
            lemma_stable_order(desc_before(keys@), (i + 1) as nat);
        }
        i = i + 1;
    }
    order
}

} // verus!
