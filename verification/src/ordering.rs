//! Lexicographic order on texts, and the stable order of a list of keys.

use vstd::prelude::*;

verus! {

/// `a` comes before `b`, or equals it, in lexicographic order by code point.
pub open spec fn text_le(a: Seq<char>, b: Seq<char>) -> bool
    decreases a.len(),
{
    if a.len() == 0 {
        true
    } else if b.len() == 0 {
        false
    } else if a[0] != b[0] {
        (a[0] as u32) < (b[0] as u32)
    } else {
        text_le(a.skip(1), b.skip(1))
    }
}

/// Whether `a` comes before `b`, or equals it, in lexicographic order.
pub fn precedes_or_equals(a: &[char], b: &[char]) -> (r: bool)
    ensures
        r == text_le(a@, b@),
{
    let mut i: usize = 0;
    assert(a@.skip(0) =~= a@ && b@.skip(0) =~= b@);
    while i < a.len() && i < b.len()
        invariant
            i <= a.len(),
            i <= b.len(),
            text_le(a@, b@) == text_le(a@.skip(i as int), b@.skip(i as int)),
        decreases a.len() - i,
    {
        let x: u32 = a[i] as u32;
        let y: u32 = b[i] as u32;
        proof {
            assert(a@.skip(i as int)[0] == a@[i as int]);
            assert(b@.skip(i as int)[0] == b@[i as int]);
            assert(a@.skip(i as int).skip(1) =~= a@.skip(i + 1));
            assert(b@.skip(i as int).skip(1) =~= b@.skip(i + 1));
        }
        if a[i] != b[i] {
            return x < y;
        }
        i += 1;
    }
    i >= a.len()
}

/// `order` with the index `x` placed behind every index whose key is not greater
/// than the key of `x`.
pub open spec fn placed(keys: Seq<Seq<char>>, order: Seq<int>, x: int) -> Seq<int>
    decreases order.len(),
{
    if order.len() == 0 {
        seq![x]
    } else if text_le(keys[order.last()], keys[x]) {
        order.push(x)
    } else {
        placed(keys, order.drop_last(), x).push(order.last())
    }
}

/// The first `n` indices of `keys`, ordered by key; indices with equal keys keep
/// their relative order.
pub open spec fn stable_order(keys: Seq<Seq<char>>, n: nat) -> Seq<int>
    decreases n,
{
    if n == 0 {
        Seq::<int>::empty()
    } else {
        placed(keys, stable_order(keys, (n - 1) as nat), n - 1)
    }
}

/// The indices held by a vector, as mathematical integers.
pub open spec fn indices(v: Seq<usize>) -> Seq<int> {
    v.map_values(|i: usize| i as int)
}

proof fn lemma_placed_at(keys: Seq<Seq<char>>, order: Seq<int>, x: int, j: int)
    requires
        0 <= j <= order.len(),
        forall|k: int| j <= k < order.len() ==> !text_le(keys[#[trigger] order[k]], keys[x]),
        j > 0 ==> text_le(keys[order[j - 1]], keys[x]),
    ensures
        placed(keys, order, x) == order.take(j).push(x) + order.skip(j),
    decreases order.len() - j,
{
    if order.len() == 0 {
        assert(order.take(j).push(x) + order.skip(j) =~= seq![x]);
    } else if j == order.len() {
        assert(order.take(j).push(x) + order.skip(j) =~= order.push(x));
    } else {
        let shorter = order.drop_last();
        assert(!text_le(keys[order[order.len() - 1]], keys[x]));
        assert forall|k: int| j <= k < shorter.len() implies !text_le(
            keys[#[trigger] shorter[k]],
            keys[x],
        ) by {
            assert(shorter[k] == order[k]);
        }
        lemma_placed_at(keys, shorter, x, j);
        assert(shorter.take(j) =~= order.take(j));
        assert((shorter.take(j).push(x) + shorter.skip(j)).push(order.last()) =~= order.take(
            j,
        ).push(x) + order.skip(j));
    }
}

/// Of two texts, one comes before the other or equals it.
pub proof fn lemma_text_le_total(a: Seq<char>, b: Seq<char>)
    ensures
        text_le(a, b) || text_le(b, a),
    decreases a.len(),
{
    if a.len() > 0 && b.len() > 0 {
        if a[0] == b[0] {
            lemma_text_le_total(a.skip(1), b.skip(1));
        } else {
            vstd::utf8::char_u32_cast(a[0], a[0] as u32);
            vstd::utf8::char_u32_cast(b[0], b[0] as u32);
        }
    }
}

/// Placing an index makes the order one longer.
pub proof fn lemma_placed_len(keys: Seq<Seq<char>>, order: Seq<int>, x: int)
    ensures
        placed(keys, order, x).len() == order.len() + 1,
    decreases order.len(),
{
    if order.len() > 0 && !text_le(keys[order.last()], keys[x]) {
        lemma_placed_len(keys, order.drop_last(), x);
    }
}

/// The stable order of the first `n` keys holds `n` positions.
pub proof fn lemma_stable_order_len(keys: Seq<Seq<char>>, n: nat)
    ensures
        stable_order(keys, n).len() == n,
    decreases n,
{
    if n > 0 {
        lemma_stable_order_len(keys, (n - 1) as nat);
        lemma_placed_len(keys, stable_order(keys, (n - 1) as nat), n - 1);
    }
}

/// Whether the keys at the positions of an order ascend: each key comes before
/// the next, or equals it.
pub open spec fn ascends(keys: Seq<Seq<char>>, order: Seq<int>) -> bool {
    forall|k: int|
        0 <= k < order.len() - 1 ==> text_le(keys[#[trigger] order[k]], keys[order[k + 1]])
}

proof fn lemma_placed_ascends(keys: Seq<Seq<char>>, order: Seq<int>, x: int)
    requires
        ascends(keys, order),
    ensures
        ascends(keys, placed(keys, order, x)),
        placed(keys, order, x).len() == order.len() + 1,
        placed(keys, order, x).last() == x || (order.len() > 0 && placed(keys, order, x).last()
            == order.last() && text_le(keys[x], keys[order.last()])),
    decreases order.len(),
{
    let after = placed(keys, order, x);
    lemma_placed_len(keys, order, x);
    if order.len() == 0 {
    } else if text_le(keys[order.last()], keys[x]) {
        assert forall|k: int| 0 <= k < after.len() - 1 implies text_le(
            keys[#[trigger] after[k]],
            keys[after[k + 1]],
        ) by {
            if k < order.len() - 1 {
                assert(after[k] == order[k]);
                assert(after[k + 1] == order[k + 1]);
            } else {
                assert(after[k] == order.last());
                assert(after[k + 1] == x);
            }
        }
    } else {
        let shorter = order.drop_last();
        assert forall|k: int| 0 <= k < shorter.len() - 1 implies text_le(
            keys[#[trigger] shorter[k]],
            keys[shorter[k + 1]],
        ) by {
            assert(shorter[k] == order[k]);
            assert(shorter[k + 1] == order[k + 1]);
        }
        lemma_placed_ascends(keys, shorter, x);
        let inner = placed(keys, shorter, x);
        lemma_text_le_total(keys[order.last()], keys[x]);
        assert(text_le(keys[inner.last()], keys[order.last()])) by {
            if inner.last() != x {
                assert(shorter.last() == order[order.len() - 2]);
                assert(order[order.len() - 2 + 1] == order.last());
            }
        }
        assert forall|k: int| 0 <= k < after.len() - 1 implies text_le(
            keys[#[trigger] after[k]],
            keys[after[k + 1]],
        ) by {
            if k < inner.len() - 1 {
                assert(after[k] == inner[k]);
                assert(after[k + 1] == inner[k + 1]);
            } else {
                assert(after[k] == inner.last());
                assert(after[k + 1] == order.last());
            }
        }
    }
}

/// The stable order is ascending: the key at each position comes before the
/// key at the next position, or equals it.
pub proof fn lemma_stable_order_ascends(keys: Seq<Seq<char>>, n: nat)
    ensures
        ascends(keys, stable_order(keys, n)),
    decreases n,
{
    if n > 0 {
        lemma_stable_order_ascends(keys, (n - 1) as nat);
        lemma_placed_ascends(keys, stable_order(keys, (n - 1) as nat), n - 1);
    }
}

/// How often the position `x` stands in an order.
pub open spec fn occurrences(order: Seq<int>, x: int) -> nat
    decreases order.len(),
{
    if order.len() == 0 {
        0
    } else {
        occurrences(order.drop_last(), x) + (if order.last() == x {
            1nat
        } else {
            0nat
        })
    }
}

proof fn lemma_occurrences_placed(keys: Seq<Seq<char>>, order: Seq<int>, x: int, y: int)
    ensures
        occurrences(placed(keys, order, x), y) == occurrences(order, y) + (if x == y {
            1nat
        } else {
            0nat
        }),
    decreases order.len(),
{
    let after = placed(keys, order, x);
    if order.len() == 0 {
        assert(after.drop_last() =~= order);
    } else if text_le(keys[order.last()], keys[x]) {
        assert(after.drop_last() =~= order);
    } else {
        lemma_occurrences_placed(keys, order.drop_last(), x, y);
        let inner = placed(keys, order.drop_last(), x);
        assert(after.drop_last() =~= inner);
    }
}

proof fn lemma_placed_in_range(keys: Seq<Seq<char>>, order: Seq<int>, x: int, n: int)
    requires
        0 <= x < n,
        forall|k: int| 0 <= k < order.len() ==> 0 <= #[trigger] order[k] < n,
    ensures
        forall|k: int|
            0 <= k < placed(keys, order, x).len() ==> 0 <= #[trigger] placed(keys, order, x)[k] < n,
    decreases order.len(),
{
    let after = placed(keys, order, x);
    if order.len() == 0 {
    } else if text_le(keys[order.last()], keys[x]) {
        assert forall|k: int| 0 <= k < after.len() implies 0 <= #[trigger] after[k] < n by {
            if k < order.len() {
                assert(after[k] == order[k]);
            }
        }
    } else {
        let shorter = order.drop_last();
        assert forall|k: int| 0 <= k < shorter.len() implies 0 <= #[trigger] shorter[k] < n by {
            assert(shorter[k] == order[k]);
        }
        lemma_placed_in_range(keys, shorter, x, n);
        let inner = placed(keys, shorter, x);
        assert forall|k: int| 0 <= k < after.len() implies 0 <= #[trigger] after[k] < n by {
            if k < inner.len() {
                assert(after[k] == inner[k]);
            } else {
                assert(after[k] == order[order.len() - 1]);
            }
        }
    }
}

/// The stable order of the first `n` keys holds each of the first `n`
/// positions once, and no other.
pub proof fn lemma_stable_order_once(keys: Seq<Seq<char>>, n: nat, x: int)
    ensures
        0 <= x < n ==> occurrences(stable_order(keys, n), x) == 1,
        !(0 <= x < n) ==> occurrences(stable_order(keys, n), x) == 0,
        forall|k: int|
            0 <= k < stable_order(keys, n).len() ==> 0 <= #[trigger] stable_order(keys, n)[k] < n,
    decreases n,
{
    if n > 0 {
        lemma_stable_order_once(keys, (n - 1) as nat, x);
        let before = stable_order(keys, (n - 1) as nat);
        lemma_occurrences_placed(keys, before, n - 1, x);
        assert forall|k: int| 0 <= k < before.len() implies 0 <= #[trigger] before[k] < n by {}
        lemma_placed_in_range(keys, before, n - 1, n as int);
    }
}

/// Every text comes before itself, or equals it.
pub proof fn lemma_text_le_reflexive(a: Seq<char>)
    ensures
        text_le(a, a),
    decreases a.len(),
{
    if a.len() > 0 {
        lemma_text_le_reflexive(a.skip(1));
    }
}

/// The order on texts is transitive.
pub proof fn lemma_text_le_transitive(a: Seq<char>, b: Seq<char>, c: Seq<char>)
    requires
        text_le(a, b),
        text_le(b, c),
    ensures
        text_le(a, c),
    decreases a.len(),
{
    if a.len() > 0 {
        if a[0] == b[0] && b[0] == c[0] {
            lemma_text_le_transitive(a.skip(1), b.skip(1), c.skip(1));
        }
    }
}

/// Two texts of which each comes before the other, or equals it, are equal.
pub proof fn lemma_text_le_antisymmetric(a: Seq<char>, b: Seq<char>)
    requires
        text_le(a, b),
        text_le(b, a),
    ensures
        a == b,
    decreases a.len(),
{
    if a.len() > 0 {
        lemma_text_le_antisymmetric(a.skip(1), b.skip(1));
        assert(a =~= seq![a[0]] + a.skip(1));
        assert(b =~= seq![b[0]] + b.skip(1));
    } else {
        assert(a =~= b);
    }
}

/// Whether an order is sorted and stable: of two places, the key at the
/// earlier comes before the key at the later, or equals it; and where the two
/// keys are equal, the position at the earlier place is the smaller one.
pub open spec fn stably_sorted(keys: Seq<Seq<char>>, order: Seq<int>) -> bool {
    forall|k: int, l: int|
        0 <= k < l < order.len() ==> text_le(keys[#[trigger] order[k]], keys[#[trigger] order[l]])
            && (text_le(keys[order[l]], keys[order[k]]) ==> order[k] < order[l])
}

proof fn lemma_placed_stably_sorted(keys: Seq<Seq<char>>, order: Seq<int>, x: int)
    requires
        stably_sorted(keys, order),
        forall|k: int| 0 <= k < order.len() ==> #[trigger] order[k] < x,
    ensures
        stably_sorted(keys, placed(keys, order, x)),
        placed(keys, order, x).len() == order.len() + 1,
        forall|k: int|
            0 <= k < placed(keys, order, x).len() ==> (#[trigger] placed(keys, order, x)[k]) == x
                || exists|j: int| 0 <= j < order.len() && order[j] == placed(keys, order, x)[k],
    decreases order.len(),
{
    let after = placed(keys, order, x);
    lemma_placed_len(keys, order, x);
    if order.len() == 0 {
    } else if text_le(keys[order.last()], keys[x]) {
        let end = order.len() - 1;
        assert forall|k: int, l: int| 0 <= k < l < after.len() implies text_le(
            keys[#[trigger] after[k]],
            keys[#[trigger] after[l]],
        ) && (text_le(keys[after[l]], keys[after[k]]) ==> after[k] < after[l]) by {
            assert(after[k] == order[k]);
            if l < order.len() {
                assert(after[l] == order[l]);
            } else {
                assert(after[l] == x);
                if k < end {
                    assert(text_le(keys[order[k]], keys[order[end]]));
                    lemma_text_le_transitive(keys[order[k]], keys[order[end]], keys[x]);
                }
            }
        }
        assert forall|k: int| 0 <= k < after.len() implies (#[trigger] after[k]) == x || exists|
            j: int,
        | 0 <= j < order.len() && order[j] == after[k] by {
            if k < order.len() {
                assert(order[k] == after[k]);
            }
        }
    } else {
        let shorter = order.drop_last();
        let last = order.last();
        let end = order.len() - 1;
        assert forall|k: int, l: int| 0 <= k < l < shorter.len() implies text_le(
            keys[#[trigger] shorter[k]],
            keys[#[trigger] shorter[l]],
        ) && (text_le(keys[shorter[l]], keys[shorter[k]]) ==> shorter[k] < shorter[l]) by {
            assert(shorter[k] == order[k] && shorter[l] == order[l]);
        }
        assert forall|k: int| 0 <= k < shorter.len() implies #[trigger] shorter[k] < x by {
            assert(shorter[k] == order[k]);
        }
        lemma_placed_stably_sorted(keys, shorter, x);
        let inner = placed(keys, shorter, x);
        lemma_text_le_total(keys[last], keys[x]);
        assert forall|k: int, l: int| 0 <= k < l < after.len() implies text_le(
            keys[#[trigger] after[k]],
            keys[#[trigger] after[l]],
        ) && (text_le(keys[after[l]], keys[after[k]]) ==> after[k] < after[l]) by {
            assert(after[k] == inner[k]);
            if l < inner.len() {
                assert(after[l] == inner[l]);
            } else {
                assert(after[l] == last);
                if inner[k] != x {
                    let j = choose|j: int| 0 <= j < shorter.len() && shorter[j] == inner[k];
                    assert(shorter[j] == order[j]);
                    assert(order[end] == last);
                    assert(text_le(keys[order[j]], keys[order[end]]));
                }
            }
        }
        assert forall|k: int| 0 <= k < after.len() implies (#[trigger] after[k]) == x || exists|
            j: int,
        | 0 <= j < order.len() && order[j] == after[k] by {
            if k < inner.len() {
                assert(after[k] == inner[k]);
                if inner[k] != x {
                    let j = choose|j: int| 0 <= j < shorter.len() && shorter[j] == inner[k];
                    assert(order[j] == after[k]);
                }
            } else {
                assert(order[end] == after[k]);
            }
        }
    }
}

/// The stable order is sorted and stable: the keys ascend, and positions with
/// equal keys stand in their own order.
pub proof fn lemma_stable_order_stably_sorted(keys: Seq<Seq<char>>, n: nat)
    ensures
        stably_sorted(keys, stable_order(keys, n)),
    decreases n,
{
    if n > 0 {
        lemma_stable_order_stably_sorted(keys, (n - 1) as nat);
        lemma_stable_order_once(keys, (n - 1) as nat, 0);
        lemma_placed_stably_sorted(keys, stable_order(keys, (n - 1) as nat), n - 1);
    }
}

/// Whether the position `x` stands at some place of an order.
pub open spec fn holds(order: Seq<int>, x: int) -> bool {
    exists|k: int| 0 <= k < order.len() && #[trigger] order[k] == x
}

/// Whether an order holds each of the first `n` positions once, and no other.
pub open spec fn is_permutation(order: Seq<int>, n: int) -> bool {
    &&& order.len() == n
    &&& forall|k: int| 0 <= k < n ==> 0 <= #[trigger] order[k] < n
    &&& forall|k: int, l: int| 0 <= k < l < n ==> #[trigger] order[k] != #[trigger] order[l]
    &&& forall|x: int| 0 <= x < n ==> #[trigger] holds(order, x)
}

proof fn lemma_occurrences_holds(order: Seq<int>, x: int)
    requires
        occurrences(order, x) >= 1,
    ensures
        holds(order, x),
    decreases order.len(),
{
    if order.len() > 0 {
        if order.last() == x {
            assert(order[order.len() - 1] == x);
        } else {
            lemma_occurrences_holds(order.drop_last(), x);
            let k = choose|k: int| 0 <= k < order.drop_last().len() && #[trigger] order.drop_last()[k] == x;
            assert(order[k] == x);
        }
    }
}

proof fn lemma_place_occurs(order: Seq<int>, i: int)
    requires
        0 <= i < order.len(),
    ensures
        occurrences(order, order[i]) >= 1,
    decreases order.len(),
{
    if i < order.len() - 1 {
        assert(order.drop_last()[i] == order[i]);
        lemma_place_occurs(order.drop_last(), i);
    }
}

proof fn lemma_occurrences_twice(order: Seq<int>, i: int, j: int)
    requires
        0 <= i < j < order.len(),
        order[i] == order[j],
    ensures
        occurrences(order, order[i]) >= 2,
    decreases order.len(),
{
    assert(order.drop_last()[i] == order[i]);
    if j == order.len() - 1 {
        lemma_place_occurs(order.drop_last(), i);
    } else {
        assert(order.drop_last()[j] == order[j]);
        lemma_occurrences_twice(order.drop_last(), i, j);
    }
}

/// The stable order of the first `n` keys is a permutation of the first `n`
/// positions.
pub proof fn lemma_stable_order_is_permutation(keys: Seq<Seq<char>>, n: nat)
    ensures
        is_permutation(stable_order(keys, n), n as int),
{
    let order = stable_order(keys, n);
    lemma_stable_order_len(keys, n);
    lemma_stable_order_once(keys, n, 0);
    assert forall|k: int, l: int| 0 <= k < l < n implies #[trigger] order[k] != #[trigger] order[l] by {
        if order[k] == order[l] {
            lemma_occurrences_twice(order, k, l);
            lemma_stable_order_once(keys, n, order[k]);
        }
    }
    assert forall|x: int| 0 <= x < n implies #[trigger] holds(order, x) by {
        lemma_stable_order_once(keys, n, x);
        lemma_occurrences_holds(order, x);
    }
}

/// Whether the keys at the places of an order ascend, place by place and
/// across places.
pub open spec fn sorted(keys: Seq<Seq<char>>, order: Seq<int>) -> bool {
    forall|k: int, l: int|
        0 <= k < l < order.len() ==> text_le(keys[#[trigger] order[k]], keys[#[trigger] order[l]])
}

/// No two of the first `n` keys are equal.
pub open spec fn distinct_keys(keys: Seq<Seq<char>>, n: int) -> bool {
    forall|i: int, j: int| 0 <= i < j < n ==> #[trigger] keys[i] != #[trigger] keys[j]
}

proof fn lemma_sorted_orders_agree_at(
    keys: Seq<Seq<char>>,
    a: Seq<int>,
    b: Seq<int>,
    n: int,
    k: int,
)
    requires
        is_permutation(a, n),
        is_permutation(b, n),
        sorted(keys, a),
        sorted(keys, b),
        distinct_keys(keys, n),
        0 <= k < n,
    ensures
        a[k] == b[k],
    decreases k,
{
    assert forall|i: int| 0 <= i < k implies a[i] == b[i] by {
        lemma_sorted_orders_agree_at(keys, a, b, n, i);
    }
    // Where `a[k]` stands in `b`, and where `b[k]` stands in `a`.
    assert(holds(b, a[k]));
    let m = choose|m: int| 0 <= m < b.len() && #[trigger] b[m] == a[k];
    if m < k {
        assert(a[m] == b[m]);
        assert(a[m] != a[k]);
    }
    assert(holds(a, b[k]));
    let w = choose|w: int| 0 <= w < a.len() && #[trigger] a[w] == b[k];
    if w < k {
        assert(a[w] == b[w]);
        assert(b[w] != b[k]);
    }
    if m == k {
    } else {
        assert(text_le(keys[b[k]], keys[b[m]]));
        if w == k {
        } else {
            assert(text_le(keys[a[k]], keys[a[w]]));
            lemma_text_le_antisymmetric(keys[a[k]], keys[b[k]]);
            if a[k] < b[k] {
                assert(keys[a[k]] != keys[b[k]]);
            } else if b[k] < a[k] {
                assert(keys[b[k]] != keys[a[k]]);
            }
        }
    }
}

/// Keys of which no two are equal have one sorted order: two permutations
/// under which the keys ascend are the same.
pub proof fn lemma_sorted_orders_agree(keys: Seq<Seq<char>>, a: Seq<int>, b: Seq<int>, n: int)
    requires
        is_permutation(a, n),
        is_permutation(b, n),
        sorted(keys, a),
        sorted(keys, b),
        distinct_keys(keys, n),
    ensures
        a == b,
{
    assert forall|k: int| 0 <= k < n implies a[k] == b[k] by {
        lemma_sorted_orders_agree_at(keys, a, b, n, k);
    }
    assert(a =~= b);
}

/// The keys in another arrangement: at each place the key of the position that
/// the permutation names.
pub open spec fn rearranged_keys(keys: Seq<Seq<char>>, perm: Seq<int>) -> Seq<Seq<char>> {
    Seq::new(perm.len(), |p: int| keys[perm[p]])
}

/// The stable order does not depend on the arrangement of keys of which no
/// two are equal: it visits the same positions in the same order, however the
/// keys were arranged.
pub proof fn lemma_stable_order_of_rearranged(keys: Seq<Seq<char>>, perm: Seq<int>, n: nat)
    requires
        is_permutation(perm, n as int),
        distinct_keys(keys, n as int),
    ensures
        stable_order(keys, n) == Seq::new(
            n,
            |k: int| perm[stable_order(rearranged_keys(keys, perm), n)[k]],
        ),
{
    let keys2 = rearranged_keys(keys, perm);
    let a = stable_order(keys, n);
    let o2 = stable_order(keys2, n);
    let b = Seq::new(n, |k: int| perm[o2[k]]);
    lemma_stable_order_is_permutation(keys, n);
    lemma_stable_order_is_permutation(keys2, n);
    lemma_stable_order_stably_sorted(keys, n);
    lemma_stable_order_stably_sorted(keys2, n);
    assert forall|k: int, l: int| 0 <= k < l < n implies #[trigger] b[k] != #[trigger] b[l] by {
        assert(o2[k] != o2[l]);
        if o2[k] < o2[l] {
            assert(perm[o2[k]] != perm[o2[l]]);
        } else {
            assert(perm[o2[l]] != perm[o2[k]]);
        }
    }
    assert forall|x: int| 0 <= x < n implies #[trigger] holds(b, x) by {
        assert(holds(perm, x));
        let p = choose|p: int| 0 <= p < perm.len() && #[trigger] perm[p] == x;
        assert(holds(o2, p));
        let k = choose|k: int| 0 <= k < o2.len() && #[trigger] o2[k] == p;
        assert(b[k] == x);
    }
    assert forall|k: int, l: int| 0 <= k < l < b.len() implies text_le(
        keys[#[trigger] b[k]],
        keys[#[trigger] b[l]],
    ) by {
        assert(keys2[o2[k]] == keys[perm[o2[k]]]);
        assert(keys2[o2[l]] == keys[perm[o2[l]]]);
        assert(text_le(keys2[o2[k]], keys2[o2[l]]));
    }
    lemma_sorted_orders_agree(keys, a, b, n as int);
}

/// The positions of `keys` in stable order by key.
pub fn order_by_key(keys: &Vec<Vec<char>>) -> (order: Vec<usize>)
    ensures
        indices(order@) == stable_order(crate::textlines::texts(keys@), keys@.len()),
        order@.len() == keys@.len(),
        forall|k: int| 0 <= k < order@.len() ==> #[trigger] order@[k] < keys@.len(),
{
    let ghost texts = crate::textlines::texts(keys@);
    let mut order: Vec<usize> = Vec::new();
    let mut x: usize = 0;
    assert(indices(order@) =~= stable_order(texts, 0));
    while x < keys.len()
        invariant
            x <= keys.len(),
            texts == crate::textlines::texts(keys@),
            indices(order@) == stable_order(texts, x as nat),
            order@.len() == x,
            forall|k: int| 0 <= k < order@.len() ==> #[trigger] order@[k] < x,
        decreases keys.len() - x,
    {
        let mut j: usize = order.len();
        while j > 0 && !precedes_or_equals(keys[order[j - 1]].as_slice(), keys[x].as_slice())
            invariant
                j <= order@.len(),
                x < keys.len(),
                texts == crate::textlines::texts(keys@),
                forall|k: int| 0 <= k < order@.len() ==> #[trigger] order@[k] < x,
                forall|k: int|
                    j <= k < order@.len() ==> !text_le(
                        texts[#[trigger] indices(order@)[k]],
                        texts[x as int],
                    ),
            decreases j,
        {
            j -= 1;
        }
        proof {
            let before = indices(order@);
            lemma_placed_at(texts, before, x as int, j as int);
            assert(indices(order@.insert(j as int, x)) =~= before.take(j as int).push(x as int)
                + before.skip(j as int));
        }
        order.insert(j, x);
        x += 1;
    }
    order
}

} // verus!
