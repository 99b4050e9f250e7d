//! Mathematical models of the ways an ordered item sequence is split into
//! batches, and the laws that hold of every such split.

use crate::text::{lemma_lex_irreflexive, lemma_lex_total, lemma_lex_transitive, lex_lt};
use vstd::prelude::*;
use vstd::seq_lib::{lemma_flatten_concat, lemma_multiset_commutative, to_multiset_build};

verus! {

/// Among the first `n` items, those whose position is congruent to `j`
/// modulo `k`, in input order.
pub open spec fn every_kth_upto<T>(items: Seq<T>, k: int, j: int, n: int) -> Seq<T>
    decreases n,
{
    if n <= 0 {
        Seq::empty()
    } else {
        let before = every_kth_upto(items, k, j, n - 1);
        if (n - 1) % k == j {
            before.push(items[n - 1])
        } else {
            before
        }
    }
}

/// The items whose position is congruent to `j` modulo `k`, in input order.
pub open spec fn every_kth<T>(items: Seq<T>, k: int, j: int) -> Seq<T> {
    every_kth_upto(items, k, j, items.len() as int)
}

/// The smaller of two numbers.
pub open spec fn smaller(a: int, b: int) -> int {
    if a < b {
        a
    } else {
        b
    }
}

/// Round-robin: item `i` goes to batch `i mod k`. With fewer items than
/// workers there are only as many batches as items.
pub open spec fn round_robin<T>(items: Seq<T>, k: int) -> Seq<Seq<T>> {
    Seq::new(smaller(items.len() as int, k) as nat, |j: int| every_kth(items, k, j))
}

/// Among the first `n` groups, those whose position is congruent to `j`
/// modulo `k`, written one after another.
pub open spec fn load_upto<T>(groups: Seq<Seq<T>>, k: int, j: int, n: int) -> Seq<T>
    decreases n,
{
    if n <= 0 {
        Seq::empty()
    } else {
        let before = load_upto(groups, k, j, n - 1);
        if (n - 1) % k == j {
            before + groups[n - 1]
        } else {
            before
        }
    }
}

/// What each of the workers gets when whole groups are dealt out round-robin,
/// before empty workers are dropped.
pub open spec fn loads<T>(groups: Seq<Seq<T>>, k: int) -> Seq<Seq<T>> {
    Seq::new(
        smaller(groups.len() as int, k) as nat,
        |j: int| load_upto(groups, k, j, groups.len() as int),
    )
}

/// The non-empty batches among the first `n`, in order.
pub open spec fn nonempty_upto<T>(batches: Seq<Seq<T>>, n: int) -> Seq<Seq<T>>
    decreases n,
{
    if n <= 0 {
        Seq::empty()
    } else {
        let before = nonempty_upto(batches, n - 1);
        if batches[n - 1].len() > 0 {
            before.push(batches[n - 1])
        } else {
            before
        }
    }
}

/// Whole groups dealt out round-robin over `k` workers, empty workers
/// dropped.
pub open spec fn spread<T>(groups: Seq<Seq<T>>, k: int) -> Seq<Seq<T>> {
    let all = loads(groups, k);
    nonempty_upto(all, all.len() as int)
}

/// Every key comes strictly before every later one.
pub open spec fn strictly_sorted(keys: Seq<Seq<char>>) -> bool {
    forall|a: int, b: int| 0 <= a < b < keys.len() ==> lex_lt(#[trigger] keys[a], #[trigger] keys[b])
}

/// The first position at or after `i` whose key does not come before `key`.
pub open spec fn rank_from(sorted: Seq<Seq<char>>, key: Seq<char>, i: int) -> int
    decreases sorted.len() - i,
{
    if i < 0 || i >= sorted.len() {
        sorted.len() as int
    } else if lex_lt(sorted[i], key) {
        rank_from(sorted, key, i + 1)
    } else {
        i
    }
}

/// The sorted keys with `key` among them, put where the order wants it.
pub open spec fn with_key(sorted: Seq<Seq<char>>, key: Seq<char>) -> Seq<Seq<char>> {
    let p = rank_from(sorted, key, 0);
    if p < sorted.len() && sorted[p] == key {
        sorted
    } else {
        sorted.insert(p, key)
    }
}

/// The distinct keys among the first `n`, in ascending order.
pub open spec fn distinct_keys_upto(keys: Seq<Seq<char>>, n: int) -> Seq<Seq<char>>
    decreases n,
{
    if n <= 0 {
        Seq::empty()
    } else {
        with_key(distinct_keys_upto(keys, n - 1), keys[n - 1])
    }
}

/// Among the first `n` items, those filed under `key`, in input order.
pub open spec fn members_upto<T>(
    items: Seq<T>,
    keys: Seq<Seq<char>>,
    key: Seq<char>,
    n: int,
) -> Seq<T>
    decreases n,
{
    if n <= 0 {
        Seq::empty()
    } else {
        let before = members_upto(items, keys, key, n - 1);
        if keys[n - 1] == key {
            before.push(items[n - 1])
        } else {
            before
        }
    }
}

/// The first `n` items grouped by key: one group for each distinct key, the
/// groups in ascending key order, each group in input order.
pub open spec fn grouped_upto<T>(items: Seq<T>, keys: Seq<Seq<char>>, n: int) -> Seq<Seq<T>> {
    let order = distinct_keys_upto(keys, n);
    Seq::new(order.len(), |g: int| members_upto(items, keys, order[g], n))
}

/// The items grouped by key: `keys[i]` is the key of `items[i]`.
pub open spec fn grouped<T>(items: Seq<T>, keys: Seq<Seq<char>>) -> Seq<Seq<T>> {
    grouped_upto(items, keys, items.len() as int)
}

/// The batches hold the items, each item as often as the input does, no
/// batch is empty, and there are at most `k` batches.
pub open spec fn is_partition<T>(batches: Seq<Seq<T>>, items: Seq<T>, k: int) -> bool {
    &&& batches.flatten().to_multiset() == items.to_multiset()
    &&& forall|j: int| 0 <= j < batches.len() ==> (#[trigger] batches[j]).len() > 0
    &&& batches.len() <= k
}

/// A sequence of batches splits around any one of them.
pub proof fn lemma_flatten_split<T>(s: Seq<Seq<T>>, j: int)
    requires
        0 <= j < s.len(),
    ensures
        s.flatten() == s.take(j).flatten() + s[j] + s.skip(j + 1).flatten(),
{
    let a = s.take(j);
    let b = s.skip(j + 1);
    let one = seq![s[j]];
    assert(s =~= a + one + b);
    lemma_flatten_concat(a + one, b);
    lemma_flatten_concat(a, one);
    one.lemma_flatten_one_element();
}

/// Appending `x` to one batch adds exactly `x` to what the batches hold.
pub proof fn lemma_flatten_update_push<T>(s: Seq<Seq<T>>, j: int, x: T)
    requires
        0 <= j < s.len(),
    ensures
        s.update(j, s[j].push(x)).flatten().to_multiset() == s.flatten().to_multiset().insert(x),
{
    let t = s.update(j, s[j].push(x));
    lemma_flatten_split(s, j);
    lemma_flatten_split(t, j);
    let a = s.take(j).flatten();
    let b = s.skip(j + 1).flatten();
    assert(t.take(j) =~= s.take(j));
    assert(t.skip(j + 1) =~= s.skip(j + 1));
    assert(a + s[j].push(x) =~= (a + s[j]).push(x));
    lemma_multiset_commutative(a + s[j], b);
    lemma_multiset_commutative((a + s[j]).push(x), b);
    to_multiset_build(a + s[j], x);
    assert(t.flatten().to_multiset() =~= s.flatten().to_multiset().insert(x));
}

/// Putting a new batch of one item between the others adds exactly that item
/// to what the batches hold.
pub proof fn lemma_flatten_insert_single<T>(s: Seq<Seq<T>>, p: int, x: T)
    requires
        0 <= p <= s.len(),
    ensures
        s.insert(p, seq![x]).flatten().to_multiset() == s.flatten().to_multiset().insert(x),
{
    let t = s.insert(p, seq![x]);
    lemma_flatten_split(t, p);
    assert(t.take(p) =~= s.take(p));
    assert(t.skip(p + 1) =~= s.skip(p));
    assert(s =~= s.take(p) + s.skip(p));
    lemma_flatten_concat(s.take(p), s.skip(p));
    let a = s.take(p).flatten();
    let b = s.skip(p).flatten();
    assert(a + seq![x] =~= a.push(x));
    lemma_multiset_commutative(a, b);
    lemma_multiset_commutative(a.push(x), b);
    to_multiset_build(a, x);
    assert(t.flatten().to_multiset() =~= s.flatten().to_multiset().insert(x));
}

/// Appending a group to one batch adds exactly the group to what the batches
/// hold.
pub proof fn lemma_flatten_update_add<T>(s: Seq<Seq<T>>, j: int, g: Seq<T>)
    requires
        0 <= j < s.len(),
    ensures
        s.update(j, s[j] + g).flatten().to_multiset() == s.flatten().to_multiset().add(
            g.to_multiset(),
        ),
{
    let t = s.update(j, s[j] + g);
    lemma_flatten_split(s, j);
    lemma_flatten_split(t, j);
    let a = s.take(j).flatten();
    let b = s.skip(j + 1).flatten();
    assert(t.take(j) =~= s.take(j));
    assert(t.skip(j + 1) =~= s.skip(j + 1));
    lemma_multiset_commutative(a + s[j], b);
    lemma_multiset_commutative(a, s[j]);
    lemma_multiset_commutative(a + (s[j] + g), b);
    lemma_multiset_commutative(a, s[j] + g);
    lemma_multiset_commutative(s[j], g);
    assert(t.flatten().to_multiset() =~= s.flatten().to_multiset().add(g.to_multiset()));
}

/// Batches that are all empty hold nothing.
pub proof fn lemma_flatten_all_empty<T>(s: Seq<Seq<T>>)
    requires
        forall|j: int| 0 <= j < s.len() ==> (#[trigger] s[j]).len() == 0,
    ensures
        s.flatten() == Seq::<T>::empty(),
    decreases s.len(),
{
    if s.len() > 0 {
        lemma_flatten_all_empty(s.drop_first());
        assert(s.first() =~= Seq::<T>::empty());
        assert(s.flatten() =~= Seq::<T>::empty());
    }
}

/// Dropping the empty batches changes nothing of what the batches hold, nor
/// its order.
pub proof fn lemma_nonempty_flatten<T>(batches: Seq<Seq<T>>, n: int)
    requires
        0 <= n <= batches.len(),
    ensures
        nonempty_upto(batches, n).flatten() == batches.take(n).flatten(),
        nonempty_upto(batches, n).len() <= n,
        forall|j: int|
            0 <= j < nonempty_upto(batches, n).len() ==> (#[trigger] nonempty_upto(
                batches,
                n,
            )[j]).len() > 0,
    decreases n,
{
    if n > 0 {
        lemma_nonempty_flatten(batches, n - 1);
        let before = nonempty_upto(batches, n - 1);
        let last = batches[n - 1];
        assert(batches.take(n) =~= batches.take(n - 1).push(last));
        batches.take(n - 1).lemma_flatten_push(last);
        if last.len() > 0 {
            before.lemma_flatten_push(last);
        } else {
            assert(batches.take(n - 1).flatten() + last =~= batches.take(n - 1).flatten());
        }
    } else {
        assert(batches.take(0) =~= Seq::<Seq<T>>::empty());
    }
}

/// With a single worker, round-robin hands over the input as it is.
pub proof fn lemma_every_first<T>(items: Seq<T>, n: int)
    requires
        0 <= n <= items.len(),
    ensures
        every_kth_upto(items, 1, 0, n) == items.take(n),
    decreases n,
{
    if n > 0 {
        lemma_every_first(items, n - 1);
        assert(items.take(n) =~= items.take(n - 1).push(items[n - 1]));
    } else {
        assert(items.take(0) =~= Seq::<T>::empty());
    }
}

/// A worker whose number is below the item count gets at least one item.
pub proof fn lemma_every_kth_nonempty<T>(items: Seq<T>, k: int, j: int, n: int)
    requires
        0 <= j < k,
        j < n,
    ensures
        every_kth_upto(items, k, j, n).len() > 0,
    decreases n,
{
    if n - 1 == j {
        assert(j % k == j) by (nonlinear_arith)
            requires
                0 <= j < k,
        ;
    } else {
        lemma_every_kth_nonempty(items, k, j, n - 1);
    }
}

/// The position modulo `k` of one of `total` items is the number of one of
/// the `min(total, k)` workers.
pub proof fn lemma_slot_in_range(n: int, total: int, k: int)
    requires
        0 <= n < total,
        k > 0,
    ensures
        0 <= n % k < smaller(total, k),
{
    assert(0 <= n % k < k) by (nonlinear_arith)
        requires
            0 <= n,
            k > 0,
    ;
    if total < k {
        assert(n % k == n) by (nonlinear_arith)
            requires
                0 <= n < k,
        ;
    }
}

/// What the workers hold after the first `n` items were dealt out is what
/// the first `n` items are.
proof fn lemma_round_robin_multiset<T>(items: Seq<T>, k: int, n: int)
    requires
        k > 0,
        0 <= n <= items.len(),
    ensures
        Seq::new(
            smaller(items.len() as int, k) as nat,
            |j: int| every_kth_upto(items, k, j, n),
        ).flatten().to_multiset() == items.take(n).to_multiset(),
    decreases n,
{
    let w = smaller(items.len() as int, k) as nat;
    let now = Seq::new(w, |j: int| every_kth_upto(items, k, j, n));
    if n == 0 {
        lemma_flatten_all_empty(now);
        assert(items.take(0) =~= Seq::<T>::empty());
    } else {
        let before = Seq::new(w, |j: int| every_kth_upto(items, k, j, n - 1));
        lemma_round_robin_multiset(items, k, n - 1);
        lemma_slot_in_range(n - 1, items.len() as int, k);
        let slot = (n - 1) % k;
        let x = items[n - 1];
        assert(now =~= before.update(slot, before[slot].push(x)));
        lemma_flatten_update_push(before, slot, x);
        assert(items.take(n) =~= items.take(n - 1).push(x));
        to_multiset_build(items.take(n - 1), x);
    }
}

/// Round-robin splits the input: every item is in exactly one batch, no
/// batch is empty, and there are at most `k` batches.
pub proof fn lemma_round_robin_is_partition<T>(items: Seq<T>, k: int)
    requires
        k > 0,
    ensures
        is_partition(round_robin(items, k), items, k),
{
    let n = items.len() as int;
    lemma_round_robin_multiset(items, k, n);
    assert(items.take(n) =~= items);
    let plan = round_robin(items, k);
    assert(plan =~= Seq::new(
        smaller(n, k) as nat,
        |j: int| every_kth_upto(items, k, j, n),
    ));
    assert forall|j: int| 0 <= j < plan.len() implies (#[trigger] plan[j]).len() > 0 by {
        lemma_every_kth_nonempty(items, k, j, n);
    }
}

/// With one worker, round-robin gives the input as its only batch.
pub proof fn law_one_worker_takes_all<T>(items: Seq<T>)
    requires
        items.len() > 0,
    ensures
        round_robin(items, 1) == seq![items],
{
    lemma_every_first(items, items.len() as int);
    assert(items.take(items.len() as int) =~= items);
    assert(round_robin(items, 1) =~= seq![items]);
}

/// Where the scan for a key's place stops: everything before the place
/// comes before the key, and what stands at the place does not.
pub proof fn lemma_rank_bounds(sorted: Seq<Seq<char>>, key: Seq<char>, i: int)
    requires
        0 <= i <= sorted.len(),
    ensures
        i <= rank_from(sorted, key, i) <= sorted.len(),
        forall|m: int| i <= m < rank_from(sorted, key, i) ==> lex_lt(#[trigger] sorted[m], key),
        rank_from(sorted, key, i) < sorted.len() ==> !lex_lt(
            sorted[rank_from(sorted, key, i)],
            key,
        ),
    decreases sorted.len() - i,
{
    if i < sorted.len() && lex_lt(sorted[i], key) {
        lemma_rank_bounds(sorted, key, i + 1);
    }
}

/// Sorted keys stay sorted when a key is put in, every key that was there
/// stays, and the new key is there. Where the key had to be inserted, it was
/// not there before.
pub proof fn lemma_with_key(sorted: Seq<Seq<char>>, key: Seq<char>)
    requires
        strictly_sorted(sorted),
    ensures
        strictly_sorted(with_key(sorted, key)),
        with_key(sorted, key).contains(key),
        forall|x: Seq<char>| sorted.contains(x) ==> with_key(sorted, key).contains(x),
        forall|x: Seq<char>| with_key(sorted, key).contains(x) ==> x == key || sorted.contains(x),
        with_key(sorted, key) != sorted ==> !sorted.contains(key),
        with_key(sorted, key) == sorted ==> sorted.contains(key),
{
    let p = rank_from(sorted, key, 0);
    lemma_rank_bounds(sorted, key, 0);
    let out = with_key(sorted, key);
    if p < sorted.len() && sorted[p] == key {
        assert(out[p] == key);
    } else {
        assert(out == sorted.insert(p, key));
        assert(out[p] == key);
        // everything from the place on comes after the key
        assert forall|m: int| p <= m < sorted.len() implies lex_lt(key, #[trigger] sorted[m]) by {
            lemma_lex_total(sorted[p], key);
            if m > p {
                lemma_lex_transitive(key, sorted[p], sorted[m]);
            }
        }
        assert forall|a: int, b: int| 0 <= a < b < out.len() implies lex_lt(
            #[trigger] out[a],
            #[trigger] out[b],
        ) by {
            if b < p {
            } else if b == p {
                assert(out[a] == sorted[a]);
            } else if a < p {
                assert(out[a] == sorted[a]);
                assert(out[b] == sorted[b - 1]);
                if b - 1 > a {
                } else {
                    lemma_lex_transitive(sorted[a], key, sorted[b - 1]);
                }
            } else if a == p {
                assert(out[b] == sorted[b - 1]);
            } else {
                assert(out[a] == sorted[a - 1]);
                assert(out[b] == sorted[b - 1]);
            }
        }
        assert forall|x: Seq<char>| sorted.contains(x) implies out.contains(x) by {
            let m = choose|m: int| 0 <= m < sorted.len() && sorted[m] == x;
            if m < p {
                assert(out[m] == x);
            } else {
                assert(out[m + 1] == x);
            }
        }
        assert forall|x: Seq<char>| out.contains(x) implies x == key || sorted.contains(x) by {
            let m = choose|m: int| 0 <= m < out.len() && out[m] == x;
            if m < p {
                assert(sorted[m] == x);
            } else if m > p {
                assert(sorted[m - 1] == x);
            }
        }
        if sorted.contains(key) {
            let m = choose|m: int| 0 <= m < sorted.len() && sorted[m] == key;
            lemma_lex_irreflexive(key);
        }
        assert(out.len() != sorted.len());
    }
}

/// The distinct keys are strictly ascending and are exactly the keys seen.
pub proof fn lemma_distinct_keys(keys: Seq<Seq<char>>, n: int)
    requires
        0 <= n <= keys.len(),
    ensures
        strictly_sorted(distinct_keys_upto(keys, n)),
        forall|m: int| 0 <= m < n ==> distinct_keys_upto(keys, n).contains(#[trigger] keys[m]),
        forall|x: Seq<char>|
            distinct_keys_upto(keys, n).contains(x) ==> exists|m: int|
                0 <= m < n && #[trigger] keys[m] == x,
    decreases n,
{
    if n > 0 {
        lemma_distinct_keys(keys, n - 1);
        let before = distinct_keys_upto(keys, n - 1);
        lemma_with_key(before, keys[n - 1]);
        let now = distinct_keys_upto(keys, n);
        assert forall|m: int| 0 <= m < n implies now.contains(#[trigger] keys[m]) by {
            if m < n - 1 {
                assert(before.contains(keys[m]));
            }
        }
        assert forall|x: Seq<char>| now.contains(x) implies exists|m: int|
            0 <= m < n && #[trigger] keys[m] == x by {
            if x == keys[n - 1] {
            } else {
                assert(before.contains(x));
                let m = choose|m: int| 0 <= m < n - 1 && #[trigger] keys[m] == x;
                assert(keys[m] == x);
            }
        }
    }
}

/// A key that none of the first `n` items has files none of them.
pub proof fn lemma_members_absent<T>(items: Seq<T>, keys: Seq<Seq<char>>, key: Seq<char>, n: int)
    requires
        0 <= n <= keys.len(),
        forall|m: int| 0 <= m < n ==> #[trigger] keys[m] != key,
    ensures
        members_upto(items, keys, key, n) == Seq::<T>::empty(),
    decreases n,
{
    if n > 0 {
        lemma_members_absent(items, keys, key, n - 1);
    }
}

/// A key that one of the first `n` items has files at least one of them.
pub proof fn lemma_members_present<T>(
    items: Seq<T>,
    keys: Seq<Seq<char>>,
    key: Seq<char>,
    n: int,
    m: int,
)
    requires
        0 <= m < n <= keys.len(),
        keys[m] == key,
    ensures
        members_upto(items, keys, key, n).len() > 0,
    decreases n,
{
    if n - 1 > m {
        lemma_members_present(items, keys, key, n - 1, m);
    }
}

/// What one more item does to the groups: it joins the group of its key
/// where there is one, and otherwise forms a new group at the place that the
/// key order gives it.
pub proof fn lemma_grouped_step<T>(items: Seq<T>, keys: Seq<Seq<char>>, n: int)
    requires
        0 <= n < keys.len(),
        keys.len() == items.len(),
    ensures
        ({
            let order = distinct_keys_upto(keys, n);
            let p = rank_from(order, keys[n], 0);
            let before = grouped_upto(items, keys, n);
            &&& 0 <= p <= order.len()
            &&& before.len() == order.len()
            &&& if p < order.len() && order[p] == keys[n] {
                grouped_upto(items, keys, n + 1) == before.update(p, before[p].push(items[n]))
            } else {
                grouped_upto(items, keys, n + 1) == before.insert(p, seq![items[n]])
            }
        }),
{
    let order = distinct_keys_upto(keys, n);
    let key = keys[n];
    let p = rank_from(order, key, 0);
    let before = grouped_upto(items, keys, n);
    let after = grouped_upto(items, keys, n + 1);
    let order2 = distinct_keys_upto(keys, n + 1);
    lemma_distinct_keys(keys, n);
    lemma_rank_bounds(order, key, 0);
    lemma_with_key(order, key);
    assert(order2 == with_key(order, key));
    if p < order.len() && order[p] == key {
        let target = before.update(p, before[p].push(items[n]));
        assert forall|g: int| 0 <= g < order.len() implies #[trigger] after[g] == target[g] by {
            if g != p {
                if g < p {
                    assert(lex_lt(order[g], order[p]));
                } else {
                    assert(lex_lt(order[p], order[g]));
                }
                lemma_lex_irreflexive(key);
            }
        }
        assert(after =~= target);
    } else {
        let target = before.insert(p, seq![items[n]]);
        assert(order2 == order.insert(p, key));
        assert(!order.contains(key));
        assert forall|m: int| 0 <= m < n implies #[trigger] keys[m] != key by {
            assert(order.contains(keys[m]));
        }
        lemma_members_absent(items, keys, key, n);
        assert forall|g: int| 0 <= g < order2.len() implies #[trigger] after[g] == target[g] by {
            if g < p {
                assert(order2[g] == order[g]);
                assert(order.contains(order[g]));
            } else if g == p {
                assert(order2[g] == key);
                assert(members_upto(items, keys, key, n + 1) =~= seq![items[n]]);
            } else {
                assert(order2[g] == order[g - 1]);
                assert(order.contains(order[g - 1]));
            }
        }
        assert(after =~= target);
    }
}

/// The groups hold the items, each item as often as the input does.
pub proof fn lemma_grouped_multiset<T>(items: Seq<T>, keys: Seq<Seq<char>>, n: int)
    requires
        0 <= n <= keys.len(),
        keys.len() == items.len(),
    ensures
        grouped_upto(items, keys, n).flatten().to_multiset() == items.take(n).to_multiset(),
    decreases n,
{
    if n == 0 {
        assert(grouped_upto(items, keys, 0) =~= Seq::<Seq<T>>::empty());
        assert(items.take(0) =~= Seq::<T>::empty());
    } else {
        lemma_grouped_multiset(items, keys, n - 1);
        lemma_grouped_step(items, keys, n - 1);
        let before = grouped_upto(items, keys, n - 1);
        let order = distinct_keys_upto(keys, n - 1);
        let p = rank_from(order, keys[n - 1], 0);
        let x = items[n - 1];
        if p < order.len() && order[p] == keys[n - 1] {
            lemma_flatten_update_push(before, p, x);
        } else {
            lemma_flatten_insert_single(before, p, x);
        }
        assert(items.take(n) =~= items.take(n - 1).push(x));
        to_multiset_build(items.take(n - 1), x);
    }
}

/// Every group holds at least one item, and all items of a group have the
/// group's key.
pub proof fn law_groups_are_nonempty<T>(items: Seq<T>, keys: Seq<Seq<char>>)
    requires
        keys.len() == items.len(),
    ensures
        forall|g: int|
            0 <= g < grouped(items, keys).len() ==> (#[trigger] grouped(items, keys)[g]).len() > 0,
{
    let n = items.len() as int;
    let order = distinct_keys_upto(keys, n);
    lemma_distinct_keys(keys, n);
    assert forall|g: int| 0 <= g < grouped(items, keys).len() implies (#[trigger] grouped(
        items,
        keys,
    )[g]).len() > 0 by {
        assert(order.contains(order[g]));
        let m = choose|m: int| 0 <= m < n && #[trigger] keys[m] == order[g];
        lemma_members_present(items, keys, order[g], n, m);
    }
}

/// Items with one key stay together: each group holds all items of its
/// key, in input order, and no two groups have the same key.
pub proof fn law_groups_hold_whole_keys<T>(items: Seq<T>, keys: Seq<Seq<char>>)
    requires
        keys.len() == items.len(),
    ensures
        grouped(items, keys).len() == distinct_keys_upto(keys, keys.len() as int).len(),
        forall|g: int|
            0 <= g < grouped(items, keys).len() ==> (#[trigger] grouped(items, keys)[g])
                == members_upto(
                items,
                keys,
                distinct_keys_upto(keys, keys.len() as int)[g],
                keys.len() as int,
            ),
        forall|g: int, h: int|
            0 <= g < h < grouped(items, keys).len() ==> (#[trigger] distinct_keys_upto(
                keys,
                keys.len() as int,
            )[g]) != (#[trigger] distinct_keys_upto(keys, keys.len() as int)[h]),
{
    let order = distinct_keys_upto(keys, keys.len() as int);
    lemma_distinct_keys(keys, keys.len() as int);
    assert forall|g: int, h: int| 0 <= g < h < order.len() implies (#[trigger] order[g]) != (
    #[trigger] order[h]) by {
        assert(lex_lt(order[g], order[h]));
        lemma_lex_irreflexive(order[g]);
    }
}

/// What the workers hold after the first `n` groups were dealt out is what
/// the first `n` groups hold.
proof fn lemma_loads_multiset<T>(groups: Seq<Seq<T>>, k: int, n: int)
    requires
        k > 0,
        0 <= n <= groups.len(),
    ensures
        Seq::new(
            smaller(groups.len() as int, k) as nat,
            |j: int| load_upto(groups, k, j, n),
        ).flatten().to_multiset() == groups.take(n).flatten().to_multiset(),
    decreases n,
{
    let w = smaller(groups.len() as int, k) as nat;
    let now = Seq::new(w, |j: int| load_upto(groups, k, j, n));
    if n == 0 {
        lemma_flatten_all_empty(now);
        assert(groups.take(0) =~= Seq::<Seq<T>>::empty());
    } else {
        let before = Seq::new(w, |j: int| load_upto(groups, k, j, n - 1));
        lemma_loads_multiset(groups, k, n - 1);
        lemma_slot_in_range(n - 1, groups.len() as int, k);
        let slot = (n - 1) % k;
        let g = groups[n - 1];
        assert(now =~= before.update(slot, before[slot] + g));
        lemma_flatten_update_add(before, slot, g);
        assert(groups.take(n) =~= groups.take(n - 1).push(g));
        groups.take(n - 1).lemma_flatten_push(g);
        lemma_multiset_commutative(groups.take(n - 1).flatten(), g);
    }
}

/// Dealing out whole groups loses nothing and adds nothing, leaves no batch
/// empty and makes at most `k` batches.
pub proof fn lemma_spread_is_partition<T>(groups: Seq<Seq<T>>, k: int)
    requires
        k > 0,
    ensures
        is_partition(spread(groups, k), groups.flatten(), k),
{
    let all = loads(groups, k);
    lemma_loads_multiset(groups, k, groups.len() as int);
    assert(groups.take(groups.len() as int) =~= groups);
    lemma_nonempty_flatten(all, all.len() as int);
    assert(all.take(all.len() as int) =~= all);
}

/// Grouping by key and dealing out the groups splits the input: every item
/// is in exactly one batch, no batch is empty, and there are at most `k`
/// batches.
pub proof fn lemma_grouped_spread_is_partition<T>(items: Seq<T>, keys: Seq<Seq<char>>, k: int)
    requires
        k > 0,
        keys.len() == items.len(),
    ensures
        is_partition(spread(grouped(items, keys), k), items, k),
{
    lemma_spread_is_partition(grouped(items, keys), k);
    lemma_grouped_multiset(items, keys, items.len() as int);
    assert(items.take(items.len() as int) =~= items);
}

} // verus!
