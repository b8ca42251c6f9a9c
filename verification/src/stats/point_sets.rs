//! Grouping polynomial queries by the set of rotations they are opened at.
//!
//! Queries sharing a rotation set are opened together. Sets are listed in
//! the order of their five flags (first, previous, current, next, last),
//! `false` before `true`, which is the order of their five-bit key.

use vstd::prelude::*;

use super::pcs::total_len;
use super::rotation_set::RotationSet;

verus! {

/// Number of queries in `q` whose rotation set has key `k`.
pub open spec fn count_key(q: Seq<RotationSet>, k: nat) -> nat
    decreases q.len(),
{
    if q.len() == 0 {
        0
    } else {
        count_key(q.drop_last(), k) + if q.last().spec_key() == k { 1nat } else { 0nat }
    }
}

/// The rotation set whose key is `k` (for `k < 32`).
pub open spec fn rot_of_key(k: nat) -> RotationSet {
    RotationSet { first: k >= 16, prev: k % 16 >= 8, curr: k % 8 >= 4, next: k % 4 >= 2, last: k % 2 == 1 }
}

/// The keys below `n` that some query of `q` has, in increasing order.
pub open spec fn present_keys(q: Seq<RotationSet>, n: nat) -> Seq<nat>
    decreases n,
{
    if n == 0 {
        Seq::empty()
    } else {
        let r = present_keys(q, (n - 1) as nat);
        if count_key(q, (n - 1) as nat) > 0 {
            r.push((n - 1) as nat)
        } else {
            r
        }
    }
}

/// The distinct rotation sets of `q`, by key, in increasing order.
pub open spec fn point_set_keys(q: Seq<RotationSet>) -> Seq<nat> {
    present_keys(q, 32)
}

/// Number of rotations of the sets with keys `ks`.
pub open spec fn sizes_of(ks: Seq<nat>) -> Seq<usize> {
    Seq::new(ks.len(), |i: int| rot_of_key(ks[i]).spec_count() as usize)
}

/// One entry per query of `q` at the set with key `k`, holding the number of
/// rotations of the set.
pub open spec fn set_entry(q: Seq<RotationSet>, k: nat) -> Seq<usize> {
    Seq::new(count_key(q, k), |j: int| rot_of_key(k).spec_count() as usize)
}

/// The entries of the sets with keys `ks`.
pub open spec fn entries_of(q: Seq<RotationSet>, ks: Seq<nat>) -> Seq<Seq<usize>> {
    Seq::new(ks.len(), |i: int| set_entry(q, ks[i]))
}

/// Number of rotations of each distinct rotation set.
pub open spec fn spec_point_set_sizes(q: Seq<RotationSet>) -> Seq<usize> {
    sizes_of(point_set_keys(q))
}

/// For each distinct rotation set, one entry per query opened at it, holding
/// the number of rotations of the set.
pub open spec fn spec_commitment_map(q: Seq<RotationSet>) -> Seq<Seq<usize>> {
    entries_of(q, point_set_keys(q))
}

/// Largest number of queries among the keys `ks`, 1 when there is none.
pub open spec fn max_queries(q: Seq<RotationSet>, ks: Seq<nat>) -> nat
    decreases ks.len(),
{
    if ks.len() == 0 {
        1
    } else if ks.len() == 1 {
        count_key(q, ks[0])
    } else {
        let m = max_queries(q, ks.drop_last());
        let c = count_key(q, ks.last());
        if c > m { c } else { m }
    }
}

/// Largest number of queries opened at one rotation set (1 when there is
/// no query).
pub open spec fn spec_max_per_set(q: Seq<RotationSet>) -> nat {
    max_queries(q, point_set_keys(q))
}

pub proof fn lemma_count_key_bound(q: Seq<RotationSet>, k: nat)
    ensures
        count_key(q, k) <= q.len(),
    decreases q.len(),
{
    if q.len() > 0 {
        lemma_count_key_bound(q.drop_last(), k);
    }
}

/// A key is the key of exactly one rotation set.
pub proof fn lemma_rot_of_key(r: RotationSet)
    ensures
        rot_of_key(r.spec_key()) == r,
        r.spec_key() < 32,
{
}

pub proof fn lemma_key_nonempty(k: nat)
    requires
        1 <= k < 32,
    ensures
        rot_of_key(k).spec_count() >= 1,
        rot_of_key(k).spec_key() == k,
{
}

/// The present keys are increasing, below `n`, and each has queries.
pub proof fn lemma_present_keys(q: Seq<RotationSet>, n: nat)
    ensures
        forall|i: int| 0 <= i < present_keys(q, n).len() ==> #[trigger] present_keys(q, n)[i] < n,
        forall|i: int| 0 <= i < present_keys(q, n).len() ==> count_key(q, #[trigger] present_keys(q, n)[i]) > 0,
        forall|i: int, j: int| 0 <= i < j < present_keys(q, n).len() ==> present_keys(q, n)[i] < present_keys(q, n)[j],
        present_keys(q, n).len() <= n,
    decreases n,
{
    if n > 0 {
        lemma_present_keys(q, (n - 1) as nat);
    }
}

/// A key below `n` with a query is present.
pub proof fn lemma_present_keys_has(q: Seq<RotationSet>, n: nat, k: nat)
    requires
        k < n,
        count_key(q, k) > 0,
    ensures
        present_keys(q, n).contains(k),
    decreases n,
{
    if k < n - 1 {
        lemma_present_keys_has(q, (n - 1) as nat, k);
        let r = present_keys(q, (n - 1) as nat);
        let i = choose|i: int| 0 <= i < r.len() && r[i] == k;
        if count_key(q, (n - 1) as nat) > 0 {
            assert(r.push((n - 1) as nat)[i] == k);
        }
    } else {
        assert(present_keys(q, n).last() == k);
    }
}

/// The key of the last query counts it.
pub proof fn lemma_count_key_last(q: Seq<RotationSet>)
    requires
        q.len() > 0,
    ensures
        count_key(q, q.last().spec_key()) > 0,
{
}

/// Every query is at a non-empty rotation set: so is every point set, and
/// there is one as soon as there is a query.
pub proof fn lemma_point_sets_nonempty(q: Seq<RotationSet>)
    requires
        forall|i: int| 0 <= i < q.len() ==> !(#[trigger] q[i]).spec_is_empty(),
    ensures
        forall|i: int| 0 <= i < spec_point_set_sizes(q).len() ==> #[trigger] spec_point_set_sizes(q)[i] >= 1,
        q.len() > 0 ==> spec_point_set_sizes(q).len() >= 1,
{
    lemma_present_keys(q, 32);
    assert(count_key(q, 0) == 0) by {
        lemma_count_key_zero(q);
    }
    assert forall|i: int| 0 <= i < spec_point_set_sizes(q).len() implies #[trigger] spec_point_set_sizes(q)[i] >= 1 by {
        let k = point_set_keys(q)[i];
        lemma_key_nonempty(k);
    }
    if q.len() > 0 {
        lemma_count_key_last(q);
        lemma_rot_of_key(q.last());
        lemma_present_keys_has(q, 32, q.last().spec_key());
    }
}

proof fn lemma_count_key_zero(q: Seq<RotationSet>)
    requires
        forall|i: int| 0 <= i < q.len() ==> !(#[trigger] q[i]).spec_is_empty(),
    ensures
        count_key(q, 0) == 0,
    decreases q.len(),
{
    if q.len() > 0 {
        assert forall|i: int| 0 <= i < q.drop_last().len() implies !(#[trigger] q.drop_last()[i]).spec_is_empty() by {
            assert(q.drop_last()[i] == q[i]);
        }
        lemma_count_key_zero(q.drop_last());
        assert(!q[q.len() - 1].spec_is_empty());
    }
}

/// Counts the queries of each key.
pub fn count_queries(q: &Vec<RotationSet>) -> (c: Vec<usize>)
    ensures
        c@.len() == 32,
        forall|k: int| 0 <= k < 32 ==> #[trigger] c@[k] == count_key(q@, k as nat),
{
    let mut c: Vec<usize> = Vec::new();
    let mut k: usize = 0;
    while k < 32
        invariant
            k <= 32,
            c@.len() == k,
            forall|j: int| 0 <= j < k ==> #[trigger] c@[j] == 0,
        decreases 32 - k,
    {
        c.push(0);
        k = k + 1;
    }
    let n = q.len();
    let mut i: usize = 0;
    while i < n
        invariant
            i <= n,
            n == q@.len(),
            c@.len() == 32,
            forall|j: int| 0 <= j < 32 ==> #[trigger] c@[j] == count_key(q@.take(i as int), j as nat),
        decreases n - i,
    {
        let key = q[i].key();
        proof {
            assert(q@.take(i + 1).drop_last() =~= q@.take(i as int));
            assert(q@.take(i + 1).last() == q@[i as int]);
            lemma_count_key_bound(q@.take(i as int), key as nat);
        }
        let old_count = c[key];
        c.set(key, old_count + 1);
        i = i + 1;
    }
    assert(q@.take(n as int) =~= q@);
    c
}

/// Groups the queries by rotation set: the commitment map, the number of
/// rotations of each set, the number of sets and the largest number of
/// queries opened at one set.
pub fn group_queries(q: &Vec<RotationSet>) -> (r: (Vec<Vec<usize>>, Vec<usize>, usize, usize))
    ensures
        Seq::new(r.0@.len(), |i: int| r.0@[i]@) == spec_commitment_map(q@),
        r.1@ == spec_point_set_sizes(q@),
        r.2 == point_set_keys(q@).len(),
        r.3 == spec_max_per_set(q@),
{
    let counts = count_queries(q);
    let mut map: Vec<Vec<usize>> = Vec::new();
    let mut sizes: Vec<usize> = Vec::new();
    let mut best: usize = 1;
    let mut k: usize = 0;
    proof {
        assert(Seq::new(map@.len(), |i: int| map@[i]@) =~= entries_of(q@, present_keys(q@, 0)));
        assert(sizes@ =~= sizes_of(present_keys(q@, 0)));
    }
    while k < 32
        invariant
            k <= 32,
            counts@.len() == 32,
            forall|j: int| 0 <= j < 32 ==> #[trigger] counts@[j] == count_key(q@, j as nat),
            Seq::new(map@.len(), |i: int| map@[i]@) == entries_of(q@, present_keys(q@, k as nat)),
            sizes@ == sizes_of(present_keys(q@, k as nat)),
            best == max_queries(q@, present_keys(q@, k as nat)),
        decreases 32 - k,
    {
        let nb = counts[k];
        if nb > 0 {
            let rot = RotationSet::new(k >= 16, k % 16 >= 8, k % 8 >= 4, k % 4 >= 2, k % 2 == 1);
            let size = rot.count();
            let mut entry: Vec<usize> = Vec::new();
            let mut j: usize = 0;
            while j < nb
                invariant
                    j <= nb,
                    entry@ == Seq::new(j as nat, |i: int| size),
                decreases nb - j,
            {
                entry.push(size);
                j = j + 1;
                assert(entry@ =~= Seq::new(j as nat, |i: int| size));
            }
            let ghost old_map = Seq::new(map@.len(), |i: int| map@[i]@);
            let ghost pk = present_keys(q@, k as nat);
            map.push(entry);
            sizes.push(size);
            proof {
                assert(rot == rot_of_key(k as nat));
                assert(entry@ =~= set_entry(q@, k as nat));
                assert(map@[map@.len() - 1]@ == entry@);
                assert(old_map == entries_of(q@, pk));
                assert forall|i: int| 0 <= i < old_map.len() implies map@[i]@ == set_entry(q@, pk.push(k as nat)[i]) by {
                    assert(map@[i]@ == old_map[i]);
                    assert(pk.push(k as nat)[i] == pk[i]);
                }
                assert(present_keys(q@, (k + 1) as nat) == pk.push(k as nat));
                assert(Seq::new(map@.len(), |i: int| map@[i]@) =~= entries_of(q@, pk.push(k as nat)));
                assert(sizes@ =~= sizes_of(pk.push(k as nat)));
                assert(pk.push(k as nat).drop_last() =~= pk);
                lemma_present_keys(q@, k as nat);
            }
            if map.len() == 1 {
                best = nb;
            } else if nb > best {
                best = nb;
            }
        } else {
            proof {
                assert(present_keys(q@, (k + 1) as nat) == present_keys(q@, k as nat));
            }
        }
        k = k + 1;
    }
    let nb_sets = sizes.len();
    (map, sizes, nb_sets, best)
}

/// Number of queries whose key is below `n`.
pub open spec fn key_sum(q: Seq<RotationSet>, n: nat) -> nat
    decreases n,
{
    if n == 0 {
        0
    } else {
        key_sum(q, (n - 1) as nat) + count_key(q, (n - 1) as nat)
    }
}

proof fn lemma_key_sum_push(q: Seq<RotationSet>, x: RotationSet, n: nat)
    ensures
        key_sum(q.push(x), n) == key_sum(q, n) + if x.spec_key() < n { 1nat } else { 0nat },
    decreases n,
{
    if n > 0 {
        lemma_key_sum_push(q, x, (n - 1) as nat);
        assert(q.push(x).drop_last() =~= q);
    }
}

proof fn lemma_key_sum_empty(q: Seq<RotationSet>, n: nat)
    requires
        q.len() == 0,
    ensures
        key_sum(q, n) == 0,
    decreases n,
{
    if n > 0 {
        lemma_key_sum_empty(q, (n - 1) as nat);
    }
}

proof fn lemma_key_sum_all(q: Seq<RotationSet>)
    ensures
        key_sum(q, 32) == q.len(),
    decreases q.len(),
{
    if q.len() == 0 {
        lemma_key_sum_empty(q, 32);
    } else {
        lemma_key_sum_all(q.drop_last());
        lemma_key_sum_push(q.drop_last(), q.last(), 32);
        lemma_rot_of_key(q.last());
        assert(q.drop_last().push(q.last()) =~= q);
    }
}

proof fn lemma_entries_total(q: Seq<RotationSet>, n: nat)
    ensures
        total_len(entries_of(q, present_keys(q, n))) == key_sum(q, n),
    decreases n,
{
    if n > 0 {
        lemma_entries_total(q, (n - 1) as nat);
        let pk = present_keys(q, (n - 1) as nat);
        if count_key(q, (n - 1) as nat) > 0 {
            assert(entries_of(q, pk.push((n - 1) as nat)).drop_last() =~= entries_of(q, pk));
        }
    }
}

/// The point sets share out the queries: every query is opened at exactly
/// one set, so the entries of the commitment map add up to the number of
/// queries; the sets are distinct and in increasing key order.
pub proof fn lemma_point_sets_partition(q: Seq<RotationSet>)
    ensures
        total_len(spec_commitment_map(q)) == q.len(),
        spec_commitment_map(q).len() == spec_point_set_sizes(q).len(),
        forall|i: int, j: int|
            0 <= i < j < point_set_keys(q).len() ==> point_set_keys(q)[i] < point_set_keys(q)[j],
        forall|i: int|
            0 <= i < spec_commitment_map(q).len() ==> #[trigger] spec_commitment_map(q)[i].len() > 0,
{
    lemma_entries_total(q, 32);
    lemma_key_sum_all(q);
    lemma_present_keys(q, 32);
}

/// Counting a key over two sequences of queries adds up.
pub proof fn lemma_count_key_append(a: Seq<RotationSet>, b: Seq<RotationSet>, k: nat)
    ensures
        count_key(a + b, k) == count_key(a, k) + count_key(b, k),
    decreases b.len(),
{
    if b.len() == 0 {
        assert(a + b =~= a);
    } else {
        lemma_count_key_append(a, b.drop_last(), k);
        assert((a + b).drop_last() =~= a + b.drop_last());
    }
}

/// Queries with the same keys present have the same present keys.
pub proof fn lemma_present_keys_same(q: Seq<RotationSet>, r: Seq<RotationSet>, n: nat)
    requires
        forall|k: nat| k < n ==> (count_key(q, k) > 0 <==> count_key(r, k) > 0),
    ensures
        present_keys(q, n) == present_keys(r, n),
    decreases n,
{
    if n > 0 {
        lemma_present_keys_same(q, r, (n - 1) as nat);
    }
}

} // verus!
