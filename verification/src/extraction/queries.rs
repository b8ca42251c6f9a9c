//! The queries of a proof grouped for a multi-open verifier: each
//! commitment with the rotations it is opened at (its point set) and the
//! evaluations claimed there, and the distinct point sets.

use vstd::prelude::*;

use super::msm::{Commitments, Evaluations};
use super::rotation_description::RotationDescription;
use crate::stats::pcs::point_sets_ok;

verus! {

/// A query: a commitment opened at a rotation, with the evaluation claimed.
#[derive(Clone, Copy, Debug, PartialEq, Eq, Structural)]
pub struct Query {
    pub commitment: Commitments,
    pub point: RotationDescription,
    pub evaluation: Evaluations,
}

/// A commitment, the index of its point set, its evaluations and its
/// rotations (in increasing order, one evaluation per rotation).
#[derive(Clone, Debug)]
pub struct CommitmentData {
    pub commitment: Commitments,
    pub point_set_index: usize,
    pub evaluations: Vec<Evaluations>,
    pub points: Vec<RotationDescription>,
}

/// The position of a rotation in their order: the last row, the previous,
/// the current and the next one, then the other offsets by value.
pub open spec fn rotation_key(r: RotationDescription) -> int {
    match r {
        RotationDescription::Last => -2147483652,
        RotationDescription::Previous => -2147483651,
        RotationDescription::Current => -2147483650,
        RotationDescription::Next => -2147483649,
        RotationDescription::Custom(n) => n as int,
    }
}

/// The key of a rotation.
pub fn rotation_key_of(r: &RotationDescription) -> (k: i64)
    ensures
        k == rotation_key(*r),
{
    match r {
        RotationDescription::Last => -2147483652,
        RotationDescription::Previous => -2147483651,
        RotationDescription::Current => -2147483650,
        RotationDescription::Next => -2147483649,
        RotationDescription::Custom(n) => *n as i64,
    }
}

/// Rotations with the same key are the same.
proof fn lemma_key_injective(a: RotationDescription, b: RotationDescription)
    ensures
        rotation_key(a) == rotation_key(b) ==> a == b,
{
}

/// The commitments of the queries, each once, in order of first appearance.
pub open spec fn commitment_order(qs: Seq<Query>) -> Seq<Commitments>
    decreases qs.len(),
{
    if qs.len() == 0 {
        Seq::empty()
    } else {
        let r = commitment_order(qs.drop_last());
        if r.contains(qs.last().commitment) {
            r
        } else {
            r.push(qs.last().commitment)
        }
    }
}

/// The queries of commitment `c`, in order.
pub open spec fn queries_of(qs: Seq<Query>, c: Commitments) -> Seq<Query>
    decreases qs.len(),
{
    if qs.len() == 0 {
        Seq::empty()
    } else if qs.last().commitment == c {
        queries_of(qs.drop_last(), c).push(qs.last())
    } else {
        queries_of(qs.drop_last(), c)
    }
}

/// Number of rotations of `s` before `x` in their order.
pub open spec fn count_before(s: Seq<RotationDescription>, x: RotationDescription) -> nat
    decreases s.len(),
{
    if s.len() == 0 {
        0
    } else {
        count_before(s.drop_last(), x) + if rotation_key(s.last()) < rotation_key(x) { 1nat } else { 0nat }
    }
}

/// `x` added to the increasing sequence `s`, unless it is there already.
pub open spec fn insert_point(s: Seq<RotationDescription>, x: RotationDescription) -> Seq<RotationDescription> {
    if s.contains(x) {
        s
    } else {
        s.take(count_before(s, x) as int) + seq![x] + s.skip(count_before(s, x) as int)
    }
}

/// The rotations of the queries, each once, in increasing order.
pub open spec fn point_set(qs: Seq<Query>) -> Seq<RotationDescription>
    decreases qs.len(),
{
    if qs.len() == 0 {
        Seq::empty()
    } else {
        insert_point(point_set(qs.drop_last()), qs.last().point)
    }
}

/// The rotations increase strictly.
pub open spec fn increasing(s: Seq<RotationDescription>) -> bool {
    forall|i: int, j: int| 0 <= i < j < s.len() ==> rotation_key(s[i]) < rotation_key(s[j])
}

/// The point set of each commitment, in the commitments' order.
pub open spec fn grouped_points(qs: Seq<Query>) -> Seq<Seq<RotationDescription>> {
    let order = commitment_order(qs);
    Seq::new(order.len(), |i: int| point_set(queries_of(qs, order[i])))
}

/// The point sets, each once, in order of first appearance.
pub open spec fn distinct_sets(ss: Seq<Seq<RotationDescription>>) -> Seq<Seq<RotationDescription>>
    decreases ss.len(),
{
    if ss.len() == 0 {
        Seq::empty()
    } else {
        let r = distinct_sets(ss.drop_last());
        if r.contains(ss.last()) {
            r
        } else {
            r.push(ss.last())
        }
    }
}

/// Index of the first query at rotation `p`, -1 when there is none.
pub open spec fn first_at(qs: Seq<Query>, p: RotationDescription) -> int
    decreases qs.len(),
{
    if qs.len() == 0 {
        -1
    } else {
        let j = first_at(qs.drop_last(), p);
        if j >= 0 {
            j
        } else if qs.last().point == p {
            qs.len() - 1
        } else {
            -1
        }
    }
}

/// Position of `x` in `ss`, -1 when it is not there.
pub open spec fn position_of(ss: Seq<Seq<RotationDescription>>, x: Seq<RotationDescription>) -> int
    decreases ss.len(),
{
    if ss.len() == 0 {
        -1
    } else {
        let j = position_of(ss.drop_last(), x);
        if j >= 0 {
            j
        } else if ss.last() == x {
            ss.len() - 1
        } else {
            -1
        }
    }
}

/// What is known of each commitment: the commitment, the index of its point
/// set among the distinct ones, its evaluations by increasing rotation, and
/// its rotations.
pub type CommitmentView = (Commitments, int, Seq<Evaluations>, Seq<RotationDescription>);

/// The data of each commitment, in order of first appearance.
pub open spec fn spec_commitment_data(qs: Seq<Query>) -> Seq<CommitmentView> {
    let order = commitment_order(qs);
    let sets = distinct_sets(grouped_points(qs));
    Seq::new(
        order.len(),
        |i: int| {
            let q = queries_of(qs, order[i]);
            let pts = point_set(q);
            (order[i], position_of(sets, pts), Seq::new(pts.len(), |k: int| q[first_at(q, pts[k])].evaluation), pts)
        },
    )
}

/// The data as mathematical values.
pub open spec fn data_view(v: Seq<CommitmentData>) -> Seq<CommitmentView> {
    Seq::new(v.len(), |i: int| (v[i].commitment, v[i].point_set_index as int, v[i].evaluations@, v[i].points@))
}

/// No commitment is queried twice at the same rotation.
pub open spec fn no_repeated_query(qs: Seq<Query>) -> bool {
    forall|i: int, j: int|
        0 <= i < j < qs.len() && qs[i].commitment == qs[j].commitment ==> qs[i].point != qs[j].point
}

proof fn lemma_count_before(s: Seq<RotationDescription>, x: RotationDescription, p: int)
    requires
        increasing(s),
        0 <= p <= s.len(),
        forall|k: int| 0 <= k < p ==> rotation_key(s[k]) < rotation_key(x),
        forall|k: int| p <= k < s.len() ==> rotation_key(s[k]) >= rotation_key(x),
    ensures
        count_before(s, x) == p,
    decreases s.len(),
{
    if s.len() > 0 {
        let q = if p == s.len() { p - 1 } else { p };
        lemma_count_before(s.drop_last(), x, q);
    }
}

/// Inserting at the first position not before `x` keeps the sequence
/// increasing and gives `insert_point`.
proof fn lemma_insert_point(s: Seq<RotationDescription>, x: RotationDescription, p: int)
    requires
        increasing(s),
        0 <= p <= s.len(),
        forall|k: int| 0 <= k < p ==> rotation_key(s[k]) < rotation_key(x),
        forall|k: int| p <= k < s.len() ==> rotation_key(s[k]) >= rotation_key(x),
    ensures
        s.contains(x) <==> (p < s.len() && s[p] == x),
        !s.contains(x) ==> insert_point(s, x) == s.insert(p, x),
        increasing(insert_point(s, x)),
{
    lemma_count_before(s, x, p);
    if s.contains(x) {
        let k = choose|k: int| 0 <= k < s.len() && s[k] == x;
        if k > p {
            assert(rotation_key(s[p]) < rotation_key(s[k]));
        }
    } else {
        assert(s.take(p) + seq![x] + s.skip(p) =~= s.insert(p, x));
        if p < s.len() {
            assert(s[p] != x);
            lemma_key_injective(s[p], x);
        }
        let t = s.insert(p, x);
        assert forall|i: int, j: int| 0 <= i < j < t.len() implies rotation_key(t[i]) < rotation_key(t[j]) by {
            if i < p && j < p {
            } else if i < p && j == p {
            } else if i < p {
                assert(t[j] == s[j - 1]);
            } else if i == p {
                assert(t[j] == s[j - 1]);
                if j - 1 > p {
                    assert(rotation_key(s[p]) < rotation_key(s[j - 1]));
                }
            } else {
                assert(t[i] == s[i - 1] && t[j] == s[j - 1]);
            }
        }
    }
}

/// The point set increases, and every point is the rotation of a query.
pub proof fn lemma_point_set(q: Seq<Query>)
    ensures
        increasing(point_set(q)),
        forall|k: int|
            0 <= k < point_set(q).len() ==> exists|j: int| 0 <= j < q.len() && q[j].point == #[trigger] point_set(q)[k],
    decreases q.len(),
{
    if q.len() > 0 {
        let d = q.drop_last();
        let s = point_set(d);
        let x = q.last().point;
        lemma_point_set(d);
        let p = first_not_before(s, x);
        lemma_insert_point(s, x, p);
        let r = point_set(q);
        assert forall|k: int| 0 <= k < r.len() implies exists|j: int| 0 <= j < q.len() && q[j].point == #[trigger] r[k] by {
            if s.contains(x) {
                let j = choose|j: int| 0 <= j < d.len() && d[j].point == s[k];
                assert(q[j] == d[j]);
            } else {
                if k == p {
                    assert(q[q.len() - 1].point == r[k]);
                } else {
                    let kk = if k < p { k } else { k - 1 };
                    assert(r[k] == s[kk]);
                    let j = choose|j: int| 0 <= j < d.len() && d[j].point == s[kk];
                    assert(q[j] == d[j]);
                }
            }
        }
    }
}

/// The first position of an increasing sequence not before `x`.
proof fn first_not_before(s: Seq<RotationDescription>, x: RotationDescription) -> (p: int)
    requires
        increasing(s),
    ensures
        0 <= p <= s.len(),
        forall|k: int| 0 <= k < p ==> rotation_key(s[k]) < rotation_key(x),
        forall|k: int| p <= k < s.len() ==> rotation_key(s[k]) >= rotation_key(x),
    decreases s.len(),
{
    if s.len() == 0 {
        0
    } else if rotation_key(s.last()) < rotation_key(x) {
        assert forall|k: int| 0 <= k < s.len() implies rotation_key(s[k]) < rotation_key(x) by {
            if k < s.len() - 1 {
                assert(rotation_key(s[k]) < rotation_key(s[s.len() - 1]));
            }
        }
        s.len() as int
    } else {
        let p = first_not_before(s.drop_last(), x);
        assert forall|k: int| 0 <= k < p implies rotation_key(s[k]) < rotation_key(x) by {
            assert(s[k] == s.drop_last()[k]);
        }
        assert forall|k: int| p <= k < s.len() implies rotation_key(s[k]) >= rotation_key(x) by {
            if k < s.len() - 1 {
                assert(s[k] == s.drop_last()[k]);
            }
        }
        p
    }
}

proof fn lemma_first_at(q: Seq<Query>, p: RotationDescription, j: int)
    requires
        0 <= j < q.len(),
        q[j].point == p,
        forall|k: int| 0 <= k < j ==> q[k].point != p,
    ensures
        first_at(q, p) == j,
    decreases q.len(),
{
    if j < q.len() - 1 {
        lemma_first_at(q.drop_last(), p, j);
    } else {
        lemma_first_at_none(q.drop_last(), p);
    }
}

proof fn lemma_first_at_none(q: Seq<Query>, p: RotationDescription)
    requires
        forall|k: int| 0 <= k < q.len() ==> q[k].point != p,
    ensures
        first_at(q, p) == -1,
    decreases q.len(),
{
    if q.len() > 0 {
        lemma_first_at_none(q.drop_last(), p);
    }
}

proof fn lemma_position_of(ss: Seq<Seq<RotationDescription>>, x: Seq<RotationDescription>, j: int)
    requires
        0 <= j < ss.len(),
        ss[j] == x,
        forall|k: int| 0 <= k < j ==> ss[k] != x,
    ensures
        position_of(ss, x) == j,
    decreases ss.len(),
{
    if j < ss.len() - 1 {
        lemma_position_of(ss.drop_last(), x, j);
    } else {
        lemma_position_of_none(ss.drop_last(), x);
    }
}

proof fn lemma_position_of_none(ss: Seq<Seq<RotationDescription>>, x: Seq<RotationDescription>)
    requires
        forall|k: int| 0 <= k < ss.len() ==> ss[k] != x,
    ensures
        position_of(ss, x) == -1,
    decreases ss.len(),
{
    if ss.len() > 0 {
        lemma_position_of_none(ss.drop_last(), x);
    }
}

/// Every set is among the distinct ones.
proof fn lemma_distinct_sets_contains(ss: Seq<Seq<RotationDescription>>)
    ensures
        forall|i: int| 0 <= i < ss.len() ==> distinct_sets(ss).contains(#[trigger] ss[i]),
    decreases ss.len(),
{
    if ss.len() > 0 {
        let d = ss.drop_last();
        lemma_distinct_sets_contains(d);
        let r = distinct_sets(d);
        assert forall|i: int| 0 <= i < ss.len() implies distinct_sets(ss).contains(#[trigger] ss[i]) by {
            if i < ss.len() - 1 {
                assert(ss[i] == d[i]);
                assert(r.contains(d[i]));
                if !r.contains(ss.last()) {
                    let k = choose|k: int| 0 <= k < r.len() && r[k] == d[i];
                    assert(r.push(ss.last())[k] == d[i]);
                }
            } else {
                if !r.contains(ss.last()) {
                    assert(r.push(ss.last())[r.len() as int] == ss.last());
                }
            }
        }
    }
}

/// The queries of a commitment in a longer list start with those of a
/// prefix.
proof fn lemma_queries_of_step(qs: Seq<Query>, i: int, c: Commitments)
    requires
        0 <= i < qs.len(),
    ensures
        queries_of(qs.take(i + 1), c) == if qs[i].commitment == c {
            queries_of(qs.take(i), c).push(qs[i])
        } else {
            queries_of(qs.take(i), c)
        },
{
    assert(qs.take(i + 1).drop_last() =~= qs.take(i));
}



/// The commitments of the queries, each once, in order of first appearance.
fn order_of(queries: &Vec<Query>) -> (r: Vec<Commitments>)
    ensures
        r@ == commitment_order(queries@),
{
    let mut r: Vec<Commitments> = Vec::new();
    let n = queries.len();
    let mut i: usize = 0;
    while i < n
        invariant
            i <= n,
            n == queries@.len(),
            r@ == commitment_order(queries@.take(i as int)),
        decreases n - i,
    {
        let c = queries[i].commitment;
        proof {
            assert(queries@.take(i + 1).drop_last() =~= queries@.take(i as int));
        }
        let m = r.len();
        let mut j: usize = 0;
        let mut found = false;
        while j < m && !found
            invariant
                j <= m,
                m == r@.len(),
                found ==> r@.contains(c),
                !found ==> forall|t: int| 0 <= t < j ==> r@[t] != c,
            decreases m - j + if found { 0int } else { 1int },
        {
            if r[j] == c {
                found = true;
            } else {
                j = j + 1;
            }
        }
        if !found {
            r.push(c);
        }
        i = i + 1;
    }
    assert(queries@.take(n as int) =~= queries@);
    r
}

/// The point set of commitment `c`.
fn point_set_of(queries: &Vec<Query>, c: Commitments) -> (pts: Vec<RotationDescription>)
    ensures
        pts@ == point_set(queries_of(queries@, c)),
        increasing(pts@),
{
    let mut pts: Vec<RotationDescription> = Vec::new();
    let n = queries.len();
    let mut i: usize = 0;
    while i < n
        invariant
            i <= n,
            n == queries@.len(),
            pts@ == point_set(queries_of(queries@.take(i as int), c)),
            increasing(pts@),
        decreases n - i,
    {
        proof {
            lemma_queries_of_step(queries@, i as int, c);
        }
        if queries[i].commitment == c {
            let x = queries[i].point;
            let kx = rotation_key_of(&x);
            proof {
                let q = queries_of(queries@.take(i + 1), c);
                assert(q.drop_last() == queries_of(queries@.take(i as int), c));
                assert(q.last().point == x);
            }
            let m = pts.len();
            let mut p: usize = 0;
            while p < m && rotation_key_of(&pts[p]) < kx
                invariant
                    p <= m,
                    m == pts@.len(),
                    kx == rotation_key(x),
                    forall|k: int| 0 <= k < p ==> rotation_key(pts@[k]) < rotation_key(x),
                decreases m - p,
            {
                p = p + 1;
            }
            proof {
                assert forall|k: int| p <= k < pts@.len() implies rotation_key(pts@[k]) >= rotation_key(x) by {
                    if k > p {
                        assert(rotation_key(pts@[p as int]) < rotation_key(pts@[k]));
                    }
                }
                lemma_insert_point(pts@, x, p as int);
            }
            if !(p < m && pts[p] == x) {
                pts.insert(p, x);
            }
        }
        i = i + 1;
    }
    assert(queries@.take(n as int) =~= queries@);
    pts
}

fn same_sets(a: &Vec<RotationDescription>, b: &Vec<RotationDescription>) -> (r: bool)
    ensures
        r == (a@ == b@),
{
    let n = a.len();
    if n != b.len() {
        return false;
    }
    let mut i: usize = 0;
    while i < n
        invariant
            i <= n,
            n == a@.len(),
            n == b@.len(),
            a@.take(i as int) == b@.take(i as int),
        decreases n - i,
    {
        if a[i] != b[i] {
            assert(a@[i as int] != b@[i as int]);
            return false;
        }
        i = i + 1;
        assert(a@.take(i as int) =~= a@.take((i - 1) as int).push(a@[i - 1]));
        assert(b@.take(i as int) =~= b@.take((i - 1) as int).push(b@[i - 1]));
    }
    assert(a@.take(n as int) =~= a@);
    assert(b@.take(n as int) =~= b@);
    true
}

fn copy_set(v: &Vec<RotationDescription>) -> (r: Vec<RotationDescription>)
    ensures
        r@ == v@,
{
    let mut r: Vec<RotationDescription> = Vec::new();
    let n = v.len();
    let mut i: usize = 0;
    while i < n
        invariant
            i <= n,
            n == v@.len(),
            r@ == v@.take(i as int),
        decreases n - i,
    {
        r.push(v[i]);
        i = i + 1;
        assert(r@ =~= v@.take(i as int));
    }
    assert(v@.take(n as int) =~= v@);
    r
}

/// Position of the set in the list, if it is there.
fn find_set(sets: &Vec<Vec<RotationDescription>>, x: &Vec<RotationDescription>) -> (r: Option<usize>)
    ensures
        match r {
            Some(j) => j < sets@.len() && sets@[j as int]@ == x@ && forall|k: int| 0 <= k < j ==> sets@[k]@ != x@,
            None => forall|k: int| 0 <= k < sets@.len() ==> sets@[k]@ != x@,
        },
{
    let n = sets.len();
    let mut j: usize = 0;
    while j < n
        invariant
            j <= n,
            n == sets@.len(),
            forall|k: int| 0 <= k < j ==> sets@[k]@ != x@,
        decreases n - j,
    {
        if same_sets(&sets[j], x) {
            return Some(j);
        }
        j = j + 1;
    }
    None
}

/// The views of a list of sets.
pub open spec fn sets_view(v: Seq<Vec<RotationDescription>>) -> Seq<Seq<RotationDescription>> {
    Seq::new(v.len(), |i: int| v[i]@)
}

/// The queries of commitment `c`, in order.
fn queries_vec(queries: &Vec<Query>, c: Commitments) -> (r: Vec<Query>)
    ensures
        r@ == queries_of(queries@, c),
{
    let mut r: Vec<Query> = Vec::new();
    let n = queries.len();
    let mut i: usize = 0;
    while i < n
        invariant
            i <= n,
            n == queries@.len(),
            r@ == queries_of(queries@.take(i as int), c),
        decreases n - i,
    {
        proof {
            lemma_queries_of_step(queries@, i as int, c);
        }
        if queries[i].commitment == c {
            r.push(queries[i]);
        }
        i = i + 1;
    }
    assert(queries@.take(n as int) =~= queries@);
    r
}

/// The evaluations of commitment `c` at its points, in order: at each point
/// the first query's.
fn evaluations_of(queries: &Vec<Query>, c: Commitments, pts: &Vec<RotationDescription>) -> (r: Vec<Evaluations>)
    requires
        pts@ == point_set(queries_of(queries@, c)),
    ensures
        r@ == Seq::new(
            pts@.len(),
            |k: int| queries_of(queries@, c)[first_at(queries_of(queries@, c), pts@[k])].evaluation,
        ),
{
    let q = queries_vec(queries, c);
    proof {
        lemma_point_set(q@);
    }
    let mut r: Vec<Evaluations> = Vec::new();
    let n = pts.len();
    let m = q.len();
    let mut k: usize = 0;
    while k < n
        invariant
            k <= n,
            n == pts@.len(),
            m == q@.len(),
            q@ == queries_of(queries@, c),
            pts@ == point_set(q@),
            forall|t: int| 0 <= t < point_set(q@).len() ==> exists|j: int| 0 <= j < q@.len() && q@[j].point == #[trigger] point_set(q@)[t],
            r@ == Seq::new(k as nat, |t: int| q@[first_at(q@, pts@[t])].evaluation),
        decreases n - k,
    {
        let p = pts[k];
        let mut j: usize = 0;
        while j < m && q[j].point != p
            invariant
                j <= m,
                m == q@.len(),
                forall|t: int| 0 <= t < j ==> q@[t].point != p,
            decreases m - j,
        {
            j = j + 1;
        }
        proof {
            let w = choose|w: int| 0 <= w < q@.len() && q@[w].point == point_set(q@)[k as int];
            assert(j < m) by {
                if j >= m {
                    assert(q@[w].point != p);
                }
            }
            lemma_first_at(q@, p, j as int);
        }
        r.push(q[j].evaluation);
        k = k + 1;
        assert(r@ =~= Seq::new(k as nat, |t: int| q@[first_at(q@, pts@[t])].evaluation));
    }
    r
}

/// Groups the queries for the multi-open verifier: the distinct point sets
/// (each an increasing list of rotations), in order of first appearance,
/// and for each commitment, in order of first appearance, the index of its
/// point set, its evaluations and its rotations. No commitment may be
/// queried twice at the same rotation.
pub fn precompute_intermediate_sets(queries: &Vec<Query>) -> (r: (Vec<Vec<RotationDescription>>, Vec<CommitmentData>))
    requires
        no_repeated_query(queries@),
    ensures
        sets_view(r.0@) == distinct_sets(grouped_points(queries@)),
        data_view(r.1@) == spec_commitment_data(queries@),
{
    let ghost qs = queries@;
    let order = order_of(queries);
    let ghost g = grouped_points(qs);
    let n = order.len();
    let mut grouped: Vec<Vec<RotationDescription>> = Vec::new();
    let mut i: usize = 0;
    while i < n
        invariant
            i <= n,
            n == order@.len(),
            order@ == commitment_order(qs),
            qs == queries@,
            g == grouped_points(qs),
            sets_view(grouped@) == g.take(i as int),
        decreases n - i,
    {
        let pts = point_set_of(queries, order[i]);
        assert(pts@ == g[i as int]);
        let ghost before = sets_view(grouped@);
        grouped.push(pts);
        assert(sets_view(grouped@) =~= before.push(g[i as int]));
        i = i + 1;
        assert(sets_view(grouped@) =~= g.take(i as int));
    }
    assert(g.take(n as int) =~= g);
    // the distinct point sets
    let mut sets: Vec<Vec<RotationDescription>> = Vec::new();
    let mut j: usize = 0;
    assert(g.take(0) =~= Seq::<Seq<RotationDescription>>::empty());
    while j < n
        invariant
            j <= n,
            n == grouped@.len(),
            sets_view(grouped@) == g,
            sets_view(sets@) == distinct_sets(g.take(j as int)),
        decreases n - j,
    {
        proof {
            assert(g.take(j + 1).drop_last() =~= g.take(j as int));
            assert(g.take(j + 1).last() == grouped@[j as int]@);
        }
        match find_set(&sets, &grouped[j]) {
            Some(_) => {
                proof {
                    let k = choose|k: int| 0 <= k < sets@.len() && sets@[k]@ == grouped@[j as int]@;
                    assert(sets_view(sets@)[k] == grouped@[j as int]@);
                }
            },
            None => {
                proof {
                    if sets_view(sets@).contains(grouped@[j as int]@) {
                        let k = choose|k: int| 0 <= k < sets_view(sets@).len() && sets_view(sets@)[k] == grouped@[j as int]@;
                        assert(sets@[k]@ == grouped@[j as int]@);
                    }
                }
                let ghost before = sets_view(sets@);
                sets.push(copy_set(&grouped[j]));
                assert(sets_view(sets@) =~= before.push(grouped@[j as int]@));
            },
        }
        j = j + 1;
    }
    assert(g.take(n as int) =~= g);
    proof {
        lemma_distinct_sets_contains(g);
    }
    // the data of each commitment
    let ghost want = spec_commitment_data(qs);
    let mut data: Vec<CommitmentData> = Vec::new();
    let mut i: usize = 0;
    while i < n
        invariant
            i <= n,
            n == order@.len(),
            n == grouped@.len(),
            order@ == commitment_order(qs),
            qs == queries@,
            sets_view(grouped@) == g,
            g == grouped_points(qs),
            sets_view(sets@) == distinct_sets(g),
            forall|t: int| 0 <= t < g.len() ==> distinct_sets(g).contains(#[trigger] g[t]),
            want == spec_commitment_data(qs),
            data_view(data@) == want.take(i as int),
        decreases n - i,
    {
        let c = order[i];
        let pts = copy_set(&grouped[i]);
        proof {
            assert(g[i as int] == point_set(queries_of(qs, c)));
        }
        let evaluations = evaluations_of(queries, c, &pts);
        let index = match find_set(&sets, &pts) {
            Some(k) => {
                proof {
                    lemma_position_of(sets_view(sets@), pts@, k as int);
                }
                k
            },
            None => {
                proof {
                    let k = choose|k: int| 0 <= k < distinct_sets(g).len() && distinct_sets(g)[k] == g[i as int];
                    assert(sets@[k]@ == pts@);
                }
                0
            },
        };
        let ghost before = data_view(data@);
        data.push(CommitmentData { commitment: c, point_set_index: index, evaluations, points: pts });
        i = i + 1;
        assert(data_view(data@) =~= before.push(want[i - 1]));
        assert(data_view(data@) =~= want.take(i as int));
    }
    assert(want.take(n as int) =~= want);
    (sets, data)
}

/// The number of rotations of each distinct point set.
pub open spec fn set_sizes(qs: Seq<Query>) -> Seq<usize> {
    let sets = distinct_sets(grouped_points(qs));
    Seq::new(sets.len(), |i: int| sets[i].len() as usize)
}

/// For each commitment, the index of its point set and its number of
/// evaluations.
pub open spec fn commitment_pairs(qs: Seq<Query>) -> Seq<(usize, usize)> {
    let d = spec_commitment_data(qs);
    Seq::new(d.len(), |i: int| (d[i].1 as usize, d[i].2.len() as usize))
}

/// Every commitment of the order has queries.
proof fn lemma_order_has_queries(qs: Seq<Query>)
    ensures
        forall|c: Commitments| #[trigger] commitment_order(qs).contains(c) ==> queries_of(qs, c).len() > 0,
    decreases qs.len(),
{
    if qs.len() > 0 {
        let d = qs.drop_last();
        lemma_order_has_queries(d);
        let r = commitment_order(d);
        let x = qs.last().commitment;
        assert forall|c: Commitments| #[trigger] commitment_order(qs).contains(c) implies queries_of(qs, c).len() > 0 by {
            if c != x {
                assert(r.contains(c)) by {
                    if !r.contains(x) {
                        let k = choose|k: int| 0 <= k < r.len() + 1 && r.push(x)[k] == c;
                        assert(k < r.len());
                        assert(r[k] == c);
                    }
                }
            }
        }
    }
}

/// The point set of queries is empty only when there is no query.
proof fn lemma_point_set_nonempty(q: Seq<Query>)
    ensures
        q.len() > 0 ==> point_set(q).len() > 0,
{
    if q.len() > 0 {
        let s = point_set(q.drop_last());
        if s.contains(q.last().point) {
            assert(s.len() > 0);
        }
    }
}

/// Every distinct set is one of the sets, and there is one as soon as there
/// is a set.
proof fn lemma_distinct_sets_members(ss: Seq<Seq<RotationDescription>>)
    ensures
        forall|k: int| 0 <= k < distinct_sets(ss).len() ==> ss.contains(#[trigger] distinct_sets(ss)[k]),
        ss.len() > 0 ==> distinct_sets(ss).len() > 0,
    decreases ss.len(),
{
    if ss.len() > 0 {
        let d = ss.drop_last();
        lemma_distinct_sets_members(d);
        let r = distinct_sets(d);
        assert forall|k: int| 0 <= k < distinct_sets(ss).len() implies ss.contains(#[trigger] distinct_sets(ss)[k]) by {
            if k < r.len() {
                assert(distinct_sets(ss)[k] == r[k]);
                let t = choose|t: int| 0 <= t < d.len() && d[t] == r[k];
                assert(ss[t] == d[t]);
            } else {
                assert(distinct_sets(ss)[k] == ss[ss.len() - 1]);
            }
        }
        if r.contains(ss.last()) {
            assert(r.len() > 0);
        }
    }
}

proof fn lemma_count_before_len(s: Seq<RotationDescription>, x: RotationDescription)
    ensures
        count_before(s, x) <= s.len(),
    decreases s.len(),
{
    if s.len() > 0 {
        lemma_count_before_len(s.drop_last(), x);
    }
}

/// There are no more points than queries.
proof fn lemma_point_set_len(q: Seq<Query>)
    ensures
        point_set(q).len() <= q.len(),
    decreases q.len(),
{
    if q.len() > 0 {
        lemma_point_set_len(q.drop_last());
        lemma_count_before_len(point_set(q.drop_last()), q.last().point);
    }
}

/// A commitment has no more queries than there are.
proof fn lemma_queries_of_len(qs: Seq<Query>, c: Commitments)
    ensures
        queries_of(qs, c).len() <= qs.len(),
    decreases qs.len(),
{
    if qs.len() > 0 {
        lemma_queries_of_len(qs.drop_last(), c);
    }
}

/// Queries give at least one point set, and every point set has a point.
pub proof fn lemma_set_sizes_ok(qs: Seq<Query>)
    requires
        qs.len() > 0,
        qs.len() <= usize::MAX,
    ensures
        point_sets_ok(set_sizes(qs)),
{
    let order = commitment_order(qs);
    let g = grouped_points(qs);
    lemma_order_has_queries(qs);
    let r = commitment_order(qs.drop_last());
    if r.contains(qs.last().commitment) {
        assert(r.len() > 0);
    }
    assert(order.len() > 0);
    lemma_distinct_sets_members(g);
    let sets = distinct_sets(g);
    assert forall|i: int| 0 <= i < set_sizes(qs).len() implies #[trigger] set_sizes(qs)[i] >= 1 by {
        assert(g.contains(sets[i]));
        let t = choose|t: int| 0 <= t < g.len() && g[t] == sets[i];
        assert(order.contains(order[t]));
        lemma_point_set_nonempty(queries_of(qs, order[t]));
        lemma_point_set_len(queries_of(qs, order[t]));
        lemma_queries_of_len(qs, order[t]);
    }
}

} // verus!
