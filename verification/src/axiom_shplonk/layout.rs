//! What a SHPLONK verifier opens: every polynomial query of the proof,
//! grouped by commitment, then by the set of rotations it is opened at.

use vstd::prelude::*;

use super::expression::{GateExpression, LookupArgument};
use super::names::{aiken_access, indexed, indexed_name, numbered, plinth_access, snake_to_lower_camel};

verus! {

/// Kinds of columns.
#[derive(Clone, Copy, Debug, PartialEq, Eq, Structural)]
pub enum ColumnKind {
    Advice,
    Fixed,
    Instance,
}

/// A column queried at a rotation.
#[derive(Clone, Copy, Debug, PartialEq, Eq, Structural)]
pub struct ColumnQuery {
    pub kind: ColumnKind,
    pub column: usize,
    pub rotation: i32,
}

/// A column taking part in the permutation.
#[derive(Clone, Copy, Debug, PartialEq, Eq, Structural)]
pub struct PermutationColumn {
    pub kind: ColumnKind,
    pub column: usize,
}

/// A commitment a query is opened against.
#[derive(Clone, Copy, Debug, PartialEq, Eq, Structural)]
pub enum CommitmentRef {
    Advice(usize),
    Fixed(usize),
    PermutationCommon(usize),
    PermutationProduct(usize),
    LookupPermutedInput(usize),
    LookupPermutedTable(usize),
    LookupProduct(usize),
    RandomPoly,
    VanishingH,
}

/// One opening: a commitment at a rotation, and how its claimed evaluation
/// is read in Aiken and in Plinth.
#[derive(Clone, Debug)]
pub struct OpeningQuery {
    pub commitment: CommitmentRef,
    pub rotation: i32,
    pub aiken_eval: String,
    pub plinth_eval: String,
}

/// A query as mathematical values.
pub type QueryView = (CommitmentRef, i32, Seq<char>, Seq<char>);

impl OpeningQuery {
    pub open spec fn qview(&self) -> QueryView {
        (self.commitment, self.rotation, self.aiken_eval@, self.plinth_eval@)
    }
}

/// The queries as mathematical values.
pub open spec fn queries_view(v: Seq<OpeningQuery>) -> Seq<QueryView> {
    Seq::new(v.len(), |i: int| v[i].qview())
}

/// A query whose evaluation is the proof's value named `snake`.
pub open spec fn named_query(c: CommitmentRef, rotation: i32, snake: Seq<char>) -> QueryView {
    (c, rotation, aiken_access(snake), plinth_access(snake))
}

/// The advice queries, evaluations `advice_eval_0`, `advice_eval_1`, ...
pub open spec fn advice_openings(aq: Seq<ColumnQuery>) -> Seq<QueryView> {
    Seq::new(
        aq.len(),
        |i: int| named_query(CommitmentRef::Advice(aq[i].column), aq[i].rotation, indexed("advice_eval_"@, i as nat)),
    )
}

/// The fixed queries, evaluations `fixed_eval_0`, `fixed_eval_1`, ...
pub open spec fn fixed_openings(fq: Seq<ColumnQuery>) -> Seq<QueryView> {
    Seq::new(
        fq.len(),
        |i: int| named_query(CommitmentRef::Fixed(fq[i].column), fq[i].rotation, indexed("fixed_eval_"@, i as nat)),
    )
}

/// Each permutation product at the current and the next row.
pub open spec fn product_openings(n: nat) -> Seq<QueryView>
    decreases n,
{
    if n == 0 {
        Seq::empty()
    } else {
        let s = (n - 1) as nat;
        product_openings(s) + seq![
            named_query(CommitmentRef::PermutationProduct(s as usize), 0, indexed("permutation_eval_"@, s)),
            named_query(CommitmentRef::PermutationProduct(s as usize), 1, indexed("permutation_next_"@, s)),
        ]
    }
}

/// Every permutation product but the last at the last row, from the
/// second to last down to the first.
pub open spec fn last_openings(n: nat, last: i32) -> Seq<QueryView> {
    Seq::new(
        if n > 0 { (n - 1) as nat } else { 0 },
        |i: int|
            named_query(
                CommitmentRef::PermutationProduct((n - 2 - i) as usize),
                last,
                indexed("permutation_last_"@, (n - 2 - i) as nat),
            ),
    )
}

/// The queries of one lookup.
pub open spec fn one_lookup_openings(l: nat) -> Seq<QueryView> {
    let u = l as usize;
    seq![
        named_query(CommitmentRef::LookupProduct(u), 0, "lookup_"@ + crate::extraction::text::decimal(l) + "_product_eval"@),
        named_query(CommitmentRef::LookupPermutedInput(u), 0, "lookup_"@ + crate::extraction::text::decimal(l) + "_input_eval"@),
        named_query(CommitmentRef::LookupPermutedTable(u), 0, "lookup_"@ + crate::extraction::text::decimal(l) + "_table_eval"@),
        named_query(
            CommitmentRef::LookupPermutedInput(u),
            -1i32,
            "lookup_"@ + crate::extraction::text::decimal(l) + "_input_prev_eval"@,
        ),
        named_query(CommitmentRef::LookupProduct(u), 1, "lookup_"@ + crate::extraction::text::decimal(l) + "_product_next"@),
    ]
}

/// The queries of the lookups, lookup after lookup.
pub open spec fn lookup_openings(n: nat) -> Seq<QueryView>
    decreases n,
{
    if n == 0 {
        Seq::empty()
    } else {
        lookup_openings((n - 1) as nat) + one_lookup_openings((n - 1) as nat)
    }
}

/// Each permutation column's common polynomial at the current row.
pub open spec fn common_openings(n: nat) -> Seq<QueryView> {
    Seq::new(
        n,
        |i: int|
            named_query(CommitmentRef::PermutationCommon(i as usize), 0, indexed("permutation_common_eval_"@, i as nat)),
    )
}

/// The vanishing polynomial (its expected value) and the random polynomial.
pub open spec fn tail_openings() -> Seq<QueryView> {
    seq![
        (CommitmentRef::VanishingH, 0i32, "expected_h"@, "expectedH"@),
        named_query(CommitmentRef::RandomPoly, 0, "random_eval"@),
    ]
}

/// The last row, relative to the current one: `-(blinding_factors + 1)`.
pub open spec fn last_rotation(blinding_factors: nat) -> int {
    -(blinding_factors + 1)
}

/// Every query the verifier opens, in order: advice, permutation products,
/// their last rows, lookups, fixed, permutation commons, then the vanishing
/// and random polynomials.
pub open spec fn spec_opening_queries(
    aq: Seq<ColumnQuery>,
    fq: Seq<ColumnQuery>,
    nb_permutation_columns: nat,
    permutation_set_count: nat,
    lookup_count: nat,
    blinding_factors: nat,
) -> Seq<QueryView> {
    advice_openings(aq) + product_openings(permutation_set_count) + last_openings(
        permutation_set_count,
        last_rotation(blinding_factors) as i32,
    ) + lookup_openings(lookup_count) + fixed_openings(fq) + common_openings(nb_permutation_columns)
        + tail_openings()
}

/// A query whose evaluation is the proof's value named `snake`.
fn named(c: CommitmentRef, rotation: i32, snake: String) -> (q: OpeningQuery)
    ensures
        q.qview() == named_query(c, rotation, snake@),
{
    let mut aiken = String::from_str("p.");
    aiken.append(snake.as_str());
    let mut plinth = snake_to_lower_camel(snake.as_str());
    plinth.append(" pieces");
    OpeningQuery { commitment: c, rotation, aiken_eval: aiken, plinth_eval: plinth }
}

fn push_query(out: &mut Vec<OpeningQuery>, q: OpeningQuery)
    ensures
        queries_view(final(out)@) == queries_view(old(out)@).push(q.qview()),
{
    out.push(q);
    assert(queries_view(out@) =~= queries_view(old(out)@).push(q.qview()));
}

/// Every query the verifier opens.
pub fn opening_queries(
    advice_queries: &Vec<ColumnQuery>,
    fixed_queries: &Vec<ColumnQuery>,
    nb_permutation_columns: usize,
    permutation_set_count: usize,
    lookup_count: usize,
    blinding_factors: usize,
) -> (r: Vec<OpeningQuery>)
    requires
        blinding_factors < i32::MAX,
    ensures
        queries_view(r@) == spec_opening_queries(
            advice_queries@,
            fixed_queries@,
            nb_permutation_columns as nat,
            permutation_set_count as nat,
            lookup_count as nat,
            blinding_factors as nat,
        ),
{
    let mut qs: Vec<OpeningQuery> = Vec::new();
    // advice
    let n = advice_queries.len();
    let mut i: usize = 0;
    assert(queries_view(qs@) =~= advice_openings(advice_queries@).take(0));
    while i < n
        invariant
            i <= n,
            n == advice_queries@.len(),
            queries_view(qs@) == advice_openings(advice_queries@).take(i as int),
        decreases n - i,
    {
        let q = named(
            CommitmentRef::Advice(advice_queries[i].column),
            advice_queries[i].rotation,
            numbered("advice_eval_", i),
        );
        push_query(&mut qs, q);
        i = i + 1;
        assert(queries_view(qs@) =~= advice_openings(advice_queries@).take(i as int));
    }
    assert(advice_openings(advice_queries@).take(n as int) =~= advice_openings(advice_queries@));
    let ghost s1 = queries_view(qs@);
    // permutation products at the current and next rows
    let last: i32 = -((blinding_factors + 1) as i32);
    let mut set: usize = 0;
    assert(queries_view(qs@) =~= s1 + product_openings(0));
    while set < permutation_set_count
        invariant
            set <= permutation_set_count,
            queries_view(qs@) == s1 + product_openings(set as nat),
        decreases permutation_set_count - set,
    {
        push_query(
            &mut qs,
            named(CommitmentRef::PermutationProduct(set), 0, numbered("permutation_eval_", set)),
        );
        push_query(
            &mut qs,
            named(CommitmentRef::PermutationProduct(set), 1, numbered("permutation_next_", set)),
        );
        set = set + 1;
        assert(queries_view(qs@) =~= s1 + product_openings(set as nat));
    }
    let ghost s2 = queries_view(qs@);
    // every product but the last, at the last row, downwards
    let m = permutation_set_count.saturating_sub(1);
    let mut k: usize = 0;
    assert(queries_view(qs@) =~= s2 + last_openings(permutation_set_count as nat, last).take(0));
    while k < m
        invariant
            k <= m,
            m == (if permutation_set_count > 0 { permutation_set_count - 1 } else { 0 }),
            last == last_rotation(blinding_factors as nat),
            queries_view(qs@) == s2 + last_openings(permutation_set_count as nat, last).take(k as int),
        decreases m - k,
    {
        let s = m - 1 - k;
        push_query(&mut qs, named(CommitmentRef::PermutationProduct(s), last, numbered("permutation_last_", s)));
        k = k + 1;
        assert(queries_view(qs@) =~= s2 + last_openings(permutation_set_count as nat, last).take(k as int));
    }
    assert(last_openings(permutation_set_count as nat, last).take(m as int) =~= last_openings(
        permutation_set_count as nat,
        last,
    ));
    let ghost s3 = queries_view(qs@);
    // lookups
    let mut l: usize = 0;
    assert(queries_view(qs@) =~= s3 + lookup_openings(0));
    while l < lookup_count
        invariant
            l <= lookup_count,
            queries_view(qs@) == s3 + lookup_openings(l as nat),
        decreases lookup_count - l,
    {
        push_query(&mut qs, named(CommitmentRef::LookupProduct(l), 0, indexed_name("lookup_", l, "_product_eval")));
        push_query(&mut qs, named(CommitmentRef::LookupPermutedInput(l), 0, indexed_name("lookup_", l, "_input_eval")));
        push_query(&mut qs, named(CommitmentRef::LookupPermutedTable(l), 0, indexed_name("lookup_", l, "_table_eval")));
        push_query(
            &mut qs,
            named(CommitmentRef::LookupPermutedInput(l), -1, indexed_name("lookup_", l, "_input_prev_eval")),
        );
        push_query(&mut qs, named(CommitmentRef::LookupProduct(l), 1, indexed_name("lookup_", l, "_product_next")));
        l = l + 1;
        assert(queries_view(qs@) =~= s3 + lookup_openings(l as nat));
    }
    let ghost s4 = queries_view(qs@);
    // fixed
    let f = fixed_queries.len();
    let mut j: usize = 0;
    assert(queries_view(qs@) =~= s4 + fixed_openings(fixed_queries@).take(0));
    while j < f
        invariant
            j <= f,
            f == fixed_queries@.len(),
            queries_view(qs@) == s4 + fixed_openings(fixed_queries@).take(j as int),
        decreases f - j,
    {
        let q = named(
            CommitmentRef::Fixed(fixed_queries[j].column),
            fixed_queries[j].rotation,
            numbered("fixed_eval_", j),
        );
        push_query(&mut qs, q);
        j = j + 1;
        assert(queries_view(qs@) =~= s4 + fixed_openings(fixed_queries@).take(j as int));
    }
    assert(fixed_openings(fixed_queries@).take(f as int) =~= fixed_openings(fixed_queries@));
    let ghost s5 = queries_view(qs@);
    // permutation commons
    let mut c: usize = 0;
    assert(queries_view(qs@) =~= s5 + common_openings(0));
    while c < nb_permutation_columns
        invariant
            c <= nb_permutation_columns,
            queries_view(qs@) == s5 + common_openings(c as nat),
        decreases nb_permutation_columns - c,
    {
        push_query(
            &mut qs,
            named(CommitmentRef::PermutationCommon(c), 0, numbered("permutation_common_eval_", c)),
        );
        c = c + 1;
        assert(queries_view(qs@) =~= s5 + common_openings(c as nat));
    }
    let ghost s6 = queries_view(qs@);
    // the vanishing polynomial is checked against its expected value
    push_query(
        &mut qs,
        OpeningQuery {
            commitment: CommitmentRef::VanishingH,
            rotation: 0,
            aiken_eval: String::from_str("expected_h"),
            plinth_eval: String::from_str("expectedH"),
        },
    );
    push_query(&mut qs, named(CommitmentRef::RandomPoly, 0, String::from_str("random_eval")));
    assert(queries_view(qs@) =~= s6 + tail_openings());
    qs
}

// ---------------------------------------------------------------------------
// Grouping the queries.

/// The commitments of the queries, each once, in order of first appearance.
pub open spec fn commitment_order(qs: Seq<QueryView>) -> Seq<CommitmentRef>
    decreases qs.len(),
{
    if qs.len() == 0 {
        Seq::empty()
    } else {
        let r = commitment_order(qs.drop_last());
        if r.contains(qs.last().0) {
            r
        } else {
            r.push(qs.last().0)
        }
    }
}

/// The queries against commitment `c`, in order.
pub open spec fn queries_for(qs: Seq<QueryView>, c: CommitmentRef) -> Seq<QueryView>
    decreases qs.len(),
{
    if qs.len() == 0 {
        Seq::empty()
    } else if qs.last().0 == c {
        queries_for(qs.drop_last(), c).push(qs.last())
    } else {
        queries_for(qs.drop_last(), c)
    }
}

/// Number of elements of `s` below `x`.
pub open spec fn count_below(s: Seq<i32>, x: i32) -> nat
    decreases s.len(),
{
    if s.len() == 0 {
        0
    } else {
        count_below(s.drop_last(), x) + if s.last() < x { 1nat } else { 0nat }
    }
}

/// `x` added to the increasing sequence `s`, unless it is there already.
pub open spec fn insert_sorted(s: Seq<i32>, x: i32) -> Seq<i32> {
    if s.contains(x) {
        s
    } else {
        s.take(count_below(s, x) as int) + seq![x] + s.skip(count_below(s, x) as int)
    }
}

/// The rotations of the queries, each once, in increasing order.
pub open spec fn sorted_points(qs: Seq<QueryView>) -> Seq<i32>
    decreases qs.len(),
{
    if qs.len() == 0 {
        Seq::empty()
    } else {
        insert_sorted(sorted_points(qs.drop_last()), qs.last().1)
    }
}

/// Index of the first query at rotation `r`, -1 when there is none.
pub open spec fn first_index(qs: Seq<QueryView>, r: i32) -> int
    decreases qs.len(),
{
    if qs.len() == 0 {
        -1
    } else {
        let j = first_index(qs.drop_last(), r);
        if j >= 0 {
            j
        } else if qs.last().1 == r {
            qs.len() - 1
        } else {
            -1
        }
    }
}

/// An opening as mathematical values: the commitment and, per rotation,
/// the evaluation in Aiken and in Plinth.
pub type OpeningView = (CommitmentRef, Seq<(i32, Seq<char>, Seq<char>)>);

/// The evaluations of one commitment's queries: per rotation, in increasing
/// order, the first query's.
pub open spec fn opening_evals(qs: Seq<QueryView>) -> Seq<(i32, Seq<char>, Seq<char>)> {
    let p = sorted_points(qs);
    Seq::new(
        p.len(),
        |k: int| {
            let j = first_index(qs, p[k]);
            (p[k], qs[j].2, qs[j].3)
        },
    )
}

/// Each commitment's opening, with its rotations, in order of first
/// appearance.
pub open spec fn spec_openings(qs: Seq<QueryView>) -> Seq<(Seq<i32>, OpeningView)> {
    let order = commitment_order(qs);
    Seq::new(
        order.len(),
        |i: int| {
            let qf = queries_for(qs, order[i]);
            (sorted_points(qf), (order[i], opening_evals(qf)))
        },
    )
}

/// A rotation set as mathematical values: its rotations and its openings.
pub type SetView = (Seq<i32>, Seq<OpeningView>);

/// Index of the first set with rotations `pts`, -1 when there is none.
pub open spec fn find_set(sets: Seq<SetView>, pts: Seq<i32>) -> int
    decreases sets.len(),
{
    if sets.len() == 0 {
        -1
    } else {
        let j = find_set(sets.drop_last(), pts);
        if j >= 0 {
            j
        } else if sets.last().0 == pts {
            sets.len() - 1
        } else {
            -1
        }
    }
}

/// Openings with the same rotations, grouped in order of first appearance.
pub open spec fn group_sets(ops: Seq<(Seq<i32>, OpeningView)>) -> Seq<SetView>
    decreases ops.len(),
{
    if ops.len() == 0 {
        Seq::empty()
    } else {
        let r = group_sets(ops.drop_last());
        let o = ops.last();
        let j = find_set(r, o.0);
        if j >= 0 {
            r.update(j, (r[j].0, r[j].1.push(o.1)))
        } else {
            r.push((o.0, seq![o.1]))
        }
    }
}

/// The rotation sets of the queries.
pub open spec fn spec_rotation_sets(qs: Seq<QueryView>) -> Seq<SetView> {
    group_sets(spec_openings(qs))
}

pub proof fn lemma_commitment_order(qs: Seq<QueryView>)
    ensures
        forall|i: int, j: int|
            0 <= i < j < commitment_order(qs).len() ==> commitment_order(qs)[i] != commitment_order(qs)[j],
        forall|c: CommitmentRef| !commitment_order(qs).contains(c) ==> queries_for(qs, c).len() == 0,
        forall|c: CommitmentRef| #[trigger] commitment_order(qs).contains(c) ==> queries_for(qs, c).len() > 0,
    decreases qs.len(),
{
    if qs.len() > 0 {
        let d = qs.drop_last();
        let x = qs.last().0;
        lemma_commitment_order(d);
        let r = commitment_order(d);
        let o = commitment_order(qs);
        assert(o.contains(x)) by {
            if !r.contains(x) {
                assert(r.push(x)[r.len() as int] == x);
            }
        }
        assert forall|c: CommitmentRef| r.contains(c) implies #[trigger] o.contains(c) by {
            if !r.contains(x) {
                let k = choose|k: int| 0 <= k < r.len() && r[k] == c;
                assert(r.push(x)[k] == c);
            }
        }
        assert forall|c: CommitmentRef| !o.contains(c) implies queries_for(qs, c).len() == 0 by {
            assert(c != x);
            assert(!r.contains(c));
        }
        assert forall|c: CommitmentRef| #[trigger] o.contains(c) implies queries_for(qs, c).len() > 0 by {
            if c != x {
                if !r.contains(x) {
                    let k = choose|k: int| 0 <= k < o.len() && o[k] == c;
                    assert(k < r.len());
                    assert(r[k] == c);
                }
                assert(r.contains(c));
            }
        }
        if !r.contains(x) {
            assert forall|i: int, j: int| 0 <= i < j < o.len() implies o[i] != o[j] by {
                if j == r.len() {
                    assert(o[i] == r[i]);
                    assert(r.contains(r[i]));
                }
            }
        }
    }
}

/// The queries at the given indices.
pub open spec fn at_indices(qs: Seq<OpeningQuery>, ix: Seq<usize>) -> Seq<QueryView> {
    Seq::new(ix.len(), |k: int| qs[ix[k] as int].qview())
}

fn copy_indices(v: &Vec<usize>) -> (r: Vec<usize>)
    ensures
        r@ == v@,
{
    let mut r: Vec<usize> = Vec::new();
    let n = v.len();
    let mut i: usize = 0;
    while i < n
        invariant
            i <= n,
            n == v@.len(),
            r@ == v@.take(i as int),
        decreases n - i,
    {
        r.push(v[i]);
        i = i + 1;
        assert(r@ =~= v@.take(i as int));
    }
    assert(v@.take(n as int) =~= v@);
    r
}

/// The queries' indices grouped by commitment, commitments in order of
/// first appearance.
fn group_by_commitment(qs: &Vec<OpeningQuery>) -> (r: (Vec<CommitmentRef>, Vec<Vec<usize>>))
    ensures
        r.0@ == commitment_order(queries_view(qs@)),
        r.1@.len() == r.0@.len(),
        forall|j: int, k: int| 0 <= j < r.1@.len() && 0 <= k < r.1@[j]@.len() ==> #[trigger] r.1@[j]@[k] < qs@.len(),
        forall|j: int|
            0 <= j < r.1@.len() ==> at_indices(qs@, #[trigger] r.1@[j]@) == queries_for(queries_view(qs@), r.0@[j]),
{
    let ghost qv = queries_view(qs@);
    let mut order: Vec<CommitmentRef> = Vec::new();
    let mut members: Vec<Vec<usize>> = Vec::new();
    let n = qs.len();
    let mut i: usize = 0;
    while i < n
        invariant
            i <= n,
            n == qs@.len(),
            qv == queries_view(qs@),
            order@ == commitment_order(qv.take(i as int)),
            members@.len() == order@.len(),
            forall|j: int, k: int| 0 <= j < members@.len() && 0 <= k < members@[j]@.len() ==> #[trigger] members@[j]@[k] < i,
            forall|j: int|
                0 <= j < members@.len() ==> at_indices(qs@, #[trigger] members@[j]@) == queries_for(
                    qv.take(i as int),
                    order@[j],
                ),
        decreases n - i,
    {
        let c = qs[i].commitment;
        let ghost t = qv.take(i as int);
        let ghost t1 = qv.take(i + 1);
        proof {
            assert(t1.drop_last() =~= t);
            assert(t1.last() == qv[i as int]);
            lemma_commitment_order(t);
        }
        let m = order.len();
        let mut j: usize = 0;
        let mut found = false;
        while j < m && !found
            invariant
                j <= m,
                m == order@.len(),
                found ==> j < m && order@[j as int] == c,
                !found ==> forall|k: int| 0 <= k < j ==> order@[k] != c,
            decreases m - j + if found { 0int } else { 1int },
        {
            if order[j] == c {
                found = true;
            } else {
                j = j + 1;
            }
        }
        let ghost old_members = members@;
        let ghost old_order = order@;
        if found {
            let mut g = copy_indices(&members[j]);
            g.push(i);
            members.set(j, g);
            proof {
                assert(order@.contains(c));
                assert(order@ == commitment_order(t1));
                assert forall|p: int, k: int| 0 <= p < members@.len() && 0 <= k < members@[p]@.len() implies #[trigger] members@[p]@[k] < i + 1 by {
                    if p != j {
                        assert(members@[p] == old_members[p]);
                    }
                }
                assert forall|p: int| 0 <= p < members@.len() implies at_indices(qs@, #[trigger] members@[p]@) == queries_for(t1, order@[p]) by {
                    if p == j {
                        assert(at_indices(qs@, members@[p]@) =~= at_indices(qs@, old_members[p]@).push(qv[i as int]));
                    } else {
                        assert(order@[p] != c);
                        assert(members@[p] == old_members[p]);
                    }
                }
            }
        } else {
            assert(!order@.contains(c));
            order.push(c);
            members.push(vec![i]);
            proof {
                assert(order@ == commitment_order(t1));
                assert(queries_for(t, c).len() == 0);
                assert forall|p: int, k: int| 0 <= p < members@.len() && 0 <= k < members@[p]@.len() implies #[trigger] members@[p]@[k] < i + 1 by {
                    if p != m {
                        assert(members@[p] == old_members[p]);
                    }
                }
                assert forall|p: int| 0 <= p < members@.len() implies at_indices(qs@, #[trigger] members@[p]@) == queries_for(t1, order@[p]) by {
                    if p == m {
                        assert(at_indices(qs@, members@[p]@) =~= seq![qv[i as int]]);
                        assert(queries_for(t, c) =~= Seq::<QueryView>::empty());
                        assert(queries_for(t1, c) =~= seq![qv[i as int]]);
                    } else {
                        assert(members@[p] == old_members[p]);
                        assert(order@[p] == old_order[p]);
                        assert(old_order[p] != c);
                    }
                }
            }
        }
        i = i + 1;
    }
    assert(qv.take(n as int) =~= qv);
    (order, members)
}

/// The sequence is strictly increasing.
pub open spec fn increasing(s: Seq<i32>) -> bool {
    forall|i: int, j: int| 0 <= i < j < s.len() ==> s[i] < s[j]
}

proof fn lemma_count_below(s: Seq<i32>, x: i32, p: int)
    requires
        increasing(s),
        0 <= p <= s.len(),
        forall|k: int| 0 <= k < p ==> s[k] < x,
        forall|k: int| p <= k < s.len() ==> s[k] >= x,
    ensures
        count_below(s, x) == p,
    decreases s.len(),
{
    if s.len() > 0 {
        let q = if p == s.len() { p - 1 } else { p };
        lemma_count_below(s.drop_last(), x, q);
    }
}

/// Inserting at the first position not below `x` keeps the sequence
/// increasing and gives `insert_sorted`.
proof fn lemma_insert_sorted(s: Seq<i32>, x: i32, p: int)
    requires
        increasing(s),
        0 <= p <= s.len(),
        forall|k: int| 0 <= k < p ==> s[k] < x,
        forall|k: int| p <= k < s.len() ==> s[k] >= x,
    ensures
        count_below(s, x) == p,
        s.contains(x) <==> (p < s.len() && s[p] == x),
        !s.contains(x) ==> insert_sorted(s, x) == s.insert(p, x),
        increasing(insert_sorted(s, x)),
{
    lemma_count_below(s, x, p);
    if s.contains(x) {
        let k = choose|k: int| 0 <= k < s.len() && s[k] == x;
        if k > p {
            assert(s[p] < s[k]);
        }
    } else {
        assert(s.take(p) + seq![x] + s.skip(p) =~= s.insert(p, x));
        if p < s.len() {
            assert(s[p] != x);
        }
        let t = s.insert(p, x);
        assert forall|i: int, j: int| 0 <= i < j < t.len() implies t[i] < t[j] by {
            if i < p && j < p {
            } else if i < p && j == p {
            } else if i < p {
                assert(t[j] == s[j - 1]);
            } else if i == p {
                assert(t[j] == s[j - 1]);
                assert(s[j - 1] >= x);
                assert(s[j - 1] != x);
            } else {
                assert(t[i] == s[i - 1] && t[j] == s[j - 1]);
            }
        }
    }
}

/// Every point is the rotation of some query, and the points increase.
pub proof fn lemma_sorted_points(q: Seq<QueryView>)
    ensures
        increasing(sorted_points(q)),
        forall|k: int|
            0 <= k < sorted_points(q).len() ==> exists|j: int| 0 <= j < q.len() && q[j].1 == #[trigger] sorted_points(q)[k],
    decreases q.len(),
{
    if q.len() > 0 {
        let d = q.drop_last();
        let s = sorted_points(d);
        let x = q.last().1;
        lemma_sorted_points(d);
        let p = choose_position(s, x);
        lemma_insert_sorted(s, x, p);
        let r = sorted_points(q);
        assert forall|k: int| 0 <= k < r.len() implies exists|j: int| 0 <= j < q.len() && q[j].1 == #[trigger] r[k] by {
            if s.contains(x) {
                let j = choose|j: int| 0 <= j < d.len() && d[j].1 == s[k];
                assert(q[j] == d[j]);
            } else {
                if k == p {
                    assert(q[q.len() - 1].1 == r[k]);
                } else {
                    let kk = if k < p { k } else { k - 1 };
                    assert(r[k] == s[kk]);
                    let j = choose|j: int| 0 <= j < d.len() && d[j].1 == s[kk];
                    assert(q[j] == d[j]);
                }
            }
        }
    }
}

/// The first position of an increasing sequence not below `x`.
proof fn choose_position(s: Seq<i32>, x: i32) -> (p: int)
    requires
        increasing(s),
    ensures
        0 <= p <= s.len(),
        forall|k: int| 0 <= k < p ==> s[k] < x,
        forall|k: int| p <= k < s.len() ==> s[k] >= x,
    decreases s.len(),
{
    if s.len() == 0 {
        0
    } else if s.last() < x {
        assert forall|k: int| 0 <= k < s.len() implies s[k] < x by {
            if k < s.len() - 1 {
                assert(s[k] < s[s.len() - 1]);
            }
        }
        s.len() as int
    } else {
        let p = choose_position(s.drop_last(), x);
        assert forall|k: int| 0 <= k < p implies s[k] < x by {
            assert(s[k] == s.drop_last()[k]);
        }
        assert forall|k: int| p <= k < s.len() implies s[k] >= x by {
            if k < s.len() - 1 {
                assert(s[k] == s.drop_last()[k]);
            }
        }
        p
    }
}

/// `first_index` is the first query at the rotation.
proof fn lemma_first_index(q: Seq<QueryView>, r: i32, j: int)
    requires
        0 <= j < q.len(),
        q[j].1 == r,
        forall|k: int| 0 <= k < j ==> q[k].1 != r,
    ensures
        first_index(q, r) == j,
    decreases q.len(),
{
    if j < q.len() - 1 {
        lemma_first_index(q.drop_last(), r, j);
    } else {
        lemma_first_index_none(q.drop_last(), r);
    }
}

proof fn lemma_first_index_none(q: Seq<QueryView>, r: i32)
    requires
        forall|k: int| 0 <= k < q.len() ==> q[k].1 != r,
    ensures
        first_index(q, r) == -1,
    decreases q.len(),
{
    if q.len() > 0 {
        lemma_first_index_none(q.drop_last(), r);
    }
}

/// The rotations of the queries at the given indices, each once, increasing.
fn points_of(qs: &Vec<OpeningQuery>, ix: &Vec<usize>) -> (pts: Vec<i32>)
    requires
        forall|k: int| 0 <= k < ix@.len() ==> #[trigger] ix@[k] < qs@.len(),
    ensures
        pts@ == sorted_points(at_indices(qs@, ix@)),
        increasing(pts@),
{
    let ghost q = at_indices(qs@, ix@);
    let mut pts: Vec<i32> = Vec::new();
    let n = ix.len();
    let mut i: usize = 0;
    while i < n
        invariant
            i <= n,
            n == ix@.len(),
            q == at_indices(qs@, ix@),
            forall|k: int| 0 <= k < ix@.len() ==> #[trigger] ix@[k] < qs@.len(),
            pts@ == sorted_points(q.take(i as int)),
            increasing(pts@),
        decreases n - i,
    {
        let x = qs[ix[i]].rotation;
        proof {
            assert(q.take(i + 1).drop_last() =~= q.take(i as int));
            assert(q.take(i + 1).last().1 == x);
        }
        let m = pts.len();
        let mut p: usize = 0;
        while p < m && pts[p] < x
            invariant
                p <= m,
                m == pts@.len(),
                forall|k: int| 0 <= k < p ==> pts@[k] < x,
            decreases m - p,
        {
            p = p + 1;
        }
        proof {
            assert forall|k: int| p <= k < pts@.len() implies pts@[k] >= x by {
                if k > p {
                    assert(pts@[p as int] < pts@[k]);
                }
            }
            lemma_insert_sorted(pts@, x, p as int);
        }
        if !(p < m && pts[p] == x) {
            pts.insert(p, x);
        }
        i = i + 1;
    }
    assert(q.take(n as int) =~= q);
    pts
}

/// A commitment's opening: per rotation, the evaluation in Aiken and in
/// Plinth.
#[derive(Clone, Debug)]
pub struct CommitmentOpening {
    pub commitment: CommitmentRef,
    pub evals: Vec<(i32, String, String)>,
}

/// Evaluations as mathematical values.
pub open spec fn evals_view(v: Seq<(i32, String, String)>) -> Seq<(i32, Seq<char>, Seq<char>)> {
    Seq::new(v.len(), |i: int| (v[i].0, v[i].1@, v[i].2@))
}

impl CommitmentOpening {
    pub open spec fn oview(&self) -> OpeningView {
        (self.commitment, evals_view(self.evals@))
    }
}

/// The evaluations of the queries at the given indices, per point.
fn evals_of(qs: &Vec<OpeningQuery>, ix: &Vec<usize>, pts: &Vec<i32>) -> (r: Vec<(i32, String, String)>)
    requires
        forall|k: int| 0 <= k < ix@.len() ==> #[trigger] ix@[k] < qs@.len(),
        pts@ == sorted_points(at_indices(qs@, ix@)),
    ensures
        evals_view(r@) == opening_evals(at_indices(qs@, ix@)),
{
    let ghost q = at_indices(qs@, ix@);
    proof {
        lemma_sorted_points(q);
    }
    let mut r: Vec<(i32, String, String)> = Vec::new();
    let n = pts.len();
    let m = ix.len();
    let mut k: usize = 0;
    while k < n
        invariant
            k <= n,
            n == pts@.len(),
            m == ix@.len(),
            q == at_indices(qs@, ix@),
            pts@ == sorted_points(q),
            forall|k: int| 0 <= k < ix@.len() ==> #[trigger] ix@[k] < qs@.len(),
            forall|k: int|
                0 <= k < sorted_points(q).len() ==> exists|j: int| 0 <= j < q.len() && q[j].1 == #[trigger] sorted_points(q)[k],
            evals_view(r@) == opening_evals(q).take(k as int),
        decreases n - k,
    {
        let p = pts[k];
        let mut j: usize = 0;
        while j < m && qs[ix[j]].rotation != p
            invariant
                j <= m,
                m == ix@.len(),
                forall|k: int| 0 <= k < ix@.len() ==> #[trigger] ix@[k] < qs@.len(),
                forall|t: int| 0 <= t < j ==> q[t].1 != p,
                q == at_indices(qs@, ix@),
            decreases m - j,
        {
            j = j + 1;
        }
        proof {
            let w = choose|w: int| 0 <= w < q.len() && q[w].1 == sorted_points(q)[k as int];
            assert(j < m) by {
                if j >= m {
                    assert(q[w].1 != p);
                }
            }
            lemma_first_index(q, p, j as int);
        }
        let a = qs[ix[j]].aiken_eval.clone();
        let b = qs[ix[j]].plinth_eval.clone();
        let ghost before = evals_view(r@);
        r.push((p, a, b));
        k = k + 1;
        assert(evals_view(r@) =~= before.push((p, a@, b@)));
        assert(evals_view(r@) =~= opening_evals(q).take(k as int));
    }
    assert(opening_evals(q).take(n as int) =~= opening_evals(q));
    r
}

/// Openings opened at the same rotations.
#[derive(Clone, Debug)]
pub struct RotationSet {
    pub points: Vec<i32>,
    pub commitments: Vec<CommitmentOpening>,
}

/// The openings as mathematical values.
pub open spec fn openings_view(v: Seq<CommitmentOpening>) -> Seq<OpeningView> {
    Seq::new(v.len(), |i: int| v[i].oview())
}

/// The rotation sets as mathematical values.
pub open spec fn sets_view(v: Seq<RotationSet>) -> Seq<SetView> {
    Seq::new(v.len(), |i: int| (v[i].points@, openings_view(v[i].commitments@)))
}

proof fn lemma_find_set(sets: Seq<SetView>, pts: Seq<i32>, j: int)
    requires
        -1 <= j < sets.len(),
        forall|k: int| 0 <= k < sets.len() && (j < 0 || k < j) ==> sets[k].0 != pts,
        j >= 0 ==> sets[j].0 == pts,
    ensures
        find_set(sets, pts) == j,
    decreases sets.len(),
{
    if sets.len() > 0 {
        if j == sets.len() - 1 {
            lemma_find_set(sets.drop_last(), pts, -1);
        } else {
            lemma_find_set(sets.drop_last(), pts, j);
        }
    }
}

fn same_points(a: &Vec<i32>, b: &Vec<i32>) -> (r: bool)
    ensures
        r == (a@ == b@),
{
    let n = a.len();
    if n != b.len() {
        return false;
    }
    let mut i: usize = 0;
    while i < n
        invariant
            i <= n,
            n == a@.len(),
            n == b@.len(),
            a@.take(i as int) == b@.take(i as int),
        decreases n - i,
    {
        if a[i] != b[i] {
            return false;
        }
        i = i + 1;
        assert(a@.take(i as int) =~= a@.take((i - 1) as int).push(a@[i - 1]));
        assert(b@.take(i as int) =~= b@.take((i - 1) as int).push(b@[i - 1]));
    }
    assert(a@.take(n as int) =~= a@);
    assert(b@.take(n as int) =~= b@);
    true
}

/// The queries the verifier opens, grouped by commitment (in order of first
/// appearance), each commitment opened at its rotations in increasing order
/// with the first query's evaluation at each, and commitments opened at the
/// same rotations grouped together (sets in order of first appearance).
pub fn shplonk_rotation_sets(
    advice_queries: &Vec<ColumnQuery>,
    fixed_queries: &Vec<ColumnQuery>,
    permutation_columns: &Vec<PermutationColumn>,
    permutation_set_count: usize,
    lookup_count: usize,
    blinding_factors: usize,
) -> (sets: Vec<RotationSet>)
    requires
        blinding_factors < i32::MAX,
    ensures
        sets_view(sets@) == spec_rotation_sets(
            spec_opening_queries(
                advice_queries@,
                fixed_queries@,
                permutation_columns@.len() as nat,
                permutation_set_count as nat,
                lookup_count as nat,
                blinding_factors as nat,
            ),
        ),
{
    let qs = opening_queries(
        advice_queries,
        fixed_queries,
        permutation_columns.len(),
        permutation_set_count,
        lookup_count,
        blinding_factors,
    );
    let ghost qv = queries_view(qs@);
    let (order, members) = group_by_commitment(&qs);
    let ghost ops = spec_openings(qv);
    // one opening per commitment
    let mut openings: Vec<(Vec<i32>, CommitmentOpening)> = Vec::new();
    let n = order.len();
    let mut j: usize = 0;
    while j < n
        invariant
            j <= n,
            n == order@.len(),
            n == members@.len(),
            qv == queries_view(qs@),
            order@ == commitment_order(qv),
            ops == spec_openings(qv),
            forall|p: int, k: int| 0 <= p < members@.len() && 0 <= k < members@[p]@.len() ==> #[trigger] members@[p]@[k] < qs@.len(),
            forall|p: int| 0 <= p < members@.len() ==> at_indices(qs@, #[trigger] members@[p]@) == queries_for(qv, order@[p]),
            openings@.len() == j,
            forall|p: int| 0 <= p < j ==> (#[trigger] openings@[p].0@, openings@[p].1.oview()) == ops[p],
        decreases n - j,
    {
        let ix = &members[j];
        assert(at_indices(qs@, ix@) == queries_for(qv, order@[j as int]));
        let pts = points_of(&qs, ix);
        let evals = evals_of(&qs, ix, &pts);
        let opening = CommitmentOpening { commitment: order[j], evals };
        openings.push((pts, opening));
        j = j + 1;
    }
    // openings at the same rotations share a set
    let mut set_points: Vec<Vec<i32>> = Vec::new();
    let mut set_openings: Vec<Vec<CommitmentOpening>> = Vec::new();
    let mut i: usize = 0;
    while i < n
        invariant
            i <= n,
            openings@.len() == n,
            n == ops.len(),
            forall|p: int| 0 <= p < n ==> (#[trigger] openings@[p].0@, openings@[p].1.oview()) == ops[p],
            set_points@.len() == set_openings@.len(),
            Seq::new(set_points@.len(), |k: int| (set_points@[k]@, openings_view(set_openings@[k]@))) == group_sets(
                ops.take(i as int),
            ),
        decreases n - i,
    {
        let ghost r = group_sets(ops.take(i as int));
        proof {
            assert(ops.take(i + 1).drop_last() =~= ops.take(i as int));
            assert(ops.take(i + 1).last() == ops[i as int]);
        }
        let m = set_points.len();
        let mut k: usize = 0;
        let mut found = false;
        while k < m && !found
            invariant
                k <= m,
                i < n,
                openings@.len() == n,
                m == set_points@.len(),
                m == r.len(),
                forall|t: int| 0 <= t < m ==> (#[trigger] r[t]).0 == set_points@[t]@,
                found ==> k < m && r[k as int].0 == openings@[i as int].0@,
                forall|t: int| 0 <= t < k ==> r[t].0 != openings@[i as int].0@,
            decreases m - k + if found { 0int } else { 1int },
        {
            if same_points(&set_points[k], &openings[i].0) {
                found = true;
            } else {
                k = k + 1;
            }
        }
        assert((openings@[i as int].0@, openings@[i as int].1.oview()) == ops[i as int]);
        let o = duplicate_opening(&openings[i].1);
        let ghost before = Seq::new(set_points@.len(), |t: int| (set_points@[t]@, openings_view(set_openings@[t]@)));
        if found {
            proof {
                lemma_find_set(r, ops[i as int].0, k as int);
            }
            let mut g = set_openings.remove(k);
            let ghost g0 = g@;
            g.push(o);
            set_openings.insert(k, g);
            proof {
                assert(openings_view(g@) =~= openings_view(g0).push(o.oview()));
                assert(Seq::new(set_points@.len(), |t: int| (set_points@[t]@, openings_view(set_openings@[t]@)))
                    =~= r.update(k as int, (r[k as int].0, r[k as int].1.push(ops[i as int].1))));
            }
        } else {
            proof {
                lemma_find_set(r, ops[i as int].0, -1);
            }
            let pts = copy_points(&openings[i].0);
            let mut nv: Vec<CommitmentOpening> = Vec::new();
            let ghost ov = o.oview();
            nv.push(o);
            assert(openings_view(nv@) =~= seq![ops[i as int].1]);
            let ghost sp0 = set_points@;
            let ghost so0 = set_openings@;
            set_points.push(pts);
            set_openings.push(nv);
            proof {
                let now = Seq::new(set_points@.len(), |t: int| (set_points@[t]@, openings_view(set_openings@[t]@)));
                assert forall|t: int| 0 <= t < now.len() implies now[t] == r.push((ops[i as int].0, seq![ops[i as int].1]))[t] by {
                    if t < m {
                        assert(set_points@[t] == sp0[t]);
                        assert(set_openings@[t] == so0[t]);
                        assert(before[t] == r[t]);
                    }
                }
                assert(now =~= r.push((ops[i as int].0, seq![ops[i as int].1])));
            }
        }
        i = i + 1;
    }
    assert(ops.take(n as int) =~= ops);
    // the sets themselves
    let mut sets: Vec<RotationSet> = Vec::new();
    let mut t: usize = 0;
    let ghost g = group_sets(ops);
    let total = set_points.len();
    while set_points.len() > 0
        invariant
            set_points@.len() == set_openings@.len(),
            total == g.len(),
            t + set_points@.len() == total,
            sets_view(sets@) == g.take(t as int),
            forall|k: int| 0 <= k < set_points@.len() ==> (#[trigger] set_points@[k]@, openings_view(set_openings@[k]@)) == g[t + k],
        decreases set_points@.len(),
    {
        let ghost sp = set_points@;
        let ghost so = set_openings@;
        let points = set_points.remove(0);
        let commitments = set_openings.remove(0);
        assert((points@, openings_view(commitments@)) == g[t as int]);
        let ghost before = sets_view(sets@);
        sets.push(RotationSet { points, commitments });
        proof {
            assert(sets_view(sets@) =~= before.push(g[t as int]));
            assert forall|k: int| 0 <= k < set_points@.len() implies (#[trigger] set_points@[k]@, openings_view(set_openings@[k]@)) == g[t + 1 + k] by {
                assert(set_points@[k] == sp[k + 1]);
                assert(set_openings@[k] == so[k + 1]);
            }
        }
        t = t + 1;
        assert(sets_view(sets@) =~= g.take(t as int));
    }
    assert(g.take(t as int) =~= g);
    sets
}

fn copy_points(v: &Vec<i32>) -> (r: Vec<i32>)
    ensures
        r@ == v@,
{
    let mut r: Vec<i32> = Vec::new();
    let n = v.len();
    let mut i: usize = 0;
    while i < n
        invariant
            i <= n,
            n == v@.len(),
            r@ == v@.take(i as int),
        decreases n - i,
    {
        r.push(v[i]);
        i = i + 1;
        assert(r@ =~= v@.take(i as int));
    }
    assert(v@.take(n as int) =~= v@);
    r
}

/// A copy of an opening.
fn duplicate_opening(o: &CommitmentOpening) -> (r: CommitmentOpening)
    ensures
        r.oview() == o.oview(),
{
    let mut evals: Vec<(i32, String, String)> = Vec::new();
    let n = o.evals.len();
    let mut i: usize = 0;
    while i < n
        invariant
            i <= n,
            n == o.evals@.len(),
            evals_view(evals@) == evals_view(o.evals@).take(i as int),
        decreases n - i,
    {
        let e = &o.evals[i];
        let ghost before = evals_view(evals@);
        let a = e.1.clone();
        let b = e.2.clone();
        assert((e.0, a@, b@) == evals_view(o.evals@)[i as int]);
        evals.push((e.0, a, b));
        assert(evals_view(evals@) =~= before.push((e.0, a@, b@)));
        i = i + 1;
        assert(evals_view(evals@) =~= evals_view(o.evals@).take(i as int));
    }
    assert(evals_view(o.evals@).take(n as int) =~= evals_view(o.evals@));
    CommitmentOpening { commitment: o.commitment, evals }
}

// ---------------------------------------------------------------------------
// The layout of a proof.

/// What the layout reads from a verifying key's constraint system.
#[derive(Debug)]
pub struct AxiomConstraintSystem {
    pub num_instance_columns: usize,
    pub num_instance_queries: usize,
    pub num_challenges: usize,
    pub advice_column_phases: Vec<u8>,
    pub num_advice_columns: usize,
    pub permutation_columns: Vec<PermutationColumn>,
    pub degree: usize,
    /// (column, rotation) of each advice query, in order.
    pub advice_queries: Vec<(usize, i32)>,
    /// (column, rotation) of each fixed query, in order.
    pub fixed_queries: Vec<(usize, i32)>,
    /// The polynomials of each gate.
    pub gates: Vec<Vec<GateExpression>>,
    pub lookups: Vec<LookupArgument>,
    pub blinding_factors: usize,
    pub quotient_poly_degree: usize,
}

/// Why a constraint system is not one the generator supports.
#[derive(Clone, Copy, Debug, PartialEq, Eq, Structural)]
pub enum LayoutError {
    /// Instance columns are not supported yet.
    InstanceColumns,
    /// Circuit-defined challenges are not supported yet.
    Challenges,
    /// Advice columns in a phase other than the first are not supported yet.
    MultiPhaseAdvice,
    /// The degree leaves no room for permutation columns.
    InvalidDegree,
}

/// The layout of an Axiom SHPLONK proof.
#[derive(Clone, Debug)]
pub struct AxiomLayout {
    pub num_advice_columns: usize,
    pub quotient_poly_degree: usize,
    pub blinding_factors: usize,
    pub permutation_columns: Vec<PermutationColumn>,
    pub permutation_set_count: usize,
    pub lookup_count: usize,
    pub advice_queries: Vec<ColumnQuery>,
    pub fixed_queries: Vec<ColumnQuery>,
    pub query_sets: Vec<RotationSet>,
    pub super_points: Vec<i32>,
}

/// The queries of one kind of column.
pub open spec fn column_queries(kind: ColumnKind, q: Seq<(usize, i32)>) -> Seq<ColumnQuery> {
    Seq::new(q.len(), |i: int| ColumnQuery { kind, column: q[i].0, rotation: q[i].1 })
}

/// The rotations of every set, one set after the other.
pub open spec fn all_points(sets: Seq<SetView>) -> Seq<i32>
    decreases sets.len(),
{
    if sets.len() == 0 {
        Seq::empty()
    } else {
        all_points(sets.drop_last()) + sets.last().0
    }
}

/// The values of `s`, each once, in order of first appearance.
pub open spec fn distinct_in_order(s: Seq<i32>) -> Seq<i32>
    decreases s.len(),
{
    if s.len() == 0 {
        Seq::empty()
    } else {
        let r = distinct_in_order(s.drop_last());
        if r.contains(s.last()) {
            r
        } else {
            r.push(s.last())
        }
    }
}

/// The first unsupported feature of a constraint system, if any.
pub open spec fn layout_error(cs: AxiomConstraintSystem) -> Option<LayoutError> {
    if !(cs.num_instance_columns == 0 && cs.num_instance_queries == 0) {
        Some(LayoutError::InstanceColumns)
    } else if cs.num_challenges != 0 {
        Some(LayoutError::Challenges)
    } else if exists|i: int| 0 <= i < cs.advice_column_phases@.len() && cs.advice_column_phases@[i] != 0 {
        Some(LayoutError::MultiPhaseAdvice)
    } else if cs.degree <= 2 {
        Some(LayoutError::InvalidDegree)
    } else {
        None
    }
}

/// Number of chunks of `degree - 2` permutation columns.
pub open spec fn spec_permutation_set_count(cs: AxiomConstraintSystem) -> nat {
    let chunk = (cs.degree - 2) as nat;
    ((cs.permutation_columns@.len() + chunk - 1) / chunk as int) as nat
}

/// The rotation sets of a supported constraint system.
pub open spec fn spec_query_sets(cs: AxiomConstraintSystem) -> Seq<SetView> {
    spec_rotation_sets(
        spec_opening_queries(
            column_queries(ColumnKind::Advice, cs.advice_queries@),
            column_queries(ColumnKind::Fixed, cs.fixed_queries@),
            cs.permutation_columns@.len() as nat,
            spec_permutation_set_count(cs),
            cs.lookups@.len(),
            cs.blinding_factors as nat,
        ),
    )
}

fn to_column_queries(kind: ColumnKind, q: &Vec<(usize, i32)>) -> (r: Vec<ColumnQuery>)
    ensures
        r@ == column_queries(kind, q@),
{
    let mut r: Vec<ColumnQuery> = Vec::new();
    let n = q.len();
    let mut i: usize = 0;
    while i < n
        invariant
            i <= n,
            n == q@.len(),
            r@ == column_queries(kind, q@).take(i as int),
        decreases n - i,
    {
        r.push(ColumnQuery { kind, column: q[i].0, rotation: q[i].1 });
        i = i + 1;
        assert(r@ =~= column_queries(kind, q@).take(i as int));
    }
    assert(column_queries(kind, q@).take(n as int) =~= column_queries(kind, q@));
    r
}

fn copy_permutation_columns(v: &Vec<PermutationColumn>) -> (r: Vec<PermutationColumn>)
    ensures
        r@ == v@,
{
    let mut r: Vec<PermutationColumn> = Vec::new();
    let n = v.len();
    let mut i: usize = 0;
    while i < n
        invariant
            i <= n,
            n == v@.len(),
            r@ == v@.take(i as int),
        decreases n - i,
    {
        r.push(v[i]);
        i = i + 1;
        assert(r@ =~= v@.take(i as int));
    }
    assert(v@.take(n as int) =~= v@);
    r
}

/// The rotations of the sets, each once, in order of first appearance.
fn super_points_of(sets: &Vec<RotationSet>) -> (r: Vec<i32>)
    ensures
        r@ == distinct_in_order(all_points(sets_view(sets@))),
{
    let ghost sv = sets_view(sets@);
    let mut r: Vec<i32> = Vec::new();
    let n = sets.len();
    let mut i: usize = 0;
    assert(all_points(sv.take(0)) =~= Seq::<i32>::empty());
    while i < n
        invariant
            i <= n,
            n == sets@.len(),
            sv == sets_view(sets@),
            r@ == distinct_in_order(all_points(sv.take(i as int))),
        decreases n - i,
    {
        let pts = &sets[i].points;
        let ghost base = all_points(sv.take(i as int));
        proof {
            assert(sv.take(i + 1).drop_last() =~= sv.take(i as int));
            assert(sv.take(i + 1).last().0 == pts@);
        }
        let m = pts.len();
        let mut k: usize = 0;
        assert(base + pts@.take(0) =~= base);
        while k < m
            invariant
                k <= m,
                m == pts@.len(),
                r@ == distinct_in_order(base + pts@.take(k as int)),
            decreases m - k,
        {
            let x = pts[k];
            proof {
                assert((base + pts@.take(k + 1)).drop_last() =~= base + pts@.take(k as int));
                assert((base + pts@.take(k + 1)).last() == x);
            }
            let len = r.len();
            let mut j: usize = 0;
            let mut seen = false;
            while j < len && !seen
                invariant
                    j <= len,
                    len == r@.len(),
                    seen ==> r@.contains(x),
                    !seen ==> forall|t: int| 0 <= t < j ==> r@[t] != x,
                decreases len - j + if seen { 0int } else { 1int },
            {
                if r[j] == x {
                    seen = true;
                } else {
                    j = j + 1;
                }
            }
            if !seen {
                r.push(x);
            }
            k = k + 1;
        }
        assert(pts@.take(m as int) =~= pts@);
        i = i + 1;
    }
    assert(sv.take(n as int) =~= sv);
    r
}

impl AxiomLayout {
    /// The layout of a proof for the constraint system: an error for
    /// instance columns, circuit-defined challenges, advice in a later phase,
    /// or a degree below 3, checked in that order.
    pub fn from_vk(cs: &AxiomConstraintSystem) -> (r: Result<AxiomLayout, LayoutError>)
        requires
            cs.blinding_factors < i32::MAX,
        ensures
            match layout_error(*cs) {
                Some(e) => r == Err::<AxiomLayout, LayoutError>(e),
                None => r matches Ok(l) && {
                    &&& l.num_advice_columns == cs.num_advice_columns
                    &&& l.quotient_poly_degree == cs.quotient_poly_degree
                    &&& l.blinding_factors == cs.blinding_factors
                    &&& l.permutation_columns@ == cs.permutation_columns@
                    &&& l.permutation_set_count == spec_permutation_set_count(*cs)
                    &&& l.lookup_count == cs.lookups@.len()
                    &&& l.advice_queries@ == column_queries(ColumnKind::Advice, cs.advice_queries@)
                    &&& l.fixed_queries@ == column_queries(ColumnKind::Fixed, cs.fixed_queries@)
                    &&& sets_view(l.query_sets@) == spec_query_sets(*cs)
                    &&& l.super_points@ == distinct_in_order(all_points(spec_query_sets(*cs)))
                },
            },
    {
        if !(cs.num_instance_columns == 0 && cs.num_instance_queries == 0) {
            return Err(LayoutError::InstanceColumns);
        }
        if cs.num_challenges != 0 {
            return Err(LayoutError::Challenges);
        }
        let n = cs.advice_column_phases.len();
        let mut i: usize = 0;
        while i < n
            invariant
                i <= n,
                n == cs.advice_column_phases@.len(),
                cs.num_instance_columns == 0 && cs.num_instance_queries == 0,
                cs.num_challenges == 0,
                forall|k: int| 0 <= k < i ==> cs.advice_column_phases@[k] == 0,
            decreases n - i,
        {
            if cs.advice_column_phases[i] != 0 {
                assert(cs.advice_column_phases@[i as int] != 0);
                assert(layout_error(*cs) == Some(LayoutError::MultiPhaseAdvice));
                return Err(LayoutError::MultiPhaseAdvice);
            }
            i = i + 1;
        }
        let chunk_len = cs.degree.saturating_sub(2);
        if chunk_len == 0 {
            return Err(LayoutError::InvalidDegree);
        }
        let permutation_columns = copy_permutation_columns(&cs.permutation_columns);
        let permutation_set_count = crate::stats::arguments::div_ceil(permutation_columns.len(), chunk_len);
        let advice_queries = to_column_queries(ColumnKind::Advice, &cs.advice_queries);
        let fixed_queries = to_column_queries(ColumnKind::Fixed, &cs.fixed_queries);
        let query_sets = shplonk_rotation_sets(
            &advice_queries,
            &fixed_queries,
            &permutation_columns,
            permutation_set_count,
            cs.lookups.len(),
            cs.blinding_factors,
        );
        let super_points = super_points_of(&query_sets);
        Ok(
            AxiomLayout {
                num_advice_columns: cs.num_advice_columns,
                quotient_poly_degree: cs.quotient_poly_degree,
                blinding_factors: cs.blinding_factors,
                permutation_columns,
                permutation_set_count,
                lookup_count: cs.lookups.len(),
                advice_queries,
                fixed_queries,
                query_sets,
                super_points,
            },
        )
    }

    /// Number of permutation columns per chunk: at least one when there is
    /// no chunk.
    pub fn chunk_len(&self) -> (n: usize)
        ensures
            n == if self.permutation_set_count == 0 {
                if self.permutation_columns@.len() > 1 { self.permutation_columns@.len() as int } else { 1 }
            } else {
                (self.permutation_columns@.len() + self.permutation_set_count - 1) / (self.permutation_set_count as int)
            },
    {
        if self.permutation_set_count == 0 {
            let n = self.permutation_columns.len();
            if n > 1 { n } else { 1 }
        } else {
            crate::stats::arguments::div_ceil(self.permutation_columns.len(), self.permutation_set_count)
        }
    }
}

/// Position of the first query of `column` at `rotation`.
pub open spec fn spec_query_index(queries: Seq<ColumnQuery>, column: usize, rotation: i32) -> Option<nat>
    decreases queries.len(),
{
    if queries.len() == 0 {
        None
    } else {
        match spec_query_index(queries.drop_last(), column, rotation) {
            Some(i) => Some(i),
            None => if queries.last().column == column && queries.last().rotation == rotation {
                Some((queries.len() - 1) as nat)
            } else {
                None
            },
        }
    }
}

/// Position of the first query of `column` at `rotation`, if any.
pub fn query_index(queries: &Vec<ColumnQuery>, column: usize, rotation: i32) -> (r: Option<usize>)
    ensures
        match spec_query_index(queries@, column, rotation) {
            Some(i) => r == Some(i as usize) && i < queries@.len(),
            None => r is None,
        },
{
    let n = queries.len();
    let mut i: usize = 0;
    while i < n
        invariant
            i <= n,
            n == queries@.len(),
            spec_query_index(queries@.take(i as int), column, rotation) is None,
        decreases n - i,
    {
        proof {
            assert(queries@.take(i + 1).drop_last() =~= queries@.take(i as int));
        }
        if queries[i].column == column && queries[i].rotation == rotation {
            proof {
                lemma_query_index_prefix(queries@, column, rotation, i + 1);
            }
            return Some(i);
        }
        i = i + 1;
    }
    assert(queries@.take(n as int) =~= queries@);
    None
}

/// Once a query is found in a prefix, the whole sequence agrees.
proof fn lemma_query_index_prefix(queries: Seq<ColumnQuery>, column: usize, rotation: i32, p: int)
    requires
        0 <= p <= queries.len(),
        spec_query_index(queries.take(p), column, rotation) is Some,
    ensures
        spec_query_index(queries, column, rotation) == spec_query_index(queries.take(p), column, rotation),
    decreases queries.len() - p,
{
    if p < queries.len() {
        assert(queries.take(p + 1).drop_last() =~= queries.take(p));
        lemma_query_index_prefix(queries, column, rotation, p + 1);
    } else {
        assert(queries.take(p) =~= queries);
    }
}

/// The rotations of `super_points` that are not among `points`, in order.
pub open spec fn spec_complement(super_points: Seq<i32>, points: Seq<i32>) -> Seq<i32>
    decreases super_points.len(),
{
    if super_points.len() == 0 {
        Seq::empty()
    } else {
        let r = spec_complement(super_points.drop_last(), points);
        if points.contains(super_points.last()) {
            r
        } else {
            r.push(super_points.last())
        }
    }
}

/// The rotations of `super_points` that are not among `points`, in order.
pub fn complement_rotations(super_points: &Vec<i32>, points: &Vec<i32>) -> (r: Vec<i32>)
    ensures
        r@ == spec_complement(super_points@, points@),
{
    let mut r: Vec<i32> = Vec::new();
    let n = super_points.len();
    let mut i: usize = 0;
    while i < n
        invariant
            i <= n,
            n == super_points@.len(),
            r@ == spec_complement(super_points@.take(i as int), points@),
        decreases n - i,
    {
        let x = super_points[i];
        proof {
            assert(super_points@.take(i + 1).drop_last() =~= super_points@.take(i as int));
        }
        let m = points.len();
        let mut j: usize = 0;
        let mut inside = false;
        while j < m && !inside
            invariant
                j <= m,
                m == points@.len(),
                inside ==> points@.contains(x),
                !inside ==> forall|t: int| 0 <= t < j ==> points@[t] != x,
            decreases m - j + if inside { 0int } else { 1int },
        {
            if points[j] == x {
                inside = true;
            } else {
                j = j + 1;
            }
        }
        if !inside {
            r.push(x);
        }
        i = i + 1;
    }
    assert(super_points@.take(n as int) =~= super_points@);
    r
}

/// Number of openings in all the sets.
pub open spec fn count_openings(sets: Seq<SetView>) -> nat
    decreases sets.len(),
{
    if sets.len() == 0 {
        0
    } else {
        count_openings(sets.drop_last()) + sets.last().1.len()
    }
}

proof fn lemma_count_openings_update(sets: Seq<SetView>, j: int, v: SetView)
    requires
        0 <= j < sets.len(),
    ensures
        count_openings(sets.update(j, v)) == count_openings(sets) - sets[j].1.len() + v.1.len(),
    decreases sets.len(),
{
    if j < sets.len() - 1 {
        assert(sets.update(j, v).drop_last() =~= sets.drop_last().update(j, v));
        lemma_count_openings_update(sets.drop_last(), j, v);
    } else {
        assert(sets.update(j, v).drop_last() =~= sets.drop_last());
    }
}

proof fn lemma_find_set_result(sets: Seq<SetView>, pts: Seq<i32>)
    ensures
        -1 <= find_set(sets, pts) < sets.len(),
        find_set(sets, pts) >= 0 ==> sets[find_set(sets, pts)].0 == pts,
        find_set(sets, pts) < 0 ==> forall|k: int| 0 <= k < sets.len() ==> sets[k].0 != pts,
    decreases sets.len(),
{
    if sets.len() > 0 {
        lemma_find_set_result(sets.drop_last(), pts);
        assert forall|k: int| 0 <= k < sets.len() - 1 implies sets[k] == sets.drop_last()[k] by {}
    }
}

/// Grouping openings by rotations: the sets have distinct rotations, they
/// hold every opening exactly once, and each opening is in the set of its
/// rotations.
pub proof fn lemma_group_sets(ops: Seq<(Seq<i32>, OpeningView)>)
    ensures
        forall|i: int, j: int|
            0 <= i < j < group_sets(ops).len() ==> group_sets(ops)[i].0 != group_sets(ops)[j].0,
        count_openings(group_sets(ops)) == ops.len(),
        forall|k: int|
            0 <= k < ops.len() ==> exists|i: int|
                0 <= i < group_sets(ops).len() && group_sets(ops)[i].0 == (#[trigger] ops[k]).0
                    && group_sets(ops)[i].1.contains(ops[k].1),
    decreases ops.len(),
{
    if ops.len() > 0 {
        let d = ops.drop_last();
        let r = group_sets(d);
        let o = ops.last();
        lemma_group_sets(d);
        lemma_find_set_result(r, o.0);
        let j = find_set(r, o.0);
        let g = group_sets(ops);
        if j >= 0 {
            lemma_count_openings_update(r, j, (r[j].0, r[j].1.push(o.1)));
            assert forall|k: int| 0 <= k < ops.len() implies exists|i: int|
                0 <= i < g.len() && g[i].0 == (#[trigger] ops[k]).0 && g[i].1.contains(ops[k].1) by {
                if k == ops.len() - 1 {
                    assert(g[j].1 == r[j].1.push(o.1));
                    assert(g[j].1[r[j].1.len() as int] == o.1);
                } else {
                    assert(ops[k] == d[k]);
                    let i = choose|i: int| 0 <= i < r.len() && r[i].0 == d[k].0 && r[i].1.contains(d[k].1);
                    let t = choose|t: int| 0 <= t < r[i].1.len() && r[i].1[t] == d[k].1;
                    if i == j {
                        assert(g[i].1[t] == d[k].1);
                    } else {
                        assert(g[i] == r[i]);
                    }
                }
            }
        } else {
            assert forall|k: int| 0 <= k < ops.len() implies exists|i: int|
                0 <= i < g.len() && g[i].0 == (#[trigger] ops[k]).0 && g[i].1.contains(ops[k].1) by {
                if k == ops.len() - 1 {
                    assert(g[r.len() as int] == (o.0, seq![o.1]));
                    assert(seq![o.1][0] == o.1);
                } else {
                    assert(ops[k] == d[k]);
                    let i = choose|i: int| 0 <= i < r.len() && r[i].0 == d[k].0 && r[i].1.contains(d[k].1);
                    assert(g[i] == r[i]);
                }
            }
            assert(g.drop_last() =~= r);
        }
    }
}

/// The rotation sets of the queries: distinct sets of rotations, each in
/// increasing order, and one opening per commitment.
pub proof fn lemma_rotation_sets_laws(qs: Seq<QueryView>)
    ensures
        forall|i: int, j: int|
            0 <= i < j < spec_rotation_sets(qs).len() ==> spec_rotation_sets(qs)[i].0 != spec_rotation_sets(qs)[j].0,
        count_openings(spec_rotation_sets(qs)) == commitment_order(qs).len(),
        forall|k: int| 0 <= k < spec_openings(qs).len() ==> increasing(#[trigger] spec_openings(qs)[k].0),
{
    lemma_group_sets(spec_openings(qs));
    assert forall|k: int| 0 <= k < spec_openings(qs).len() implies increasing(#[trigger] spec_openings(qs)[k].0) by {
        lemma_sorted_points(queries_for(qs, commitment_order(qs)[k]));
    }
}

} // verus!
