//! Multi-scalar multiplications of the verifier: built as a tree of
//! operations, flattened to a list of (scalar, point) elements, and
//! optimised by adding up the scalars of elements on the same point.

use vstd::prelude::*;

use super::rotation_description::RotationDescription;

verus! {

/// A commitment, by the index the circuit description gives it.
#[derive(Clone, Copy, Debug, PartialEq, Eq, Structural)]
pub struct Commitments(pub u64);

/// A claimed evaluation, by the index the circuit description gives it.
#[derive(Clone, Copy, Debug, PartialEq, Eq, Structural)]
pub struct Evaluations(pub u64);

/// A scalar of the verifier, as the operations that compute it.
#[derive(Debug)]
pub enum ScalarOperation {
    Zero,
    Mul(Box<ScalarOperation>, Evaluations),
    MulS(Box<ScalarOperation>, Box<ScalarOperation>),
    Power(char, i32),
    Add(Box<ScalarOperation>, Box<ScalarOperation>),
    Rotation(RotationDescription),
}

/// An MSM as the operations that build it.
#[derive(Debug)]
pub enum MsmOperations {
    Empty,
    Append(Box<MsmOperations>, ScalarOperation, Commitments),
    AppendW(Box<MsmOperations>, ScalarOperation, usize),
    AppendNegatedG1(Box<MsmOperations>, ScalarOperation),
    Add(Box<MsmOperations>, Box<MsmOperations>),
    Scale(Box<MsmOperations>, ScalarOperation),
}

/// One term of a flat MSM: a scalar and the point it multiplies, a
/// commitment, one of the opening proof's points, or the negated generator.
#[derive(Debug)]
pub enum ElementMSM {
    Element(ScalarOperation, Commitments),
    ElementW(ScalarOperation, usize),
    ElementNegatedG1(ScalarOperation),
}

/// A flat MSM.
#[derive(Debug)]
pub struct OptimizedMSM {
    pub elements: Vec<ElementMSM>,
}

/// The point of an element.
#[derive(Clone, Copy, Debug, PartialEq, Eq, Structural)]
pub enum G1PointKey {
    Commitment(Commitments),
    W(usize),
    NegatedG1,
}

/// The scalar of an element.
pub open spec fn scalar_of(e: ElementMSM) -> ScalarOperation {
    match e {
        ElementMSM::Element(s, _) => s,
        ElementMSM::ElementW(s, _) => s,
        ElementMSM::ElementNegatedG1(s) => s,
    }
}

/// The point of an element.
pub open spec fn key_of(e: ElementMSM) -> G1PointKey {
    match e {
        ElementMSM::Element(_, c) => G1PointKey::Commitment(c),
        ElementMSM::ElementW(_, i) => G1PointKey::W(i),
        ElementMSM::ElementNegatedG1(_) => G1PointKey::NegatedG1,
    }
}

/// The element of a point with a scalar.
pub open spec fn element_at(k: G1PointKey, s: ScalarOperation) -> ElementMSM {
    match k {
        G1PointKey::Commitment(c) => ElementMSM::Element(s, c),
        G1PointKey::W(i) => ElementMSM::ElementW(s, i),
        G1PointKey::NegatedG1 => ElementMSM::ElementNegatedG1(s),
    }
}

/// The element with its scalar multiplied by `factor`, on the left.
pub open spec fn scaled(e: ElementMSM, factor: ScalarOperation) -> ElementMSM {
    element_at(key_of(e), ScalarOperation::MulS(Box::new(factor), Box::new(scalar_of(e))))
}

/// The elements of an MSM in order: each append adds one at the end, a sum
/// puts the second MSM's elements after the first's, and a scaling
/// multiplies every scalar by the factor.
pub open spec fn spec_flatten(m: MsmOperations) -> Seq<ElementMSM>
    decreases m,
{
    match m {
        MsmOperations::Empty => Seq::empty(),
        MsmOperations::Append(a, s, c) => spec_flatten(*a).push(ElementMSM::Element(s, c)),
        MsmOperations::AppendW(a, s, i) => spec_flatten(*a).push(ElementMSM::ElementW(s, i)),
        MsmOperations::AppendNegatedG1(a, s) => spec_flatten(*a).push(ElementMSM::ElementNegatedG1(s)),
        MsmOperations::Add(a, b) => spec_flatten(*a) + spec_flatten(*b),
        MsmOperations::Scale(a, f) => {
            let inner = spec_flatten(*a);
            Seq::new(inner.len(), |i: int| scaled(inner[i], f))
        },
    }
}

/// The points of the elements, each once, in order of first appearance.
pub open spec fn key_order(es: Seq<ElementMSM>) -> Seq<G1PointKey>
    decreases es.len(),
{
    if es.len() == 0 {
        Seq::empty()
    } else {
        let r = key_order(es.drop_last());
        if r.contains(key_of(es.last())) {
            r
        } else {
            r.push(key_of(es.last()))
        }
    }
}

/// The scalars of the elements on point `k`, in order.
pub open spec fn scalars_at(es: Seq<ElementMSM>, k: G1PointKey) -> Seq<ScalarOperation>
    decreases es.len(),
{
    if es.len() == 0 {
        Seq::empty()
    } else if key_of(es.last()) == k {
        scalars_at(es.drop_last(), k).push(scalar_of(es.last()))
    } else {
        scalars_at(es.drop_last(), k)
    }
}

/// Scalars added from left to right; zero when there is none.
pub open spec fn sum_left(ss: Seq<ScalarOperation>) -> ScalarOperation
    decreases ss.len(),
{
    if ss.len() == 0 {
        ScalarOperation::Zero
    } else if ss.len() == 1 {
        ss[0]
    } else {
        ScalarOperation::Add(Box::new(sum_left(ss.drop_last())), Box::new(ss.last()))
    }
}

/// One element per point, in order of first appearance, its scalar the sum
/// of the scalars of the elements on that point.
pub open spec fn spec_optimize(es: Seq<ElementMSM>) -> Seq<ElementMSM> {
    let order = key_order(es);
    Seq::new(order.len(), |i: int| element_at(order[i], sum_left(scalars_at(es, order[i]))))
}

/// The largest exponent of `var` in a scalar: that of a power of `var`, the
/// larger one of a product or sum of scalars, that of the scalar of a
/// product with an evaluation, and 0 for anything else.
pub open spec fn spec_max_power(s: ScalarOperation, var: char) -> i32
    decreases s,
{
    match s {
        ScalarOperation::Power(name, e) => if name == var {
            e
        } else {
            0
        },
        ScalarOperation::Mul(a, _) => spec_max_power(*a, var),
        ScalarOperation::MulS(a, b) => {
            let x = spec_max_power(*a, var);
            let y = spec_max_power(*b, var);
            if x >= y {
                x
            } else {
                y
            }
        },
        ScalarOperation::Add(a, b) => {
            let x = spec_max_power(*a, var);
            let y = spec_max_power(*b, var);
            if x >= y {
                x
            } else {
                y
            }
        },
        _ => 0,
    }
}

/// The largest exponent of `var` over the scalars of the elements.
pub open spec fn spec_max_power_all(es: Seq<ElementMSM>, var: char) -> i32
    decreases es.len(),
{
    if es.len() == 0 {
        0
    } else if es.len() == 1 {
        spec_max_power(scalar_of(es[0]), var)
    } else {
        let x = spec_max_power_all(es.drop_last(), var);
        let y = spec_max_power(scalar_of(es.last()), var);
        if x >= y {
            x
        } else {
            y
        }
    }
}

impl ScalarOperation {
    /// A copy of the scalar.
    pub fn duplicate(&self) -> (r: ScalarOperation)
        ensures
            r == *self,
        decreases self,
    {
        match self {
            ScalarOperation::Zero => ScalarOperation::Zero,
            ScalarOperation::Mul(a, e) => ScalarOperation::Mul(Box::new(a.duplicate()), *e),
            ScalarOperation::MulS(a, b) => ScalarOperation::MulS(Box::new(a.duplicate()), Box::new(b.duplicate())),
            ScalarOperation::Power(c, e) => ScalarOperation::Power(*c, *e),
            ScalarOperation::Add(a, b) => ScalarOperation::Add(Box::new(a.duplicate()), Box::new(b.duplicate())),
            ScalarOperation::Rotation(r) => ScalarOperation::Rotation(*r),
        }
    }
}

impl ElementMSM {
    /// The scalar of the element.
    pub fn get_scalar(&self) -> (r: &ScalarOperation)
        ensures
            *r == scalar_of(*self),
    {
        match self {
            ElementMSM::Element(scalar, _) => scalar,
            ElementMSM::ElementW(scalar, _) => scalar,
            ElementMSM::ElementNegatedG1(scalar) => scalar,
        }
    }

    /// The point of the element.
    pub fn key(&self) -> (k: G1PointKey)
        ensures
            k == key_of(*self),
    {
        match self {
            ElementMSM::Element(_, c) => G1PointKey::Commitment(*c),
            ElementMSM::ElementW(_, i) => G1PointKey::W(*i),
            ElementMSM::ElementNegatedG1(_) => G1PointKey::NegatedG1,
        }
    }

    /// The element with its scalar multiplied by `factor`.
    pub fn scaled_by(&self, factor: &ScalarOperation) -> (r: ElementMSM)
        ensures
            r == scaled(*self, *factor),
    {
        let s = ScalarOperation::MulS(Box::new(factor.duplicate()), Box::new(self.get_scalar().duplicate()));
        make_element(self.key(), s)
    }
}

/// The element of a point with a scalar.
pub fn make_element(k: G1PointKey, s: ScalarOperation) -> (r: ElementMSM)
    ensures
        r == element_at(k, s),
{
    match k {
        G1PointKey::Commitment(c) => ElementMSM::Element(s, c),
        G1PointKey::W(i) => ElementMSM::ElementW(s, i),
        G1PointKey::NegatedG1 => ElementMSM::ElementNegatedG1(s),
    }
}

impl MsmOperations {
    /// The elements of the MSM, in order.
    pub fn flatten_msm(&self) -> (r: OptimizedMSM)
        ensures
            r.elements@ == spec_flatten(*self),
        decreases self,
    {
        match self {
            MsmOperations::Empty => OptimizedMSM { elements: Vec::new() },
            MsmOperations::Append(msm, scalar, commitment) => {
                let mut flattened = msm.flatten_msm();
                flattened.elements.push(ElementMSM::Element(scalar.duplicate(), *commitment));
                flattened
            },
            MsmOperations::AppendW(msm, scalar, index) => {
                let mut flattened = msm.flatten_msm();
                flattened.elements.push(ElementMSM::ElementW(scalar.duplicate(), *index));
                flattened
            },
            MsmOperations::AppendNegatedG1(msm, scalar) => {
                let mut flattened = msm.flatten_msm();
                flattened.elements.push(ElementMSM::ElementNegatedG1(scalar.duplicate()));
                flattened
            },
            MsmOperations::Add(msm_a, msm_b) => {
                let mut flattened_a = msm_a.flatten_msm();
                let mut flattened_b = msm_b.flatten_msm();
                flattened_a.elements.append(&mut flattened_b.elements);
                flattened_a
            },
            MsmOperations::Scale(msm, scalar) => {
                let flattened = msm.flatten_msm();
                let ghost inner = flattened.elements@;
                let mut out: Vec<ElementMSM> = Vec::new();
                let n = flattened.elements.len();
                let mut i: usize = 0;
                while i < n
                    invariant
                        i <= n,
                        n == inner.len(),
                        inner == flattened.elements@,
                        out@ == Seq::new(i as nat, |k: int| scaled(inner[k], *scalar)),
                    decreases n - i,
                {
                    out.push(flattened.elements[i].scaled_by(scalar));
                    i = i + 1;
                    assert(out@ =~= Seq::new(i as nat, |k: int| scaled(inner[k], *scalar)));
                }
                OptimizedMSM { elements: out }
            },
        }
    }
}

fn position_of(order: &Vec<G1PointKey>, k: G1PointKey) -> (r: Option<usize>)
    ensures
        match r {
            Some(j) => j < order@.len() && order@[j as int] == k,
            None => !order@.contains(k),
        },
{
    let n = order.len();
    let mut j: usize = 0;
    while j < n
        invariant
            j <= n,
            n == order@.len(),
            forall|t: int| 0 <= t < j ==> order@[t] != k,
        decreases n - j,
    {
        if order[j] == k {
            return Some(j);
        }
        j = j + 1;
    }
    None
}

/// The scalars on a point not yet seen are none.
proof fn lemma_scalars_absent(es: Seq<ElementMSM>, k: G1PointKey)
    requires
        !key_order(es).contains(k),
    ensures
        scalars_at(es, k).len() == 0,
    decreases es.len(),
{
    if es.len() > 0 {
        let r = key_order(es.drop_last());
        if !r.contains(k) {
            lemma_scalars_absent(es.drop_last(), k);
        } else {
            assert(key_order(es).contains(k)) by {
                if !r.contains(key_of(es.last())) {
                    let t = choose|t: int| 0 <= t < r.len() && r[t] == k;
                    assert(r.push(key_of(es.last()))[t] == k);
                }
            }
        }
        if key_of(es.last()) == k {
            assert(key_order(es).contains(k)) by {
                if r.contains(k) {
                } else {
                    assert(r.push(k)[r.len() as int] == k);
                }
            }
        }
    }
}

/// Each point of the order has scalars.
proof fn lemma_scalars_present(es: Seq<ElementMSM>, k: G1PointKey)
    requires
        key_order(es).contains(k),
    ensures
        scalars_at(es, k).len() > 0,
    decreases es.len(),
{
    if es.len() > 0 {
        let r = key_order(es.drop_last());
        if key_of(es.last()) != k {
            assert(r.contains(k)) by {
                if !r.contains(key_of(es.last())) {
                    let t = choose|t: int| 0 <= t < r.len() + 1 && r.push(key_of(es.last()))[t] == k;
                    assert(t < r.len());
                    assert(r[t] == k);
                }
            }
            lemma_scalars_present(es.drop_last(), k);
        }
    }
}

/// The points of the order are distinct.
pub proof fn lemma_key_order_distinct(es: Seq<ElementMSM>)
    ensures
        forall|i: int, j: int| 0 <= i < j < key_order(es).len() ==> key_order(es)[i] != key_order(es)[j],
    decreases es.len(),
{
    if es.len() > 0 {
        lemma_key_order_distinct(es.drop_last());
        let r = key_order(es.drop_last());
        let x = key_of(es.last());
        if !r.contains(x) {
            assert forall|i: int, j: int| 0 <= i < j < r.push(x).len() implies r.push(x)[i] != r.push(x)[j] by {
                if j == r.len() {
                    assert(r.push(x)[i] == r[i]);
                    assert(r.contains(r[i]));
                }
            }
        }
    }
}

/// Every point of the elements is in the order, and the order holds no
/// other point.
pub proof fn lemma_key_order_keys(es: Seq<ElementMSM>)
    ensures
        forall|i: int| 0 <= i < es.len() ==> key_order(es).contains(#[trigger] key_of(es[i])),
        forall|k: G1PointKey| #[trigger] key_order(es).contains(k) ==> exists|i: int| 0 <= i < es.len() && key_of(es[i]) == k,
    decreases es.len(),
{
    if es.len() > 0 {
        let d = es.drop_last();
        lemma_key_order_keys(d);
        let r = key_order(d);
        let x = key_of(es.last());
        let o = key_order(es);
        assert forall|k: G1PointKey| r.contains(k) implies o.contains(k) by {
            if !r.contains(x) {
                let t = choose|t: int| 0 <= t < r.len() && r[t] == k;
                assert(o[t] == k);
            }
        }
        assert(o.contains(x)) by {
            if !r.contains(x) {
                assert(o[r.len() as int] == x);
            }
        }
        assert forall|i: int| 0 <= i < es.len() implies o.contains(#[trigger] key_of(es[i])) by {
            if i < es.len() - 1 {
                assert(es[i] == d[i]);
                assert(r.contains(key_of(d[i])));
            }
        }
        assert forall|k: G1PointKey| #[trigger] o.contains(k) implies exists|i: int| 0 <= i < es.len() && key_of(es[i]) == k by {
            if k == x {
                assert(key_of(es[es.len() - 1]) == k);
            } else {
                assert(r.contains(k)) by {
                    let t = choose|t: int| 0 <= t < o.len() && o[t] == k;
                    if !r.contains(x) {
                        assert(t < r.len());
                        assert(r[t] == k);
                    }
                }
                let i = choose|i: int| 0 <= i < d.len() && key_of(d[i]) == k;
                assert(es[i] == d[i]);
            }
        }
    }
}

impl OptimizedMSM {
    /// Combines the elements on the same point: one element per point, in
    /// order of first appearance, with the scalars of that point added up
    /// from left to right.
    pub fn optimize_msm(self) -> (r: OptimizedMSM)
        ensures
            r.elements@ == spec_optimize(self.elements@),
    {
        let ghost es = self.elements@;
        let mut order: Vec<G1PointKey> = Vec::new();
        let mut sums: Vec<ScalarOperation> = Vec::new();
        let n = self.elements.len();
        let mut i: usize = 0;
        assert(es.take(0) =~= Seq::<ElementMSM>::empty());
        while i < n
            invariant
                i <= n,
                n == es.len(),
                es == self.elements@,
                order@ == key_order(es.take(i as int)),
                sums@.len() == order@.len(),
                forall|j: int| 0 <= j < order@.len() ==> sums@[j] == sum_left(scalars_at(es.take(i as int), #[trigger] order@[j])),
            decreases n - i,
        {
            let ghost p = es.take(i as int);
            let ghost q = es.take(i + 1);
            proof {
                assert(q.drop_last() =~= p);
                assert(q.last() == es[i as int]);
            }
            let e = &self.elements[i];
            let k = e.key();
            let s = e.get_scalar().duplicate();
            match position_of(&order, k) {
                Some(j) => {
                    let prev = sums[j].duplicate();
                    proof {
                        lemma_scalars_present(p, k);
                    }
                    sums.set(j, ScalarOperation::Add(Box::new(prev), Box::new(s)));
                    proof {
                        assert forall|t: int| 0 <= t < order@.len() implies sums@[t] == sum_left(
                            scalars_at(q, #[trigger] order@[t]),
                        ) by {
                            if t != j {
                                assert(order@[t] != k) by {
                                    lemma_key_order_distinct(p);
                                }
                            } else {
                                assert(scalars_at(q, k).drop_last() =~= scalars_at(p, k));
                            }
                        }
                    }
                },
                None => {
                    proof {
                        lemma_scalars_absent(p, k);
                        assert(scalars_at(q, k) =~= seq![s]);
                    }
                    order.push(k);
                    sums.push(s);
                    proof {
                        assert forall|t: int| 0 <= t < order@.len() implies sums@[t] == sum_left(
                            scalars_at(q, #[trigger] order@[t]),
                        ) by {
                            if t < order@.len() - 1 {
                                assert(order@[t] != k);
                            }
                        }
                    }
                },
            }
            i = i + 1;
        }
        assert(es.take(n as int) =~= es);
        let mut out: Vec<ElementMSM> = Vec::new();
        let m = order.len();
        let mut j: usize = 0;
        while j < m
            invariant
                j <= m,
                m == order@.len(),
                sums@.len() == m,
                order@ == key_order(es),
                forall|t: int| 0 <= t < m ==> sums@[t] == sum_left(scalars_at(es, #[trigger] order@[t])),
                out@ == Seq::new(j as nat, |t: int| element_at(order@[t], sum_left(scalars_at(es, order@[t])))),
            decreases m - j,
        {
            out.push(make_element(order[j], sums[j].duplicate()));
            j = j + 1;
            assert(out@ =~= Seq::new(j as nat, |t: int| element_at(order@[t], sum_left(scalars_at(es, order@[t])))));
        }
        OptimizedMSM { elements: out }
    }

    /// The largest exponent of `var_name` over the scalars of the elements;
    /// 0 when there is none.
    pub fn find_max_power(&self, var_name: char) -> (r: i32)
        ensures
            r == spec_max_power_all(self.elements@, var_name),
    {
        let n = self.elements.len();
        if n == 0 {
            return 0;
        }
        let mut best = Self::find_max_power_in_scalar(self.elements[0].get_scalar(), var_name);
        let mut i: usize = 1;
        assert(self.elements@.take(1).len() == 1);
        while i < n
            invariant
                1 <= i <= n,
                n == self.elements@.len(),
                best == spec_max_power_all(self.elements@.take(i as int), var_name),
            decreases n - i,
        {
            proof {
                assert(self.elements@.take(i + 1).drop_last() =~= self.elements@.take(i as int));
            }
            let y = Self::find_max_power_in_scalar(self.elements[i].get_scalar(), var_name);
            if y > best {
                best = y;
            }
            i = i + 1;
        }
        assert(self.elements@.take(n as int) =~= self.elements@);
        best
    }

    /// The largest exponent of `var_name` in a scalar.
    pub fn find_max_power_in_scalar(scalar: &ScalarOperation, var_name: char) -> (r: i32)
        ensures
            r == spec_max_power(*scalar, var_name),
        decreases scalar,
    {
        match scalar {
            ScalarOperation::Power(name, exponent) => if *name == var_name {
                *exponent
            } else {
                0
            },
            ScalarOperation::Mul(s, _) => Self::find_max_power_in_scalar(s, var_name),
            ScalarOperation::MulS(s1, s2) => {
                let x = Self::find_max_power_in_scalar(s1, var_name);
                let y = Self::find_max_power_in_scalar(s2, var_name);
                if x >= y {
                    x
                } else {
                    y
                }
            },
            ScalarOperation::Add(s1, s2) => {
                let x = Self::find_max_power_in_scalar(s1, var_name);
                let y = Self::find_max_power_in_scalar(s2, var_name);
                if x >= y {
                    x
                } else {
                    y
                }
            },
            _ => 0,
        }
    }
}

/// Optimising an MSM leaves one element per point: the points are distinct,
/// each point of the MSM has its element, and no other point does.
pub proof fn lemma_optimize_one_per_point(es: Seq<ElementMSM>)
    ensures
        spec_optimize(es).len() <= es.len(),
        forall|i: int, j: int|
            0 <= i < j < spec_optimize(es).len() ==> key_of(spec_optimize(es)[i]) != key_of(spec_optimize(es)[j]),
        forall|i: int|
            0 <= i < es.len() ==> exists|j: int|
                0 <= j < spec_optimize(es).len() && key_of(spec_optimize(es)[j]) == key_of(#[trigger] es[i]),
        forall|j: int|
            0 <= j < spec_optimize(es).len() ==> exists|i: int|
                0 <= i < es.len() && key_of(es[i]) == key_of(#[trigger] spec_optimize(es)[j]),
{
    let order = key_order(es);
    let opt = spec_optimize(es);
    lemma_key_order_len(es);
    lemma_key_order_distinct(es);
    lemma_key_order_keys(es);
    assert forall|j: int| 0 <= j < opt.len() implies key_of(#[trigger] opt[j]) == order[j] by {}
    assert forall|i: int| 0 <= i < es.len() implies exists|j: int|
        0 <= j < opt.len() && key_of(opt[j]) == key_of(#[trigger] es[i]) by {
        assert(order.contains(key_of(es[i])));
        let j = choose|j: int| 0 <= j < order.len() && order[j] == key_of(es[i]);
        assert(key_of(opt[j]) == order[j]);
    }
    assert forall|j: int| 0 <= j < opt.len() implies exists|i: int|
        0 <= i < es.len() && key_of(es[i]) == key_of(#[trigger] opt[j]) by {
        assert(key_of(opt[j]) == order[j]);
        assert(order.contains(order[j]));
    }
}

/// There are no more points than elements.
proof fn lemma_key_order_len(es: Seq<ElementMSM>)
    ensures
        key_order(es).len() <= es.len(),
    decreases es.len(),
{
    if es.len() > 0 {
        lemma_key_order_len(es.drop_last());
    }
}

/// The points of the elements are distinct.
pub open spec fn distinct_keys(d: Seq<ElementMSM>) -> bool {
    forall|i: int, j: int| 0 <= i < j < d.len() ==> key_of(d[i]) != key_of(d[j])
}

/// Elements on distinct points are ordered by their own points.
proof fn lemma_key_order_distinct_keys(d: Seq<ElementMSM>)
    requires
        distinct_keys(d),
    ensures
        key_order(d) == Seq::new(d.len(), |i: int| key_of(d[i])),
    decreases d.len(),
{
    if d.len() > 0 {
        let p = d.drop_last();
        lemma_key_order_distinct_keys(p);
        let r = key_order(p);
        if r.contains(key_of(d.last())) {
            let t = choose|t: int| 0 <= t < r.len() && r[t] == key_of(d.last());
            assert(key_of(d[t]) == key_of(d[d.len() - 1]));
        }
        assert(key_order(d) =~= Seq::new(d.len(), |i: int| key_of(d[i])));
    }
}

/// No element is on point `k`: there is no scalar at `k`.
proof fn lemma_no_scalars_at(d: Seq<ElementMSM>, k: G1PointKey)
    requires
        forall|j: int| 0 <= j < d.len() ==> key_of(d[j]) != k,
    ensures
        scalars_at(d, k) == Seq::<ScalarOperation>::empty(),
    decreases d.len(),
{
    if d.len() > 0 {
        lemma_no_scalars_at(d.drop_last(), k);
    }
}

/// On distinct points, the scalars at an element's point are its own.
proof fn lemma_scalars_distinct(d: Seq<ElementMSM>, i: int)
    requires
        distinct_keys(d),
        0 <= i < d.len(),
    ensures
        scalars_at(d, key_of(d[i])) == seq![scalar_of(d[i])],
    decreases d.len(),
{
    let p = d.drop_last();
    if i == d.len() - 1 {
        lemma_no_scalars_at(p, key_of(d[i]));
        assert(scalars_at(d, key_of(d[i])) =~= seq![scalar_of(d[i])]);
    } else {
        assert(p[i] == d[i]);
        lemma_scalars_distinct(p, i);
    }
}

/// Optimising an MSM twice gives what optimising it once does.
pub proof fn lemma_optimize_idempotent(es: Seq<ElementMSM>)
    ensures
        spec_optimize(spec_optimize(es)) == spec_optimize(es),
{
    let d = spec_optimize(es);
    lemma_optimize_one_per_point(es);
    lemma_key_order_distinct_keys(d);
    assert forall|i: int| 0 <= i < d.len() implies #[trigger] spec_optimize(d)[i] == d[i] by {
        lemma_scalars_distinct(d, i);
        let e = d[i];
        assert(sum_left(seq![scalar_of(e)]) == scalar_of(e));
        match e {
            ElementMSM::Element(_, _) => {},
            ElementMSM::ElementW(_, _) => {},
            ElementMSM::ElementNegatedG1(_) => {},
        }
    }
    assert(spec_optimize(d) =~= d);
}

} // verus!
