//! The elements of a SHPLONK proof, in the order the transcript holds them.

use vstd::prelude::*;

use super::expression::Style;
use super::layout::AxiomLayout;
use super::names::{indexed, indexed_mid, indexed_name, numbered, snake_to_camel, snake_to_lower_camel};

verus! {

/// A name, kept in snake case.
#[derive(Clone, Debug)]
pub struct Name {
    pub snake: String,
}

impl Name {
    /// A name given in snake case.
    pub fn new(snake: String) -> (n: Name)
        ensures
            n.snake@ == snake@,
    {
        Name { snake }
    }

    /// The name as a verifier in the given style writes it.
    pub fn for_style(&self, style: Style) -> (s: String)
        ensures
            s@ == match style {
                Style::Aiken => self.snake@,
                Style::Plinth => snake_to_camel(self.snake@),
            },
    {
        match style {
            Style::Aiken => self.aiken(),
            Style::Plinth => self.plinth(),
        }
    }

    /// The name in Aiken: snake case.
    pub fn aiken(&self) -> (s: String)
        ensures
            s@ == self.snake@,
    {
        self.snake.clone()
    }

    /// The name in Plinth: lower camel case.
    pub fn plinth(&self) -> (s: String)
        ensures
            s@ == snake_to_camel(self.snake@),
    {
        snake_to_lower_camel(self.snake.as_str())
    }
}

/// What a proof element is.
#[derive(Clone, Copy, Debug, PartialEq, Eq, Structural)]
pub enum ProofItemKind {
    Point,
    Scalar,
    Challenge,
}

/// A proof element: a point or a scalar read from the transcript, or a
/// challenge squeezed from it.
#[derive(Clone, Debug)]
pub struct ProofItem {
    pub name: Name,
    pub kind: ProofItemKind,
}

impl ProofItem {
    /// A point read from the transcript.
    pub fn point(name: Name) -> (i: ProofItem)
        ensures
            i.name.snake@ == name.snake@,
            i.kind == ProofItemKind::Point,
    {
        ProofItem { name, kind: ProofItemKind::Point }
    }

    /// A scalar read from the transcript.
    pub fn scalar(name: Name) -> (i: ProofItem)
        ensures
            i.name.snake@ == name.snake@,
            i.kind == ProofItemKind::Scalar,
    {
        ProofItem { name, kind: ProofItemKind::Scalar }
    }

    /// A challenge squeezed from the transcript.
    pub fn challenge(name: Name) -> (i: ProofItem)
        ensures
            i.name.snake@ == name.snake@,
            i.kind == ProofItemKind::Challenge,
    {
        ProofItem { name, kind: ProofItemKind::Challenge }
    }
}

/// A proof element as mathematical values.
pub type ItemView = (Seq<char>, ProofItemKind);

pub open spec fn items_view(v: Seq<ProofItem>) -> Seq<ItemView> {
    Seq::new(v.len(), |i: int| (v[i].name.snake@, v[i].kind))
}

/// `n` elements named `prefix` and an index.
pub open spec fn numbered_items(prefix: Seq<char>, n: nat, kind: ProofItemKind) -> Seq<ItemView> {
    Seq::new(n, |i: int| (indexed(prefix, i as nat), kind))
}

/// The permuted input and table commitments of each lookup.
pub open spec fn lookup_commitment_items(n: nat) -> Seq<ItemView>
    decreases n,
{
    if n == 0 {
        Seq::empty()
    } else {
        let l = (n - 1) as nat;
        lookup_commitment_items(l) + seq![
            (indexed_mid("lookup_"@, l, "_permuted_input"@), ProofItemKind::Point),
            (indexed_mid("lookup_"@, l, "_permuted_table"@), ProofItemKind::Point),
        ]
    }
}

/// The product commitment of each lookup.
pub open spec fn lookup_product_items(n: nat) -> Seq<ItemView> {
    Seq::new(n, |l: int| (indexed_mid("lookup_"@, l as nat, "_product"@), ProofItemKind::Point))
}

/// The evaluations of the first `s` permutation products, out of `count`:
/// at the current and next rows, and at the last row but for the last one.
pub open spec fn permutation_scalar_items(s: nat, count: nat) -> Seq<ItemView>
    decreases s,
{
    if s == 0 {
        Seq::empty()
    } else {
        let p = (s - 1) as nat;
        permutation_scalar_items(p, count) + seq![
            (indexed("permutation_eval_"@, p), ProofItemKind::Scalar),
            (indexed("permutation_next_"@, p), ProofItemKind::Scalar),
        ] + if p + 1 < count {
            seq![(indexed("permutation_last_"@, p), ProofItemKind::Scalar)]
        } else {
            Seq::empty()
        }
    }
}

/// The evaluations of each lookup.
pub open spec fn lookup_scalar_items(n: nat) -> Seq<ItemView>
    decreases n,
{
    if n == 0 {
        Seq::empty()
    } else {
        let l = (n - 1) as nat;
        lookup_scalar_items(l) + seq![
            (indexed_mid("lookup_"@, l, "_product_eval"@), ProofItemKind::Scalar),
            (indexed_mid("lookup_"@, l, "_product_next"@), ProofItemKind::Scalar),
            (indexed_mid("lookup_"@, l, "_input_eval"@), ProofItemKind::Scalar),
            (indexed_mid("lookup_"@, l, "_input_prev_eval"@), ProofItemKind::Scalar),
            (indexed_mid("lookup_"@, l, "_table_eval"@), ProofItemKind::Scalar),
        ]
    }
}

/// The proof's elements: advice commitments, theta, the lookups' permuted
/// commitments, beta and gamma, the permutation products, the lookup
/// products, the random polynomial, y, the quotient pieces, x, the advice
/// and fixed evaluations, the random evaluation, the permutation commons,
/// the permutation and lookup evaluations, then the SHPLONK tail.
pub open spec fn spec_proof_items(l: AxiomLayout) -> Seq<ItemView> {
    numbered_items("advice_"@, l.num_advice_columns as nat, ProofItemKind::Point) + seq![
        ("theta"@, ProofItemKind::Challenge),
    ] + lookup_commitment_items(l.lookup_count as nat) + seq![
        ("beta"@, ProofItemKind::Challenge),
        ("gamma"@, ProofItemKind::Challenge),
    ] + numbered_items("permutation_product_"@, l.permutation_set_count as nat, ProofItemKind::Point)
        + lookup_product_items(l.lookup_count as nat) + seq![
        ("random_poly"@, ProofItemKind::Point),
        ("plonk_y"@, ProofItemKind::Challenge),
    ] + numbered_items("h_"@, l.quotient_poly_degree as nat, ProofItemKind::Point) + seq![
        ("x"@, ProofItemKind::Challenge),
    ] + numbered_items("advice_eval_"@, l.advice_queries@.len(), ProofItemKind::Scalar) + numbered_items(
        "fixed_eval_"@,
        l.fixed_queries@.len(),
        ProofItemKind::Scalar,
    ) + seq![("random_eval"@, ProofItemKind::Scalar)] + numbered_items(
        "permutation_common_eval_"@,
        l.permutation_columns@.len(),
        ProofItemKind::Scalar,
    ) + permutation_scalar_items(l.permutation_set_count as nat, l.permutation_set_count as nat)
        + lookup_scalar_items(l.lookup_count as nat) + seq![
        ("shplonk_y"@, ProofItemKind::Challenge),
        ("v"@, ProofItemKind::Challenge),
        ("shplonk_h1"@, ProofItemKind::Point),
        ("u"@, ProofItemKind::Challenge),
        ("shplonk_h2"@, ProofItemKind::Point),
    ]
}

fn push_item(out: &mut Vec<ProofItem>, snake: String, kind: ProofItemKind)
    ensures
        items_view(final(out)@) == items_view(old(out)@).push((snake@, kind)),
{
    out.push(ProofItem { name: Name { snake }, kind });
    assert(items_view(out@) =~= items_view(old(out)@).push((snake@, kind)));
}

fn push_numbered(out: &mut Vec<ProofItem>, prefix: &str, n: usize, kind: ProofItemKind)
    ensures
        items_view(final(out)@) == items_view(old(out)@) + numbered_items(prefix@, n as nat, kind),
{
    let ghost o = items_view(old(out)@);
    let mut i: usize = 0;
    assert(items_view(out@) =~= o + numbered_items(prefix@, 0, kind));
    while i < n
        invariant
            i <= n,
            items_view(out@) == o + numbered_items(prefix@, i as nat, kind),
        decreases n - i,
    {
        push_item(out, numbered(prefix, i), kind);
        i = i + 1;
        assert(items_view(out@) =~= o + numbered_items(prefix@, i as nat, kind));
    }
}

fn push_literal(out: &mut Vec<ProofItem>, name: &str, kind: ProofItemKind)
    ensures
        items_view(final(out)@) == items_view(old(out)@).push((name@, kind)),
{
    push_item(out, String::from_str(name), kind);
}

impl AxiomLayout {
    /// The proof's elements in transcript order.
    pub fn proof_items(&self) -> (r: Vec<ProofItem>)
        ensures
            items_view(r@) == spec_proof_items(*self),
    {
        let mut items: Vec<ProofItem> = Vec::new();
        push_numbered(&mut items, "advice_", self.num_advice_columns, ProofItemKind::Point);
        push_literal(&mut items, "theta", ProofItemKind::Challenge);
        let ghost s1 = items_view(items@);
        let mut l: usize = 0;
        assert(items_view(items@) =~= s1 + lookup_commitment_items(0));
        while l < self.lookup_count
            invariant
                l <= self.lookup_count,
                items_view(items@) == s1 + lookup_commitment_items(l as nat),
            decreases self.lookup_count - l,
        {
            push_item(&mut items, indexed_name("lookup_", l, "_permuted_input"), ProofItemKind::Point);
            push_item(&mut items, indexed_name("lookup_", l, "_permuted_table"), ProofItemKind::Point);
            l = l + 1;
            assert(items_view(items@) =~= s1 + lookup_commitment_items(l as nat));
        }
        push_literal(&mut items, "beta", ProofItemKind::Challenge);
        push_literal(&mut items, "gamma", ProofItemKind::Challenge);
        push_numbered(&mut items, "permutation_product_", self.permutation_set_count, ProofItemKind::Point);
        let ghost s2 = items_view(items@);
        let mut l: usize = 0;
        assert(items_view(items@) =~= s2 + lookup_product_items(0));
        while l < self.lookup_count
            invariant
                l <= self.lookup_count,
                items_view(items@) == s2 + lookup_product_items(l as nat),
            decreases self.lookup_count - l,
        {
            push_item(&mut items, indexed_name("lookup_", l, "_product"), ProofItemKind::Point);
            l = l + 1;
            assert(items_view(items@) =~= s2 + lookup_product_items(l as nat));
        }
        push_literal(&mut items, "random_poly", ProofItemKind::Point);
        push_literal(&mut items, "plonk_y", ProofItemKind::Challenge);
        push_numbered(&mut items, "h_", self.quotient_poly_degree, ProofItemKind::Point);
        push_literal(&mut items, "x", ProofItemKind::Challenge);
        push_numbered(&mut items, "advice_eval_", self.advice_queries.len(), ProofItemKind::Scalar);
        push_numbered(&mut items, "fixed_eval_", self.fixed_queries.len(), ProofItemKind::Scalar);
        push_literal(&mut items, "random_eval", ProofItemKind::Scalar);
        push_numbered(
            &mut items,
            "permutation_common_eval_",
            self.permutation_columns.len(),
            ProofItemKind::Scalar,
        );
        let ghost s3 = items_view(items@);
        let count = self.permutation_set_count;
        let mut s: usize = 0;
        assert(items_view(items@) =~= s3 + permutation_scalar_items(0, count as nat));
        while s < count
            invariant
                s <= count,
                items_view(items@) == s3 + permutation_scalar_items(s as nat, count as nat),
            decreases count - s,
        {
            push_item(&mut items, numbered("permutation_eval_", s), ProofItemKind::Scalar);
            push_item(&mut items, numbered("permutation_next_", s), ProofItemKind::Scalar);
            let ghost mid = items_view(items@);
            if s + 1 < count {
                push_item(&mut items, numbered("permutation_last_", s), ProofItemKind::Scalar);
            }
            s = s + 1;
            assert(items_view(items@) =~= s3 + permutation_scalar_items(s as nat, count as nat));
        }
        let ghost s4 = items_view(items@);
        let mut l: usize = 0;
        assert(items_view(items@) =~= s4 + lookup_scalar_items(0));
        while l < self.lookup_count
            invariant
                l <= self.lookup_count,
                items_view(items@) == s4 + lookup_scalar_items(l as nat),
            decreases self.lookup_count - l,
        {
            push_item(&mut items, indexed_name("lookup_", l, "_product_eval"), ProofItemKind::Scalar);
            push_item(&mut items, indexed_name("lookup_", l, "_product_next"), ProofItemKind::Scalar);
            push_item(&mut items, indexed_name("lookup_", l, "_input_eval"), ProofItemKind::Scalar);
            push_item(&mut items, indexed_name("lookup_", l, "_input_prev_eval"), ProofItemKind::Scalar);
            push_item(&mut items, indexed_name("lookup_", l, "_table_eval"), ProofItemKind::Scalar);
            l = l + 1;
            assert(items_view(items@) =~= s4 + lookup_scalar_items(l as nat));
        }
        push_literal(&mut items, "shplonk_y", ProofItemKind::Challenge);
        push_literal(&mut items, "v", ProofItemKind::Challenge);
        push_literal(&mut items, "shplonk_h1", ProofItemKind::Point);
        push_literal(&mut items, "u", ProofItemKind::Challenge);
        push_literal(&mut items, "shplonk_h2", ProofItemKind::Point);
        items
    }
}

} // verus!
