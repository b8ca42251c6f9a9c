//! The expected evaluation of the vanishing polynomial: every constraint of
//! the circuit (gates, permutation, lookups) folded with powers of y and
//! divided by x^n - 1, as the generated verifiers compute it.

use vstd::prelude::*;

use super::expression::{
    ExpressionError, GateExpression, LookupArgument, Style, access, field_in, lemma_expression_styles,
    spec_compressed_lookup, spec_expression, spec_expressions, spec_permutation_column_eval,
};
use super::layout::{AxiomConstraintSystem, AxiomLayout, PermutationColumn};
use super::names::{indexed, indexed_mid, indexed_name, numbered, snake_to_camel};
use super::openings::{push_line, push_literal_line, push_lines};
use super::text::{
    aiken_delta_term, aiken_product, aiken_sum, fold_terms, join, join_strings, plinth_delta_term, plinth_product,
    plinth_sum, spec_aiken_delta_term, spec_plinth_delta_term, texts,
};
use crate::extraction::text::{decimal, push_decimal, push_signed_decimal, signed_decimal};

verus! {

/// The lines that compute the Lagrange basis at the last rows, in Aiken.
pub open spec fn spec_aiken_lagrange_prelude(blinding_factors: nat) -> Seq<Seq<char>> {
    let blind = Seq::new(blinding_factors, |i: int| indexed("l_blind_"@, i as nat));
    seq![
        "  let scalar_zero = from_int(0)"@,
        "  let scalar_one = from_int(1)"@,
        "  let xn = scalar_pow(p.x, n)"@,
        "  let rotations = rotate_omegas(omega, omega_inv, -(blinding_factors + 1), 0)"@,
        "  let l_evals = lagrange_polynomial_basis(p.x, xn, barycentric_weight, rotations)"@,
        "  expect ["@ + join(seq!["l_last"@] + blind + seq!["l_0"@], ", "@) + "] = l_evals"@,
        "  let l_blind = "@ + fold_terms(blind, "from_int(0)"@, "add("@, ", "@, ")"@),
        "  let active_rows = sub(scalar_one, add(l_last, l_blind))"@,
    ]
}

/// The lines that compute the Lagrange basis at the last rows, in Plinth.
pub open spec fn spec_plinth_lagrange_prelude(blinding_factors: nat) -> Seq<Seq<char>> {
    let blind = Seq::new(blinding_factors, |i: int| "(lEvals !! "@ + decimal((i + 1) as nat) + ")"@);
    let rotations = Seq::new(
        blinding_factors + 2,
        |k: int| "rotateOmega one "@ + signed_decimal(k - (blinding_factors + 1)),
    );
    seq![
        "    let !xn = powMod (x pieces) n"@,
        "        !rotateOmega = BlsUtils.rotateOmega omega omegaInv"@,
        "        !rotations ="@,
        "            ["@ + join(rotations, ", "@) + "]"@,
        "        !lEvals = lagrangePolynomialBasis (x pieces) xn barycentricWeight rotations"@,
        "        !lLast = lEvals !! 0"@,
        "        !lBlind = "@ + fold_terms(blind, "scalarZero"@, "("@, " + "@, ")"@),
        "        !l0 = lEvals !! "@ + decimal(blinding_factors + 1),
        "        !activeRows = scalarOne - (lLast + lBlind)"@,
    ]
}

/// The lines that fold the constraints with powers of y and divide by
/// x^n - 1, in Aiken.
pub open spec fn spec_aiken_folded(terms: Seq<Seq<char>>) -> Seq<Seq<char>> {
    seq![
        "  let folded ="@,
        "    foldl("@,
        "      ["@ + join(terms, ", "@) + "],"@,
        "      scalar_zero,"@,
        "      fn(expr, acc) { add(mul(acc, p.plonk_y), expr) },"@,
        "    )"@,
        "  mul(folded, recip_eea(sub_int(xn, 1)))"@,
    ]
}

/// The same in Plinth.
pub open spec fn spec_plinth_folded(terms: Seq<Seq<char>>) -> Seq<Seq<char>> {
    seq![
        "        !folded ="@,
        "            foldl"@,
        "                (\\acc expr -> acc * plonkY pieces + expr)"@,
        "                scalarZero"@,
        "                ["@ + join(terms, ", "@) + "]"@,
        "     in folded * recip (xn - scalarOne)"@,
    ]
}

/// The constraints are combined the same way in both languages: folded
/// from zero by `acc·y + c` over the constraint names in order (the first
/// getting the highest power of `y`), and the result divided by `x^n - 1`.
pub proof fn lemma_folded_texts(terms: Seq<Seq<char>>)
    ensures
        folded_in(Style::Aiken, terms) == seq![
            "  let folded ="@,
            "    foldl("@,
            "      ["@ + join(terms, ", "@) + "],"@,
            "      scalar_zero,"@,
            "      fn(expr, acc) { add(mul(acc, p.plonk_y), expr) },"@,
            "    )"@,
            "  mul(folded, recip_eea(sub_int(xn, 1)))"@,
        ],
        folded_in(Style::Plinth, terms) == seq![
            "        !folded ="@,
            "            foldl"@,
            "                (\\acc expr -> acc * plonkY pieces + expr)"@,
            "                scalarZero"@,
            "                ["@ + join(terms, ", "@) + "]"@,
            "     in folded * recip (xn - scalarOne)"@,
        ],
{
}

/// Folds the constraints, in Aiken.
pub fn aiken_folded_terms(terms: &Vec<String>) -> (r: Vec<String>)
    ensures
        texts(r@) == spec_aiken_folded(texts(terms@)),
{
    let mut r: Vec<String> = Vec::new();
    push_literal_line(&mut r, "  let folded =");
    push_literal_line(&mut r, "    foldl(");
    let mut l = String::from_str("      [");
    let j = join_strings(terms, ", ");
    l.append(j.as_str());
    l.append("],");
    push_line(&mut r, l);
    push_literal_line(&mut r, "      scalar_zero,");
    push_literal_line(&mut r, "      fn(expr, acc) { add(mul(acc, p.plonk_y), expr) },");
    push_literal_line(&mut r, "    )");
    push_literal_line(&mut r, "  mul(folded, recip_eea(sub_int(xn, 1)))");
    assert(texts(r@) =~= spec_aiken_folded(texts(terms@)));
    r
}

/// Folds the constraints, in Plinth.
pub fn plinth_folded_terms(terms: &Vec<String>) -> (r: Vec<String>)
    ensures
        texts(r@) == spec_plinth_folded(texts(terms@)),
{
    let mut r: Vec<String> = Vec::new();
    push_literal_line(&mut r, "        !folded =");
    push_literal_line(&mut r, "            foldl");
    push_literal_line(&mut r, "                (\\acc expr -> acc * plonkY pieces + expr)");
    push_literal_line(&mut r, "                scalarZero");
    let mut l = String::from_str("                [");
    let j = join_strings(terms, ", ");
    l.append(j.as_str());
    l.append("]");
    push_line(&mut r, l);
    push_literal_line(&mut r, "     in folded * recip (xn - scalarOne)");
    assert(texts(r@) =~= spec_plinth_folded(texts(terms@)));
    r
}

/// The name of a value of the `idx`-th lookup.
pub open spec fn lookup_value(style: Style, idx: nat, suffix: Seq<char>) -> Seq<char> {
    access(style, indexed_mid("lookup_"@, idx, suffix))
}

/// The constraint names of the `idx`-th lookup.
pub open spec fn lookup_term_names(style: Style, idx: nat) -> Seq<Seq<char>> {
    match style {
        Style::Aiken => seq![
            indexed_mid("lookup_"@, idx, "_first"@),
            indexed_mid("lookup_"@, idx, "_last"@),
            indexed_mid("lookup_"@, idx, "_product_expression"@),
            indexed_mid("lookup_"@, idx, "_initial"@),
            indexed_mid("lookup_"@, idx, "_adjacent"@),
        ],
        Style::Plinth => seq![
            indexed_mid("lookup"@, idx, "First"@),
            indexed_mid("lookup"@, idx, "Last"@),
            indexed_mid("lookup"@, idx, "ProductExpression"@),
            indexed_mid("lookup"@, idx, "Initial"@),
            indexed_mid("lookup"@, idx, "Adjacent"@),
        ],
    }
}

/// The constraint lines of the `idx`-th lookup, given its compressed input
/// and table expressions.
pub open spec fn lookup_lines(style: Style, idx: nat, ci: Seq<char>, ct: Seq<char>) -> Seq<Seq<char>> {
    let product = lookup_value(style, idx, "_product_eval"@);
    let next = lookup_value(style, idx, "_product_next"@);
    let input = lookup_value(style, idx, "_input_eval"@);
    let prev = lookup_value(style, idx, "_input_prev_eval"@);
    let table = lookup_value(style, idx, "_table_eval"@);
    let names = lookup_term_names(style, idx);
    match style {
        Style::Aiken => seq![
            "  let "@ + names[0] + " = mul(l_0, sub(scalar_one, "@ + product + "))"@,
            "  let "@ + names[1] + " = mul(l_last, sub(mul("@ + product + ", "@ + product + "), "@ + product + "))"@,
            "  let "@ + names[2] + " = mul(active_rows, sub(mul(mul("@ + next + ", add("@ + input + ", p.beta)), add("@
                + table + ", p.gamma)), mul(mul("@ + product + ", add("@ + ci + ", p.beta)), add("@ + ct
                + ", p.gamma))))"@,
            "  let "@ + names[3] + " = mul(l_0, sub("@ + input + ", "@ + table + "))"@,
            "  let "@ + names[4] + " = mul(mul(active_rows, sub("@ + input + ", "@ + table + ")), sub("@ + input
                + ", "@ + prev + "))"@,
        ],
        Style::Plinth => seq![
            "        !"@ + names[0] + " = l0 * (scalarOne - "@ + product + ")"@,
            "        !"@ + names[1] + " = lLast * ("@ + product + " * "@ + product + " - "@ + product + ")"@,
            "        !"@ + names[2] + " = activeRows * ("@ + next + " * ("@ + input + " + beta pieces) * ("@ + table
                + " + gamma pieces) - "@ + product + " * ("@ + ci + " + beta pieces) * ("@ + ct
                + " + gamma pieces))"@,
            "        !"@ + names[3] + " = l0 * ("@ + input + " - "@ + table + ")"@,
            "        !"@ + names[4] + " = activeRows * ("@ + input + " - "@ + table + ") * ("@ + input + " - "@
                + prev + ")"@,
        ],
    }
}

/// The snake-case name of a value of the `idx`-th lookup.
pub open spec fn lookup_snake(idx: nat, suffix: Seq<char>) -> Seq<char> {
    "lookup_"@ + decimal(idx) + suffix
}

/// The lookup argument's constraints as they read in each language, over
/// the same evaluations of the `idx`-th lookup in both: its product Z at the
/// current and next rows, its permuted input A' at the current and previous
/// rows, its permuted table S', and the compressed input and table
/// expressions. The lines say: Z(1) = 1 at the first row; Z is 0 or 1 at
/// the last row; Z(ωX)(A'(X) + β)(S'(X) + γ) = Z(X)(input + β)(table + γ) on
/// active rows; A' = S' at the first row; and
/// (A'(X) - S'(X))(A'(X) - A'(ω⁻¹X)) = 0 on active rows.
pub proof fn lemma_lookup_lines(idx: nat, ci: Seq<char>, ct: Seq<char>, cip: Seq<char>, ctp: Seq<char>)
    ensures
        ({
            let z = "p."@ + lookup_snake(idx, "_product_eval"@);
            let zn = "p."@ + lookup_snake(idx, "_product_next"@);
            let a = "p."@ + lookup_snake(idx, "_input_eval"@);
            let ap = "p."@ + lookup_snake(idx, "_input_prev_eval"@);
            let t = "p."@ + lookup_snake(idx, "_table_eval"@);
            let d = decimal(idx);
            lookup_lines(Style::Aiken, idx, ci, ct) == seq![
                "  let "@ + ("lookup_"@ + d + "_first"@) + " = mul(l_0, sub(scalar_one, "@ + z + "))"@,
                "  let "@ + ("lookup_"@ + d + "_last"@) + " = mul(l_last, sub(mul("@ + z + ", "@ + z + "), "@ + z + "))"@,
                "  let "@ + ("lookup_"@ + d + "_product_expression"@) + " = mul(active_rows, sub(mul(mul("@ + zn
                    + ", add("@ + a + ", p.beta)), add("@ + t + ", p.gamma)), mul(mul("@ + z + ", add("@ + ci
                    + ", p.beta)), add("@ + ct + ", p.gamma))))"@,
                "  let "@ + ("lookup_"@ + d + "_initial"@) + " = mul(l_0, sub("@ + a + ", "@ + t + "))"@,
                "  let "@ + ("lookup_"@ + d + "_adjacent"@) + " = mul(mul(active_rows, sub("@ + a + ", "@ + t
                    + ")), sub("@ + a + ", "@ + ap + "))"@,
            ]
        }),
        ({
            let z = snake_to_camel(lookup_snake(idx, "_product_eval"@)) + " pieces"@;
            let zn = snake_to_camel(lookup_snake(idx, "_product_next"@)) + " pieces"@;
            let a = snake_to_camel(lookup_snake(idx, "_input_eval"@)) + " pieces"@;
            let ap = snake_to_camel(lookup_snake(idx, "_input_prev_eval"@)) + " pieces"@;
            let t = snake_to_camel(lookup_snake(idx, "_table_eval"@)) + " pieces"@;
            let d = decimal(idx);
            lookup_lines(Style::Plinth, idx, cip, ctp) == seq![
                "        !"@ + ("lookup"@ + d + "First"@) + " = l0 * (scalarOne - "@ + z + ")"@,
                "        !"@ + ("lookup"@ + d + "Last"@) + " = lLast * ("@ + z + " * "@ + z + " - "@ + z + ")"@,
                "        !"@ + ("lookup"@ + d + "ProductExpression"@) + " = activeRows * ("@ + zn + " * ("@ + a
                    + " + beta pieces) * ("@ + t + " + gamma pieces) - "@ + z + " * ("@ + cip + " + beta pieces) * ("@
                    + ctp + " + gamma pieces))"@,
                "        !"@ + ("lookup"@ + d + "Initial"@) + " = l0 * ("@ + a + " - "@ + t + ")"@,
                "        !"@ + ("lookup"@ + d + "Adjacent"@) + " = activeRows * ("@ + a + " - "@ + t + ") * ("@ + a
                    + " - "@ + ap + ")"@,
            ]
        }),
{
    assert(lookup_lines(Style::Aiken, idx, ci, ct) =~= lookup_lines(Style::Aiken, idx, ci, ct));
}

/// The lines and names of the lookups' constraints, or the first error,
/// lookup after lookup, input before table.
pub open spec fn spec_lookup_terms(l: AxiomLayout, style: Style, lookups: Seq<LookupArgument>) -> Result<
    (Seq<Seq<char>>, Seq<Seq<char>>),
    ExpressionError,
>
    decreases lookups.len(),
{
    if lookups.len() == 0 {
        Ok((Seq::empty(), Seq::empty()))
    } else {
        let idx = (lookups.len() - 1) as nat;
        match spec_lookup_terms(l, style, lookups.drop_last()) {
            Err(e) => Err(e),
            Ok(prev) => match spec_compressed_lookup(l, style, lookups.last().input@) {
                Err(e) => Err(e),
                Ok(ci) => match spec_compressed_lookup(l, style, lookups.last().table@) {
                    Err(e) => Err(e),
                    Ok(ct) => Ok((prev.0 + lookup_lines(style, idx, ci, ct), prev.1 + lookup_term_names(style, idx))),
                },
            },
        }
    }
}

proof fn lemma_expressions_styles(l: AxiomLayout, es: Seq<GateExpression>)
    ensures
        spec_expressions(l, Style::Aiken, es) is Ok <==> spec_expressions(l, Style::Plinth, es) is Ok,
        spec_expressions(l, Style::Aiken, es) is Err ==> spec_expressions(l, Style::Plinth, es) == spec_expressions(
            l,
            Style::Aiken,
            es,
        ),
    decreases es.len(),
{
    if es.len() > 0 {
        lemma_expressions_styles(l, es.drop_last());
        lemma_expression_styles(l, es.last());
    }
}

proof fn lemma_lookup_terms_styles(l: AxiomLayout, lookups: Seq<LookupArgument>)
    ensures
        spec_lookup_terms(l, Style::Aiken, lookups) is Ok <==> spec_lookup_terms(l, Style::Plinth, lookups) is Ok,
        spec_lookup_terms(l, Style::Aiken, lookups) is Err ==> spec_lookup_terms(l, Style::Plinth, lookups)
            == spec_lookup_terms(l, Style::Aiken, lookups),
    decreases lookups.len(),
{
    if lookups.len() > 0 {
        lemma_lookup_terms_styles(l, lookups.drop_last());
        lemma_expressions_styles(l, lookups.last().input@);
        lemma_expressions_styles(l, lookups.last().table@);
    }
}

/// The `k`-th lookup's lines are those of its index and its compressed
/// expressions.
pub open spec fn lookup_block_ok(l: AxiomLayout, style: Style, lookups: Seq<LookupArgument>, lines: Seq<Seq<char>>, k: int) -> bool {
    &&& spec_compressed_lookup(l, style, lookups[k].input@) is Ok
    &&& spec_compressed_lookup(l, style, lookups[k].table@) is Ok
    &&& lines.subrange(5 * k, 5 * k + 5) == lookup_lines(
        style,
        k as nat,
        spec_compressed_lookup(l, style, lookups[k].input@)->Ok_0,
        spec_compressed_lookup(l, style, lookups[k].table@)->Ok_0,
    )
}

#[verifier::rlimit(100)]
proof fn lemma_lookup_terms_blocks(l: AxiomLayout, style: Style, lookups: Seq<LookupArgument>)
    ensures
        spec_lookup_terms(l, style, lookups) matches Ok(r) ==> {
            &&& r.0.len() == 5 * lookups.len()
            &&& forall|k: int| 0 <= k < lookups.len() ==> #[trigger] lookup_block_ok(l, style, lookups, r.0, k)
        },
    decreases lookups.len(),
{
    if lookups.len() > 0 {
        let d = lookups.drop_last();
        lemma_lookup_terms_blocks(l, style, d);
        let last = lookups.last();
        if let Ok(r) = spec_lookup_terms(l, style, lookups) {
            let n = lookups.len() - 1;
            let p = spec_lookup_terms(l, style, d)->Ok_0;
            let ci = spec_compressed_lookup(l, style, last.input@)->Ok_0;
            let ct = spec_compressed_lookup(l, style, last.table@)->Ok_0;
            let ls = lookup_lines(style, n as nat, ci, ct);
            assert(r.0 == p.0 + ls);
            assert(ls.len() == 5);
            assert forall|k: int| 0 <= k < lookups.len() implies #[trigger] lookup_block_ok(l, style, lookups, r.0, k) by {
                if k < n {
                    assert(lookups[k] == d[k]);
                    assert(lookup_block_ok(l, style, d, p.0, k));
                    assert(r.0.subrange(5 * k, 5 * k + 5) =~= p.0.subrange(5 * k, 5 * k + 5));
                } else {
                    assert(r.0.subrange(5 * k, 5 * k + 5) =~= ls);
                }
            }
        }
    }
}

/// The lookups' constraints: five lines per lookup, lookup after lookup,
/// each lookup's lines those of its own index and compressed input and
/// table expressions (as `lemma_lookup_lines` spells them out). Both
/// languages accept the same lookups, with the same error otherwise.
pub proof fn lemma_lookup_terms(l: AxiomLayout, style: Style, lookups: Seq<LookupArgument>)
    ensures
        spec_lookup_terms(l, Style::Aiken, lookups) is Ok <==> spec_lookup_terms(l, Style::Plinth, lookups) is Ok,
        spec_lookup_terms(l, Style::Aiken, lookups) is Err ==> spec_lookup_terms(l, Style::Plinth, lookups)
            == spec_lookup_terms(l, Style::Aiken, lookups),
        spec_lookup_terms(l, style, lookups) matches Ok(r) ==> {
            &&& r.0.len() == 5 * lookups.len()
            &&& forall|k: int| 0 <= k < lookups.len() ==> #[trigger] lookup_block_ok(l, style, lookups, r.0, k)
        },
{
    lemma_lookup_terms_styles(l, lookups);
    lemma_lookup_terms_blocks(l, style, lookups);
}

proof fn lemma_lookup_terms_error_stays(l: AxiomLayout, style: Style, lookups: Seq<LookupArgument>, p: int)
    requires
        0 <= p <= lookups.len(),
        spec_lookup_terms(l, style, lookups.take(p)) is Err,
    ensures
        spec_lookup_terms(l, style, lookups) == spec_lookup_terms(l, style, lookups.take(p)),
    decreases lookups.len() - p,
{
    if p < lookups.len() {
        assert(lookups.take(p + 1).drop_last() =~= lookups.take(p));
        lemma_lookup_terms_error_stays(l, style, lookups, p + 1);
    } else {
        assert(lookups.take(p) =~= lookups);
    }
}

fn lookup_field(style: Style, idx: usize, suffix: &str) -> (s: String)
    ensures
        s@ == lookup_value(style, idx as nat, suffix@),
{
    let n = indexed_name("lookup_", idx, suffix);
    field_in(style, n.as_str())
}

fn lookup_names(style: Style, idx: usize) -> (r: Vec<String>)
    ensures
        texts(r@) == lookup_term_names(style, idx as nat),
        r@.len() == 5,
{
    let mut r: Vec<String> = Vec::new();
    match style {
        Style::Aiken => {
            push_line(&mut r, indexed_name("lookup_", idx, "_first"));
            push_line(&mut r, indexed_name("lookup_", idx, "_last"));
            push_line(&mut r, indexed_name("lookup_", idx, "_product_expression"));
            push_line(&mut r, indexed_name("lookup_", idx, "_initial"));
            push_line(&mut r, indexed_name("lookup_", idx, "_adjacent"));
        },
        Style::Plinth => {
            push_line(&mut r, indexed_name("lookup", idx, "First"));
            push_line(&mut r, indexed_name("lookup", idx, "Last"));
            push_line(&mut r, indexed_name("lookup", idx, "ProductExpression"));
            push_line(&mut r, indexed_name("lookup", idx, "Initial"));
            push_line(&mut r, indexed_name("lookup", idx, "Adjacent"));
        },
    }
    assert(texts(r@) =~= lookup_term_names(style, idx as nat));
    r
}

/// Appends the pieces in order.
fn concat(parts: &Vec<&str>) -> (s: String)
    ensures
        s@ == concat_all(parts@),
{
    let mut s = String::new();
    let n = parts.len();
    let mut i: usize = 0;
    while i < n
        invariant
            i <= n,
            n == parts@.len(),
            s@ == concat_all(parts@.take(i as int)),
        decreases n - i,
    {
        s.append(parts[i]);
        i = i + 1;
        assert(parts@.take(i as int).drop_last() =~= parts@.take(i - 1));
    }
    assert(parts@.take(n as int) =~= parts@);
    s
}

/// The pieces one after the other.
pub open spec fn concat_all(parts: Seq<&str>) -> Seq<char>
    decreases parts.len(),
{
    if parts.len() == 0 {
        Seq::empty()
    } else {
        concat_all(parts.drop_last()) + parts.last()@
    }
}

fn lookup_line_texts(style: Style, idx: usize, ci: &str, ct: &str) -> (r: Vec<String>)
    ensures
        texts(r@) == lookup_lines(style, idx as nat, ci@, ct@),
{
    let product = lookup_field(style, idx, "_product_eval");
    let next = lookup_field(style, idx, "_product_next");
    let input = lookup_field(style, idx, "_input_eval");
    let prev = lookup_field(style, idx, "_input_prev_eval");
    let table = lookup_field(style, idx, "_table_eval");
    let names = lookup_names(style, idx);
    let p = product.as_str();
    let nx = next.as_str();
    let i = input.as_str();
    let pv = prev.as_str();
    let t = table.as_str();
    let mut r: Vec<String> = Vec::new();
    match style {
        Style::Aiken => {
            push_line(&mut r, concat(&vec!["  let ", names[0].as_str(), " = mul(l_0, sub(scalar_one, ", p, "))"]));
            push_line(
                &mut r,
                concat(&vec!["  let ", names[1].as_str(), " = mul(l_last, sub(mul(", p, ", ", p, "), ", p, "))"]),
            );
            push_line(
                &mut r,
                concat(
                    &vec![
                        "  let ",
                        names[2].as_str(),
                        " = mul(active_rows, sub(mul(mul(",
                        nx,
                        ", add(",
                        i,
                        ", p.beta)), add(",
                        t,
                        ", p.gamma)), mul(mul(",
                        p,
                        ", add(",
                        ci,
                        ", p.beta)), add(",
                        ct,
                        ", p.gamma))))",
                    ],
                ),
            );
            push_line(&mut r, concat(&vec!["  let ", names[3].as_str(), " = mul(l_0, sub(", i, ", ", t, "))"]));
            push_line(
                &mut r,
                concat(
                    &vec![
                        "  let ",
                        names[4].as_str(),
                        " = mul(mul(active_rows, sub(",
                        i,
                        ", ",
                        t,
                        ")), sub(",
                        i,
                        ", ",
                        pv,
                        "))",
                    ],
                ),
            );
        },
        Style::Plinth => {
            push_line(&mut r, concat(&vec!["        !", names[0].as_str(), " = l0 * (scalarOne - ", p, ")"]));
            push_line(
                &mut r,
                concat(&vec!["        !", names[1].as_str(), " = lLast * (", p, " * ", p, " - ", p, ")"]),
            );
            push_line(
                &mut r,
                concat(
                    &vec![
                        "        !",
                        names[2].as_str(),
                        " = activeRows * (",
                        nx,
                        " * (",
                        i,
                        " + beta pieces) * (",
                        t,
                        " + gamma pieces) - ",
                        p,
                        " * (",
                        ci,
                        " + beta pieces) * (",
                        ct,
                        " + gamma pieces))",
                    ],
                ),
            );
            push_line(&mut r, concat(&vec!["        !", names[3].as_str(), " = l0 * (", i, " - ", t, ")"]));
            push_line(
                &mut r,
                concat(
                    &vec![
                        "        !",
                        names[4].as_str(),
                        " = activeRows * (",
                        i,
                        " - ",
                        t,
                        ") * (",
                        i,
                        " - ",
                        pv,
                        ")",
                    ],
                ),
            );
        },
    }
    proof {
        reveal_with_fuel(concat_all, 16);
    }
    assert(texts(r@) =~= lookup_lines(style, idx as nat, ci@, ct@));
    r
}

impl AxiomLayout {
    /// The lines computing the Lagrange basis at the last rows, in Aiken.
    pub fn aiken_lagrange_prelude(&self) -> (r: Vec<String>)
        ensures
            texts(r@) == spec_aiken_lagrange_prelude(self.blinding_factors as nat),
    {
        let bf = self.blinding_factors;
        let mut blind: Vec<String> = Vec::new();
        let mut i: usize = 0;
        while i < bf
            invariant
                i <= bf,
                texts(blind@) == Seq::new(i as nat, |k: int| indexed("l_blind_"@, k as nat)),
            decreases bf - i,
        {
            push_line(&mut blind, numbered("l_blind_", i));
            i = i + 1;
            assert(texts(blind@) =~= Seq::new(i as nat, |k: int| indexed("l_blind_"@, k as nat)));
        }
        let ghost b = texts(blind@);
        let mut pattern: Vec<String> = Vec::new();
        push_literal_line(&mut pattern, "l_last");
        let copy = copy_lines(&blind);
        push_lines(&mut pattern, copy);
        push_literal_line(&mut pattern, "l_0");
        let mut r: Vec<String> = Vec::new();
        push_literal_line(&mut r, "  let scalar_zero = from_int(0)");
        push_literal_line(&mut r, "  let scalar_one = from_int(1)");
        push_literal_line(&mut r, "  let xn = scalar_pow(p.x, n)");
        push_literal_line(&mut r, "  let rotations = rotate_omegas(omega, omega_inv, -(blinding_factors + 1), 0)");
        push_literal_line(&mut r, "  let l_evals = lagrange_polynomial_basis(p.x, xn, barycentric_weight, rotations)");
        let mut e = String::from_str("  expect [");
        let jp = join_strings(&pattern, ", ");
        e.append(jp.as_str());
        e.append("] = l_evals");
        push_line(&mut r, e);
        let mut lb = String::from_str("  let l_blind = ");
        let s = aiken_sum(&blind);
        lb.append(s.as_str());
        push_line(&mut r, lb);
        push_literal_line(&mut r, "  let active_rows = sub(scalar_one, add(l_last, l_blind))");
        assert(texts(pattern@) =~= seq!["l_last"@] + b + seq!["l_0"@]);
        assert(texts(r@) =~= spec_aiken_lagrange_prelude(bf as nat));
        r
    }

    /// The lines computing the Lagrange basis at the last rows, in Plinth
    /// (the rotations must fit in an `i32`).
    pub fn plinth_lagrange_prelude(&self) -> (r: Vec<String>)
        requires
            self.blinding_factors < i32::MAX,
        ensures
            texts(r@) == spec_plinth_lagrange_prelude(self.blinding_factors as nat),
    {
        let bf = self.blinding_factors;
        let mut blind: Vec<String> = Vec::new();
        let mut i: usize = 0;
        while i < bf
            invariant
                i <= bf,
                bf < i32::MAX,
                texts(blind@) == Seq::new(i as nat, |k: int| "(lEvals !! "@ + decimal((k + 1) as nat) + ")"@),
            decreases bf - i,
        {
            let mut t = String::from_str("(lEvals !! ");
            push_decimal(&mut t, (i + 1) as u64);
            t.append(")");
            push_line(&mut blind, t);
            i = i + 1;
            assert(texts(blind@) =~= Seq::new(i as nat, |k: int| "(lEvals !! "@ + decimal((k + 1) as nat) + ")"@));
        }
        let mut rots: Vec<String> = Vec::new();
        let count = bf + 2;
        let mut k: usize = 0;
        while k < count
            invariant
                k <= count,
                count == bf + 2,
                bf < i32::MAX,
                texts(rots@) == Seq::new(
                    k as nat,
                    |j: int| "rotateOmega one "@ + signed_decimal(j - (bf + 1)),
                ),
            decreases count - k,
        {
            let rot: i32 = (k as i64 - (bf as i64 + 1)) as i32;
            let mut t = String::from_str("rotateOmega one ");
            push_signed_decimal(&mut t, rot);
            push_line(&mut rots, t);
            k = k + 1;
            assert(texts(rots@) =~= Seq::new(k as nat, |j: int| "rotateOmega one "@ + signed_decimal(j - (bf + 1))));
        }
        let mut r: Vec<String> = Vec::new();
        push_literal_line(&mut r, "    let !xn = powMod (x pieces) n");
        push_literal_line(&mut r, "        !rotateOmega = BlsUtils.rotateOmega omega omegaInv");
        push_literal_line(&mut r, "        !rotations =");
        let mut rl = String::from_str("            [");
        let jr = join_strings(&rots, ", ");
        rl.append(jr.as_str());
        rl.append("]");
        push_line(&mut r, rl);
        push_literal_line(&mut r, "        !lEvals = lagrangePolynomialBasis (x pieces) xn barycentricWeight rotations");
        push_literal_line(&mut r, "        !lLast = lEvals !! 0");
        let mut lb = String::from_str("        !lBlind = ");
        let s = plinth_sum(&blind);
        lb.append(s.as_str());
        push_line(&mut r, lb);
        let mut l0 = String::from_str("        !l0 = lEvals !! ");
        push_decimal(&mut l0, (bf + 1) as u64);
        push_line(&mut r, l0);
        push_literal_line(&mut r, "        !activeRows = scalarOne - (lLast + lBlind)");
        assert(texts(r@) =~= spec_plinth_lagrange_prelude(bf as nat));
        r
    }

    /// Appends the lookups' constraint lines and names, in a style; on an
    /// error nothing is appended.
    pub fn lookup_terms_in(
        &self,
        style: Style,
        cs: &AxiomConstraintSystem,
        lines: &mut Vec<String>,
        terms: &mut Vec<String>,
    ) -> (r: Result<(), ExpressionError>)
        ensures
            match spec_lookup_terms(*self, style, cs.lookups@) {
                Ok(lt) => r is Ok && texts(final(lines)@) == texts(old(lines)@) + lt.0 && texts(final(terms)@)
                    == texts(old(terms)@) + lt.1,
                Err(e) => r == Err::<(), ExpressionError>(e) && final(lines)@ == old(lines)@ && final(terms)@
                    == old(terms)@,
            },
    {
        let mut new_lines: Vec<String> = Vec::new();
        let mut new_terms: Vec<String> = Vec::new();
        let n = cs.lookups.len();
        let mut idx: usize = 0;
        assert(cs.lookups@.take(0) =~= Seq::<LookupArgument>::empty());
        assert(texts(new_lines@) =~= Seq::<Seq<char>>::empty());
        assert(texts(new_terms@) =~= Seq::<Seq<char>>::empty());
        while idx < n
            invariant
                idx <= n,
                n == cs.lookups@.len(),
                spec_lookup_terms(*self, style, cs.lookups@.take(idx as int)) == Ok::<
                    (Seq<Seq<char>>, Seq<Seq<char>>),
                    ExpressionError,
                >((texts(new_lines@), texts(new_terms@))),
            decreases n - idx,
        {
            proof {
                assert(cs.lookups@.take(idx + 1).drop_last() =~= cs.lookups@.take(idx as int));
                assert(cs.lookups@.take(idx + 1).last() == cs.lookups@[idx as int]);
            }
            let lookup = &cs.lookups[idx];
            let ci = match self.compressed_lookup_in(style, &lookup.input) {
                Ok(t) => t,
                Err(e) => {
                    proof {
                        lemma_lookup_terms_error_stays(*self, style, cs.lookups@, idx + 1);
                    }
                    return Err(e);
                },
            };
            let ct = match self.compressed_lookup_in(style, &lookup.table) {
                Ok(t) => t,
                Err(e) => {
                    proof {
                        lemma_lookup_terms_error_stays(*self, style, cs.lookups@, idx + 1);
                    }
                    return Err(e);
                },
            };
            let ls = lookup_line_texts(style, idx, ci.as_str(), ct.as_str());
            push_lines(&mut new_lines, ls);
            let ns = lookup_names(style, idx);
            push_lines(&mut new_terms, ns);
            idx = idx + 1;
        }
        assert(cs.lookups@.take(n as int) =~= cs.lookups@);
        push_lines(lines, new_lines);
        push_lines(terms, new_terms);
        Ok(())
    }

    /// Appends the lookups' constraints in Aiken.
    pub fn aiken_lookup_terms(
        &self,
        cs: &AxiomConstraintSystem,
        lines: &mut Vec<String>,
        terms: &mut Vec<String>,
    ) -> (r: Result<(), ExpressionError>)
        ensures
            match spec_lookup_terms(*self, Style::Aiken, cs.lookups@) {
                Ok(lt) => r is Ok && texts(final(lines)@) == texts(old(lines)@) + lt.0 && texts(final(terms)@)
                    == texts(old(terms)@) + lt.1,
                Err(e) => r == Err::<(), ExpressionError>(e) && final(lines)@ == old(lines)@ && final(terms)@
                    == old(terms)@,
            },
    {
        self.lookup_terms_in(Style::Aiken, cs, lines, terms)
    }

    /// Appends the lookups' constraints in Plinth.
    pub fn plinth_lookup_terms(
        &self,
        cs: &AxiomConstraintSystem,
        lines: &mut Vec<String>,
        terms: &mut Vec<String>,
    ) -> (r: Result<(), ExpressionError>)
        ensures
            match spec_lookup_terms(*self, Style::Plinth, cs.lookups@) {
                Ok(lt) => r is Ok && texts(final(lines)@) == texts(old(lines)@) + lt.0 && texts(final(terms)@)
                    == texts(old(terms)@) + lt.1,
                Err(e) => r == Err::<(), ExpressionError>(e) && final(lines)@ == old(lines)@ && final(terms)@
                    == old(terms)@,
            },
    {
        self.lookup_terms_in(Style::Plinth, cs, lines, terms)
    }
}

/// The columns in chunks of `c`, each with the position of its first column.
pub open spec fn chunks_from(cols: Seq<PermutationColumn>, c: nat, start: nat) -> Seq<(nat, Seq<PermutationColumn>)>
    decreases (if start < cols.len() { cols.len() - start } else { 0 }),
{
    if c == 0 || start >= cols.len() {
        Seq::empty()
    } else {
        let end = if start + c < cols.len() { start + c } else { cols.len() as nat };
        seq![(start, cols.subrange(start as int, end as int))] + chunks_from(cols, c, start + c)
    }
}

/// How many permutation columns each set holds.
pub open spec fn spec_chunk_len(l: AxiomLayout) -> nat {
    if l.permutation_set_count == 0 {
        if l.permutation_columns@.len() > 1 { l.permutation_columns@.len() } else { 1 }
    } else {
        ((l.permutation_columns@.len() + l.permutation_set_count - 1) / (l.permutation_set_count as int)) as nat
    }
}

/// A sum, in a style: the terms added from left to right.
pub open spec fn sum_in(style: Style, ts: Seq<Seq<char>>) -> Seq<char> {
    match style {
        Style::Aiken => fold_terms(ts, "from_int(0)"@, "add("@, ", "@, ")"@),
        Style::Plinth => fold_terms(ts, "scalarZero"@, "("@, " + "@, ")"@),
    }
}

/// A product, in a style: the terms multiplied from left to right.
pub open spec fn product_in(style: Style, ts: Seq<Seq<char>>) -> Seq<char> {
    match style {
        Style::Aiken => fold_terms(ts, "from_int(1)"@, "mul("@, ", "@, ")"@),
        Style::Plinth => fold_terms(ts, "scalarOne"@, "("@, " * "@, ")"@),
    }
}

/// Sums and products of several terms, in both languages: none gives the
/// unit of the operation (zero, one), a single term is itself, and more are
/// combined from left to right with the operation (`add`/`+` for sums,
/// `mul`/`*` for products) applied to the combination of all but the last
/// term and the last term.
pub proof fn lemma_sum_product_texts(ts: Seq<Seq<char>>)
    ensures
        ts.len() == 0 ==> sum_in(Style::Aiken, ts) == "from_int(0)"@ && sum_in(Style::Plinth, ts) == "scalarZero"@
            && product_in(Style::Aiken, ts) == "from_int(1)"@ && product_in(Style::Plinth, ts) == "scalarOne"@,
        ts.len() == 1 ==> sum_in(Style::Aiken, ts) == ts[0] && sum_in(Style::Plinth, ts) == ts[0] && product_in(
            Style::Aiken,
            ts,
        ) == ts[0] && product_in(Style::Plinth, ts) == ts[0],
        ts.len() >= 2 ==> {
            &&& sum_in(Style::Aiken, ts) == "add("@ + sum_in(Style::Aiken, ts.drop_last()) + ", "@ + ts.last() + ")"@
            &&& sum_in(Style::Plinth, ts) == "("@ + sum_in(Style::Plinth, ts.drop_last()) + " + "@ + ts.last() + ")"@
            &&& product_in(Style::Aiken, ts) == "mul("@ + product_in(Style::Aiken, ts.drop_last()) + ", "@ + ts.last()
                + ")"@
            &&& product_in(Style::Plinth, ts) == "("@ + product_in(Style::Plinth, ts.drop_last()) + " * "@ + ts.last()
                + ")"@
        },
{
}

/// `gamma`, in a style.
pub open spec fn gamma_in(style: Style) -> Seq<char> {
    match style {
        Style::Aiken => "p.gamma"@,
        Style::Plinth => "gamma pieces"@,
    }
}

/// `beta` times the `g`-th permutation common evaluation, in a style.
pub open spec fn beta_common(style: Style, g: nat) -> Seq<char> {
    match style {
        Style::Aiken => "mul(p.beta, "@ + access(style, indexed("permutation_common_eval_"@, g)) + ")"@,
        Style::Plinth => "beta pieces * "@ + access(style, indexed("permutation_common_eval_"@, g)),
    }
}

/// `beta * x * delta^g`, in a style.
pub open spec fn delta_in(style: Style, g: nat) -> Seq<char> {
    match style {
        Style::Aiken => spec_aiken_delta_term(g),
        Style::Plinth => spec_plinth_delta_term(g),
    }
}

/// A value of the `s`-th permutation product.
pub open spec fn product_value(style: Style, prefix: Seq<char>, s: nat) -> Seq<char> {
    access(style, indexed(prefix, s))
}

/// The name of a permutation constraint.
pub open spec fn permutation_name(style: Style, what: nat, s: nat) -> Seq<char> {
    match style {
        Style::Aiken => if what == 0 {
            "perm_first"@
        } else if what == 1 {
            "perm_last"@
        } else if what == 2 {
            indexed("perm_link_"@, s)
        } else {
            indexed("perm_set_"@, s)
        },
        Style::Plinth => if what == 0 {
            "permFirst"@
        } else if what == 1 {
            "permLast"@
        } else if what == 2 {
            indexed("permLink"@, s)
        } else {
            indexed("permSet"@, s)
        },
    }
}

/// The first product starts at one.
pub open spec fn first_line(style: Style) -> Seq<char> {
    let x = product_value(style, "permutation_eval_"@, 0);
    match style {
        Style::Aiken => "  let perm_first = mul(l_0, sub(scalar_one, "@ + x + "))"@,
        Style::Plinth => "        !permFirst = l0 * (scalarOne - "@ + x + ")"@,
    }
}

/// The last product ends at zero or one.
pub open spec fn last_line(style: Style, last: nat) -> Seq<char> {
    let x = product_value(style, "permutation_eval_"@, last);
    match style {
        Style::Aiken => "  let perm_last = mul(l_last, sub(mul("@ + x + ", "@ + x + "), "@ + x + "))"@,
        Style::Plinth => "        !permLast = lLast * ("@ + x + " * "@ + x + " - "@ + x + ")"@,
    }
}

/// The `s`-th product starts where the previous one ends.
pub open spec fn link_line(style: Style, s: nat) -> Seq<char> {
    let a = product_value(style, "permutation_eval_"@, s);
    let b = product_value(style, "permutation_last_"@, (s - 1) as nat);
    let name = permutation_name(style, 2, s);
    match style {
        Style::Aiken => "  let "@ + name + " = mul(l_0, sub("@ + a + ", "@ + b + "))"@,
        Style::Plinth => "        !"@ + name + " = l0 * ("@ + a + " - "@ + b + ")"@,
    }
}

/// The `s`-th set's product step, its columns (from position `start`)
/// evaluated as `evals`.
pub open spec fn set_line(style: Style, s: nat, start: nat, evals: Seq<Seq<char>>) -> Seq<char> {
    let left = seq![product_value(style, "permutation_next_"@, s)] + Seq::new(
        evals.len(),
        |k: int| sum_in(style, seq![evals[k], beta_common(style, (start + k) as nat), gamma_in(style)]),
    );
    let right = seq![product_value(style, "permutation_eval_"@, s)] + Seq::new(
        evals.len(),
        |k: int| sum_in(style, seq![evals[k], delta_in(style, (start + k) as nat), gamma_in(style)]),
    );
    let name = permutation_name(style, 3, s);
    match style {
        Style::Aiken => "  let "@ + name + " = mul(active_rows, sub("@ + product_in(style, left) + ", "@ + product_in(
            style,
            right,
        ) + "))"@,
        Style::Plinth => "        !"@ + name + " = activeRows * ("@ + product_in(style, left) + " - "@ + product_in(
            style,
            right,
        ) + ")"@,
    }
}

/// The product step of the `s`-th permutation set in both languages, over
/// the same evaluations: on active rows,
/// `Z_s(ωX) · Π_k (v_k + β·σ_{start+k} + γ) = Z_s(X) · Π_k (v_k + β·X·δ^{start+k} + γ)`,
/// where the `v_k` are the set's column evaluations (given per language),
/// `σ_g` the `g`-th permutation common evaluation and `δ^g` the delta term of
/// column `g`.
pub proof fn lemma_set_lines(s: nat, start: nat, ea: Seq<Seq<char>>, ep: Seq<Seq<char>>)
    requires
        ea.len() == ep.len(),
    ensures
        set_line(Style::Aiken, s, start, ea) == "  let "@ + ("perm_set_"@ + decimal(s)) + " = mul(active_rows, sub("@
            + product_in(
            Style::Aiken,
            seq!["p."@ + ("permutation_next_"@ + decimal(s))] + Seq::new(
                ea.len(),
                |k: int|
                    sum_in(
                        Style::Aiken,
                        seq![
                            ea[k],
                            "mul(p.beta, "@ + ("p."@ + ("permutation_common_eval_"@ + decimal((start + k) as nat)))
                                + ")"@,
                            "p.gamma"@,
                        ],
                    ),
            ),
        ) + ", "@ + product_in(
            Style::Aiken,
            seq!["p."@ + ("permutation_eval_"@ + decimal(s))] + Seq::new(
                ea.len(),
                |k: int| sum_in(Style::Aiken, seq![ea[k], spec_aiken_delta_term((start + k) as nat), "p.gamma"@]),
            ),
        ) + "))"@,
        set_line(Style::Plinth, s, start, ep) == "        !"@ + ("permSet"@ + decimal(s)) + " = activeRows * ("@
            + product_in(
            Style::Plinth,
            seq![snake_to_camel("permutation_next_"@ + decimal(s)) + " pieces"@] + Seq::new(
                ep.len(),
                |k: int|
                    sum_in(
                        Style::Plinth,
                        seq![
                            ep[k],
                            "beta pieces * "@ + (snake_to_camel(
                                "permutation_common_eval_"@ + decimal((start + k) as nat),
                            ) + " pieces"@),
                            "gamma pieces"@,
                        ],
                    ),
            ),
        ) + " - "@ + product_in(
            Style::Plinth,
            seq![snake_to_camel("permutation_eval_"@ + decimal(s)) + " pieces"@] + Seq::new(
                ep.len(),
                |k: int| sum_in(Style::Plinth, seq![ep[k], spec_plinth_delta_term((start + k) as nat), "gamma pieces"@]),
            ),
        ) + ")"@,
{
    let la = seq![product_value(Style::Aiken, "permutation_next_"@, s)] + Seq::new(
        ea.len(),
        |k: int| sum_in(Style::Aiken, seq![ea[k], beta_common(Style::Aiken, (start + k) as nat), gamma_in(Style::Aiken)]),
    );
    let la2 = seq!["p."@ + ("permutation_next_"@ + decimal(s))] + Seq::new(
        ea.len(),
        |k: int|
            sum_in(
                Style::Aiken,
                seq![
                    ea[k],
                    "mul(p.beta, "@ + ("p."@ + ("permutation_common_eval_"@ + decimal((start + k) as nat))) + ")"@,
                    "p.gamma"@,
                ],
            ),
    );
    assert(la =~= la2);
    let ra = seq![product_value(Style::Aiken, "permutation_eval_"@, s)] + Seq::new(
        ea.len(),
        |k: int| sum_in(Style::Aiken, seq![ea[k], delta_in(Style::Aiken, (start + k) as nat), gamma_in(Style::Aiken)]),
    );
    let ra2 = seq!["p."@ + ("permutation_eval_"@ + decimal(s))] + Seq::new(
        ea.len(),
        |k: int| sum_in(Style::Aiken, seq![ea[k], spec_aiken_delta_term((start + k) as nat), "p.gamma"@]),
    );
    assert(ra =~= ra2);
    let lp = seq![product_value(Style::Plinth, "permutation_next_"@, s)] + Seq::new(
        ep.len(),
        |k: int| sum_in(Style::Plinth, seq![ep[k], beta_common(Style::Plinth, (start + k) as nat), gamma_in(Style::Plinth)]),
    );
    let lp2 = seq![snake_to_camel("permutation_next_"@ + decimal(s)) + " pieces"@] + Seq::new(
        ep.len(),
        |k: int|
            sum_in(
                Style::Plinth,
                seq![
                    ep[k],
                    "beta pieces * "@ + (snake_to_camel("permutation_common_eval_"@ + decimal((start + k) as nat))
                        + " pieces"@),
                    "gamma pieces"@,
                ],
            ),
    );
    assert(lp =~= lp2);
    let rp = seq![product_value(Style::Plinth, "permutation_eval_"@, s)] + Seq::new(
        ep.len(),
        |k: int| sum_in(Style::Plinth, seq![ep[k], delta_in(Style::Plinth, (start + k) as nat), gamma_in(Style::Plinth)]),
    );
    let rp2 = seq![snake_to_camel("permutation_eval_"@ + decimal(s)) + " pieces"@] + Seq::new(
        ep.len(),
        |k: int| sum_in(Style::Plinth, seq![ep[k], spec_plinth_delta_term((start + k) as nat), "gamma pieces"@]),
    );
    assert(rp =~= rp2);
}

/// The evaluations of the columns, or the first error.
pub open spec fn spec_column_evals(l: AxiomLayout, style: Style, cols: Seq<PermutationColumn>) -> Result<
    Seq<Seq<char>>,
    ExpressionError,
>
    decreases cols.len(),
{
    if cols.len() == 0 {
        Ok(Seq::empty())
    } else {
        match spec_column_evals(l, style, cols.drop_last()) {
            Err(e) => Err(e),
            Ok(ts) => match spec_permutation_column_eval(l, style, cols.last()) {
                Err(e) => Err(e),
                Ok(t) => Ok(ts.push(t)),
            },
        }
    }
}

/// The product steps of the sets, or the first error.
pub open spec fn spec_set_lines(l: AxiomLayout, style: Style, chunks: Seq<(nat, Seq<PermutationColumn>)>) -> Result<
    Seq<Seq<char>>,
    ExpressionError,
>
    decreases chunks.len(),
{
    if chunks.len() == 0 {
        Ok(Seq::empty())
    } else {
        match spec_set_lines(l, style, chunks.drop_last()) {
            Err(e) => Err(e),
            Ok(ls) => match spec_column_evals(l, style, chunks.last().1) {
                Err(e) => Err(e),
                Ok(ev) => Ok(ls.push(set_line(style, (chunks.len() - 1) as nat, chunks.last().0, ev))),
            },
        }
    }
}

/// The permutation's constraint lines and names, or the first column whose
/// evaluation the proof does not hold: none without permutation sets;
/// otherwise the first and last products, the links between sets, then the
/// product step of each set.
pub open spec fn spec_permutation_terms(l: AxiomLayout, style: Style) -> Result<
    (Seq<Seq<char>>, Seq<Seq<char>>),
    ExpressionError,
> {
    let count = l.permutation_set_count as nat;
    if count == 0 {
        Ok((Seq::empty(), Seq::empty()))
    } else {
        let chunks = chunks_from(l.permutation_columns@, spec_chunk_len(l), 0);
        match spec_set_lines(l, style, chunks) {
            Err(e) => Err(e),
            Ok(sl) => Ok(
                (
                    seq![first_line(style), last_line(style, (count - 1) as nat)] + Seq::new(
                        (count - 1) as nat,
                        |k: int| link_line(style, (k + 1) as nat),
                    ) + sl,
                    seq![permutation_name(style, 0, 0), permutation_name(style, 1, 0)] + Seq::new(
                        (count - 1) as nat,
                        |k: int| permutation_name(style, 2, (k + 1) as nat),
                    ) + Seq::new(chunks.len(), |k: int| permutation_name(style, 3, k as nat)),
                ),
            ),
        }
    }
}

proof fn lemma_column_evals_styles(l: AxiomLayout, cols: Seq<PermutationColumn>)
    ensures
        spec_column_evals(l, Style::Aiken, cols) is Ok <==> spec_column_evals(l, Style::Plinth, cols) is Ok,
        spec_column_evals(l, Style::Aiken, cols) is Err ==> spec_column_evals(l, Style::Plinth, cols)
            == spec_column_evals(l, Style::Aiken, cols),
    decreases cols.len(),
{
    if cols.len() > 0 {
        lemma_column_evals_styles(l, cols.drop_last());
    }
}

proof fn lemma_set_lines_styles(l: AxiomLayout, chunks: Seq<(nat, Seq<PermutationColumn>)>)
    ensures
        spec_set_lines(l, Style::Aiken, chunks) is Ok <==> spec_set_lines(l, Style::Plinth, chunks) is Ok,
        spec_set_lines(l, Style::Aiken, chunks) is Err ==> spec_set_lines(l, Style::Plinth, chunks)
            == spec_set_lines(l, Style::Aiken, chunks),
    decreases chunks.len(),
{
    if chunks.len() > 0 {
        lemma_set_lines_styles(l, chunks.drop_last());
        lemma_column_evals_styles(l, chunks.last().1);
    }
}

/// The permutation argument's first, last and link constraints as they read
/// in each language, over the same evaluations in both: with `count` sets of
/// columns, the first product starts at one, the last one (of set
/// `count - 1`) ends at zero or one, and each product `s >= 1` starts where
/// product `s - 1` ends. Both languages accept the same layouts, with the
/// same error otherwise.
pub proof fn lemma_permutation_lines(l: AxiomLayout)
    requires
        l.permutation_set_count > 0,
    ensures
        spec_permutation_terms(l, Style::Aiken) is Ok <==> spec_permutation_terms(l, Style::Plinth) is Ok,
        spec_permutation_terms(l, Style::Aiken) is Err ==> spec_permutation_terms(l, Style::Plinth)
            == spec_permutation_terms(l, Style::Aiken),
        spec_permutation_terms(l, Style::Aiken) matches Ok(r) ==> {
            let count = l.permutation_set_count as nat;
            let x0 = "p."@ + ("permutation_eval_"@ + decimal(0));
            let x = "p."@ + ("permutation_eval_"@ + decimal((count - 1) as nat));
            &&& r.0.len() >= count + 1
            &&& r.0[0] == "  let perm_first = mul(l_0, sub(scalar_one, "@ + x0 + "))"@
            &&& r.0[1] == "  let perm_last = mul(l_last, sub(mul("@ + x + ", "@ + x + "), "@ + x + "))"@
            &&& forall|s: int|
                1 <= s < count ==> #[trigger] r.0[s + 1] == "  let "@ + ("perm_link_"@ + decimal(s as nat))
                    + " = mul(l_0, sub("@ + ("p."@ + ("permutation_eval_"@ + decimal(s as nat))) + ", "@ + ("p."@ + (
                "permutation_last_"@ + decimal((s - 1) as nat))) + "))"@
        },
        spec_permutation_terms(l, Style::Plinth) matches Ok(r) ==> {
            let count = l.permutation_set_count as nat;
            let x0 = snake_to_camel("permutation_eval_"@ + decimal(0)) + " pieces"@;
            let x = snake_to_camel("permutation_eval_"@ + decimal((count - 1) as nat)) + " pieces"@;
            &&& r.0.len() >= count + 1
            &&& r.0[0] == "        !permFirst = l0 * (scalarOne - "@ + x0 + ")"@
            &&& r.0[1] == "        !permLast = lLast * ("@ + x + " * "@ + x + " - "@ + x + ")"@
            &&& forall|s: int|
                1 <= s < count ==> #[trigger] r.0[s + 1] == "        !"@ + ("permLink"@ + decimal(s as nat)) + " = l0 * ("@
                    + (snake_to_camel("permutation_eval_"@ + decimal(s as nat)) + " pieces"@) + " - "@ + (snake_to_camel(
                "permutation_last_"@ + decimal((s - 1) as nat)) + " pieces"@) + ")"@
        },
{
    let chunks = chunks_from(l.permutation_columns@, spec_chunk_len(l), 0);
    lemma_set_lines_styles(l, chunks);
    let count = l.permutation_set_count as nat;
    if let Ok(r) = spec_permutation_terms(l, Style::Aiken) {
        assert forall|s: int| 1 <= s < count implies #[trigger] r.0[s + 1] == link_line(Style::Aiken, s as nat) by {
            assert(r.0[s + 1] == Seq::new((count - 1) as nat, |k: int| link_line(Style::Aiken, (k + 1) as nat))[s - 1]);
        }
    }
    if let Ok(r) = spec_permutation_terms(l, Style::Plinth) {
        assert forall|s: int| 1 <= s < count implies #[trigger] r.0[s + 1] == link_line(Style::Plinth, s as nat) by {
            assert(r.0[s + 1] == Seq::new((count - 1) as nat, |k: int| link_line(Style::Plinth, (k + 1) as nat))[s - 1]);
        }
    }
}

proof fn lemma_set_lines_blocks(l: AxiomLayout, style: Style, chunks: Seq<(nat, Seq<PermutationColumn>)>)
    ensures
        spec_set_lines(l, style, chunks) matches Ok(ls) ==> {
            &&& ls.len() == chunks.len()
            &&& forall|k: int|
                0 <= k < chunks.len() ==> spec_column_evals(l, style, (#[trigger] chunks[k]).1) is Ok && ls[k]
                    == set_line(style, k as nat, chunks[k].0, spec_column_evals(l, style, chunks[k].1)->Ok_0)
        },
    decreases chunks.len(),
{
    if chunks.len() > 0 {
        let d = chunks.drop_last();
        lemma_set_lines_blocks(l, style, d);
        if let Ok(ls) = spec_set_lines(l, style, chunks) {
            assert forall|k: int| 0 <= k < chunks.len() implies spec_column_evals(l, style, (#[trigger] chunks[k]).1) is Ok
                && ls[k] == set_line(style, k as nat, chunks[k].0, spec_column_evals(l, style, chunks[k].1)->Ok_0) by {
                if k < chunks.len() - 1 {
                    assert(chunks[k] == d[k]);
                }
            }
        }
    }
}

/// After the first, last and link constraints, the permutation has one
/// product step per set of columns, in order: the `k`-th for set `k`, with
/// the set's first column position and its columns' evaluations (as
/// `lemma_set_lines` spells them out).
pub proof fn lemma_permutation_set_lines(l: AxiomLayout, style: Style)
    requires
        l.permutation_set_count > 0,
    ensures
        spec_permutation_terms(l, style) matches Ok(r) ==> {
            let count = l.permutation_set_count as nat;
            let chunks = chunks_from(l.permutation_columns@, spec_chunk_len(l), 0);
            &&& r.0.len() == count + 1 + chunks.len()
            &&& forall|k: int|
                0 <= k < chunks.len() ==> spec_column_evals(l, style, (#[trigger] chunks[k]).1) is Ok && r.0[count + 1
                    + k] == set_line(style, k as nat, chunks[k].0, spec_column_evals(l, style, chunks[k].1)->Ok_0)
        },
{
    let count = l.permutation_set_count as nat;
    let chunks = chunks_from(l.permutation_columns@, spec_chunk_len(l), 0);
    lemma_set_lines_blocks(l, style, chunks);
    if let Ok(r) = spec_permutation_terms(l, style) {
        let sl = spec_set_lines(l, style, chunks)->Ok_0;
        let head = seq![first_line(style), last_line(style, (count - 1) as nat)] + Seq::new(
            (count - 1) as nat,
            |k: int| link_line(style, (k + 1) as nat),
        );
        assert(r.0 == head + sl);
        assert forall|k: int| 0 <= k < chunks.len() implies spec_column_evals(l, style, (#[trigger] chunks[k]).1) is Ok
            && r.0[count + 1 + k] == set_line(style, k as nat, chunks[k].0, spec_column_evals(l, style, chunks[k].1)->Ok_0) by {
            assert(r.0[count + 1 + k] == sl[k]);
        }
    }
}

proof fn lemma_column_evals_error_stays(l: AxiomLayout, style: Style, cols: Seq<PermutationColumn>, p: int)
    requires
        0 <= p <= cols.len(),
        spec_column_evals(l, style, cols.take(p)) is Err,
    ensures
        spec_column_evals(l, style, cols) == spec_column_evals(l, style, cols.take(p)),
    decreases cols.len() - p,
{
    if p < cols.len() {
        assert(cols.take(p + 1).drop_last() =~= cols.take(p));
        lemma_column_evals_error_stays(l, style, cols, p + 1);
    } else {
        assert(cols.take(p) =~= cols);
    }
}

proof fn lemma_set_lines_error_stays(
    l: AxiomLayout,
    style: Style,
    chunks: Seq<(nat, Seq<PermutationColumn>)>,
    p: int,
)
    requires
        0 <= p <= chunks.len(),
        spec_set_lines(l, style, chunks.take(p)) is Err,
    ensures
        spec_set_lines(l, style, chunks) == spec_set_lines(l, style, chunks.take(p)),
    decreases chunks.len() - p,
{
    if p < chunks.len() {
        assert(chunks.take(p + 1).drop_last() =~= chunks.take(p));
        lemma_set_lines_error_stays(l, style, chunks, p + 1);
    } else {
        assert(chunks.take(p) =~= chunks);
    }
}

fn sum3(style: Style, a: String, b: String, c: String) -> (s: String)
    ensures
        s@ == sum_in(style, seq![a@, b@, c@]),
{
    let mut v: Vec<String> = Vec::new();
    push_line(&mut v, a);
    push_line(&mut v, b);
    push_line(&mut v, c);
    assert(texts(v@) =~= seq![a@, b@, c@]);
    match style {
        Style::Aiken => aiken_sum(&v),
        Style::Plinth => plinth_sum(&v),
    }
}

fn product_of(style: Style, v: &Vec<String>) -> (s: String)
    ensures
        s@ == product_in(style, texts(v@)),
{
    match style {
        Style::Aiken => aiken_product(v),
        Style::Plinth => plinth_product(v),
    }
}

fn permutation_name_text(style: Style, what: usize, s: usize) -> (r: String)
    requires
        what < 4,
    ensures
        r@ == permutation_name(style, what as nat, s as nat),
{
    match style {
        Style::Aiken => if what == 0 {
            String::from_str("perm_first")
        } else if what == 1 {
            String::from_str("perm_last")
        } else if what == 2 {
            numbered("perm_link_", s)
        } else {
            numbered("perm_set_", s)
        },
        Style::Plinth => if what == 0 {
            String::from_str("permFirst")
        } else if what == 1 {
            String::from_str("permLast")
        } else if what == 2 {
            numbered("permLink", s)
        } else {
            numbered("permSet", s)
        },
    }
}

fn product_field(style: Style, prefix: &str, s: usize) -> (r: String)
    ensures
        r@ == product_value(style, prefix@, s as nat),
{
    let n = numbered(prefix, s);
    field_in(style, n.as_str())
}

impl AxiomLayout {
    fn column_evals_in(&self, style: Style, start: usize, end: usize) -> (r: Result<Vec<String>, ExpressionError>)
        requires
            start <= end <= self.permutation_columns@.len(),
        ensures
            match spec_column_evals(*self, style, self.permutation_columns@.subrange(start as int, end as int)) {
                Ok(ts) => r matches Ok(v) && texts(v@) == ts && v@.len() == end - start,
                Err(e) => r == Err::<Vec<String>, ExpressionError>(e),
            },
    {
        let ghost cols = self.permutation_columns@.subrange(start as int, end as int);
        let mut out: Vec<String> = Vec::new();
        let mut k: usize = start;
        assert(cols.take(0) =~= Seq::<PermutationColumn>::empty());
        assert(texts(out@) =~= Seq::<Seq<char>>::empty());
        while k < end
            invariant
                start <= k <= end,
                end <= self.permutation_columns@.len(),
                cols == self.permutation_columns@.subrange(start as int, end as int),
                spec_column_evals(*self, style, cols.take(k - start)) == Ok::<Seq<Seq<char>>, ExpressionError>(
                    texts(out@),
                ),
                out@.len() == k - start,
            decreases end - k,
        {
            proof {
                assert(cols.take(k - start + 1).drop_last() =~= cols.take(k - start));
                assert(cols.take(k - start + 1).last() == self.permutation_columns@[k as int]);
            }
            match self.permutation_column_eval_in(style, &self.permutation_columns[k]) {
                Ok(t) => push_line(&mut out, t),
                Err(e) => {
                    proof {
                        lemma_column_evals_error_stays(*self, style, cols, k - start + 1);
                    }
                    return Err(e);
                },
            }
            k = k + 1;
        }
        assert(cols.take(end - start) =~= cols);
        Ok(out)
    }

    fn set_line_text(&self, style: Style, s: usize, start: usize, evals: &Vec<String>) -> (r: String)
        requires
            start + evals@.len() <= usize::MAX,
        ensures
            r@ == set_line(style, s as nat, start as nat, texts(evals@)),
    {
        let ghost ev = texts(evals@);
        let mut left: Vec<String> = Vec::new();
        let mut right: Vec<String> = Vec::new();
        push_line(&mut left, product_field(style, "permutation_next_", s));
        push_line(&mut right, product_field(style, "permutation_eval_", s));
        let n = evals.len();
        let mut k: usize = 0;
        while k < n
            invariant
                k <= n,
                n == evals@.len(),
                ev == texts(evals@),
                start + n <= usize::MAX,
                texts(left@) == seq![product_value(style, "permutation_next_"@, s as nat)] + Seq::new(
                    k as nat,
                    |j: int| sum_in(style, seq![ev[j], beta_common(style, (start + j) as nat), gamma_in(style)]),
                ),
                texts(right@) == seq![product_value(style, "permutation_eval_"@, s as nat)] + Seq::new(
                    k as nat,
                    |j: int| sum_in(style, seq![ev[j], delta_in(style, (start + j) as nat), gamma_in(style)]),
                ),
            decreases n - k,
        {
            let g = start + k;
            let common = numbered("permutation_common_eval_", g);
            let access_common = field_in(style, common.as_str());
            let beta = match style {
                Style::Aiken => {
                    let mut b = String::from_str("mul(p.beta, ");
                    b.append(access_common.as_str());
                    b.append(")");
                    b
                },
                Style::Plinth => {
                    let mut b = String::from_str("beta pieces * ");
                    b.append(access_common.as_str());
                    b
                },
            };
            let gamma = match style {
                Style::Aiken => String::from_str("p.gamma"),
                Style::Plinth => String::from_str("gamma pieces"),
            };
            let delta = match style {
                Style::Aiken => aiken_delta_term(g),
                Style::Plinth => plinth_delta_term(g),
            };
            let gamma2 = match style {
                Style::Aiken => String::from_str("p.gamma"),
                Style::Plinth => String::from_str("gamma pieces"),
            };
            push_line(&mut left, sum3(style, evals[k].clone(), beta, gamma));
            push_line(&mut right, sum3(style, evals[k].clone(), delta, gamma2));
            k = k + 1;
            assert(texts(left@) =~= seq![product_value(style, "permutation_next_"@, s as nat)] + Seq::new(
                k as nat,
                |j: int| sum_in(style, seq![ev[j], beta_common(style, (start + j) as nat), gamma_in(style)]),
            ));
            assert(texts(right@) =~= seq![product_value(style, "permutation_eval_"@, s as nat)] + Seq::new(
                k as nat,
                |j: int| sum_in(style, seq![ev[j], delta_in(style, (start + j) as nat), gamma_in(style)]),
            ));
        }
        let name = permutation_name_text(style, 3, s);
        let pl = product_of(style, &left);
        let pr = product_of(style, &right);
        match style {
            Style::Aiken => {
                let mut t = String::from_str("  let ");
                t.append(name.as_str());
                t.append(" = mul(active_rows, sub(");
                t.append(pl.as_str());
                t.append(", ");
                t.append(pr.as_str());
                t.append("))");
                t
            },
            Style::Plinth => {
                let mut t = String::from_str("        !");
                t.append(name.as_str());
                t.append(" = activeRows * (");
                t.append(pl.as_str());
                t.append(" - ");
                t.append(pr.as_str());
                t.append(")");
                t
            },
        }
    }

    /// Appends the permutation's constraint lines and names, in a style;
    /// on an error nothing is appended. With sets, there must be columns to
    /// chunk.
    pub fn permutation_terms_in(
        &self,
        style: Style,
        lines: &mut Vec<String>,
        terms: &mut Vec<String>,
    ) -> (r: Result<(), ExpressionError>)
        requires
            self.permutation_set_count == 0 || self.permutation_columns@.len() > 0,
        ensures
            match spec_permutation_terms(*self, style) {
                Ok(pt) => r is Ok && texts(final(lines)@) == texts(old(lines)@) + pt.0 && texts(final(terms)@)
                    == texts(old(terms)@) + pt.1,
                Err(e) => r == Err::<(), ExpressionError>(e) && final(lines)@ == old(lines)@ && final(terms)@
                    == old(terms)@,
            },
    {
        let count = self.permutation_set_count;
        if count == 0 {
            assert(texts(lines@) + Seq::<Seq<char>>::empty() =~= texts(lines@));
            assert(texts(terms@) + Seq::<Seq<char>>::empty() =~= texts(terms@));
            return Ok(());
        }
        let mut head: Vec<String> = Vec::new();
        let mut names: Vec<String> = Vec::new();
        let x0 = product_field(style, "permutation_eval_", 0);
        let first = match style {
            Style::Aiken => {
                let mut t = String::from_str("  let perm_first = mul(l_0, sub(scalar_one, ");
                t.append(x0.as_str());
                t.append("))");
                t
            },
            Style::Plinth => {
                let mut t = String::from_str("        !permFirst = l0 * (scalarOne - ");
                t.append(x0.as_str());
                t.append(")");
                t
            },
        };
        push_line(&mut head, first);
        push_line(&mut names, permutation_name_text(style, 0, 0));
        let xl = product_field(style, "permutation_eval_", count - 1);
        let x = xl.as_str();
        let last = match style {
            Style::Aiken => concat(&vec!["  let perm_last = mul(l_last, sub(mul(", x, ", ", x, "), ", x, "))"]),
            Style::Plinth => concat(&vec!["        !permLast = lLast * (", x, " * ", x, " - ", x, ")"]),
        };
        proof {
            reveal_with_fuel(concat_all, 8);
        }
        push_line(&mut head, last);
        push_line(&mut names, permutation_name_text(style, 1, 0));
        let ghost h0 = texts(head@);
        let ghost n0 = texts(names@);
        let mut s: usize = 1;
        while s < count
            invariant
                1 <= s <= count,
                count == self.permutation_set_count,
                texts(head@) == h0 + Seq::new((s - 1) as nat, |k: int| link_line(style, (k + 1) as nat)),
                texts(names@) == n0 + Seq::new((s - 1) as nat, |k: int| permutation_name(style, 2, (k + 1) as nat)),
            decreases count - s,
        {
            let name = permutation_name_text(style, 2, s);
            let a = product_field(style, "permutation_eval_", s);
            let b = product_field(style, "permutation_last_", s - 1);
            let line = match style {
                Style::Aiken => concat(
                    &vec!["  let ", name.as_str(), " = mul(l_0, sub(", a.as_str(), ", ", b.as_str(), "))"],
                ),
                Style::Plinth => concat(&vec!["        !", name.as_str(), " = l0 * (", a.as_str(), " - ", b.as_str(), ")"]),
            };
            proof {
                reveal_with_fuel(concat_all, 8);
            }
            push_line(&mut head, line);
            push_line(&mut names, name);
            s = s + 1;
            assert(texts(head@) =~= h0 + Seq::new((s - 1) as nat, |k: int| link_line(style, (k + 1) as nat)));
            assert(texts(names@) =~= n0 + Seq::new(
                (s - 1) as nat,
                |k: int| permutation_name(style, 2, (k + 1) as nat),
            ));
        }
        let c = self.chunk_len();
        let len = self.permutation_columns.len();
        assert(c as nat == spec_chunk_len(*self));
        assert(c > 0) by (nonlinear_arith)
            requires
                c as nat == ((len + count - 1) / (count as int)) as nat,
                len > 0,
                count > 0,
        ;
        let ghost cols = self.permutation_columns@;
        let ghost all = chunks_from(cols, c as nat, 0);
        let ghost mut done: Seq<(nat, Seq<PermutationColumn>)> = Seq::empty();
        let mut set_lines: Vec<String> = Vec::new();
        let mut set_names: Vec<String> = Vec::new();
        let mut start: usize = 0;
        let mut si: usize = 0;
        assert(all =~= done + chunks_from(cols, c as nat, 0));
        assert(texts(set_lines@) =~= Seq::<Seq<char>>::empty());
        assert(texts(set_names@) =~= Seq::new(0, |k: int| permutation_name(style, 3, k as nat)));
        while start < len
            invariant
                start <= len,
                count == self.permutation_set_count,
                count > 0,
                len == cols.len(),
                cols == self.permutation_columns@,
                c > 0,
                c as nat == spec_chunk_len(*self),
                all == chunks_from(cols, c as nat, 0),
                all == done + chunks_from(cols, c as nat, start as nat),
                done.len() == si,
                si <= start,
                spec_set_lines(*self, style, done) == Ok::<Seq<Seq<char>>, ExpressionError>(texts(set_lines@)),
                texts(set_names@) == Seq::new(si as nat, |k: int| permutation_name(style, 3, k as nat)),
            decreases len - start,
        {
            let end = if c < len - start { start + c } else { len };
            let ghost chunk = (start as nat, cols.subrange(start as int, end as int));
            proof {
                assert(chunks_from(cols, c as nat, start as nat) =~= seq![chunk] + chunks_from(
                    cols,
                    c as nat,
                    (start + c) as nat,
                ));
                assert(all.take(si + 1) =~= done.push(chunk));
                assert(done.push(chunk).drop_last() =~= done);
            }
            let evals = match self.column_evals_in(style, start, end) {
                Ok(v) => v,
                Err(e) => {
                    proof {
                        assert(all.take(si + 1).drop_last() =~= done);
                        assert(all.take(si + 1).last() == chunk);
                        assert(spec_set_lines(*self, style, all.take(si + 1)) == Err::<Seq<Seq<char>>, ExpressionError>(
                            e,
                        ));
                        lemma_set_lines_error_stays(*self, style, all, si + 1);
                    }
                    return Err(e);
                },
            };
            let line = self.set_line_text(style, si, start, &evals);
            push_line(&mut set_lines, line);
            push_line(&mut set_names, permutation_name_text(style, 3, si));
            proof {
                assert(all =~= done.push(chunk) + chunks_from(cols, c as nat, (start + c) as nat));
                done = done.push(chunk);
                if end == len {
                    assert(chunks_from(cols, c as nat, (start + c) as nat) =~= chunks_from(cols, c as nat, len as nat));
                }
            }
            start = end;
            si = si + 1;
            assert(texts(set_names@) =~= Seq::new(si as nat, |k: int| permutation_name(style, 3, k as nat)));
        }
        assert(chunks_from(cols, c as nat, start as nat) =~= Seq::<(nat, Seq<PermutationColumn>)>::empty());
        assert(all =~= done);
        push_lines(&mut head, set_lines);
        push_lines(&mut names, set_names);
        push_lines(lines, head);
        push_lines(terms, names);
        Ok(())
    }

    /// Appends the permutation's constraints in Aiken.
    pub fn aiken_permutation_terms(&self, lines: &mut Vec<String>, terms: &mut Vec<String>) -> (r: Result<
        (),
        ExpressionError,
    >)
        requires
            self.permutation_set_count == 0 || self.permutation_columns@.len() > 0,
        ensures
            match spec_permutation_terms(*self, Style::Aiken) {
                Ok(pt) => r is Ok && texts(final(lines)@) == texts(old(lines)@) + pt.0 && texts(final(terms)@)
                    == texts(old(terms)@) + pt.1,
                Err(e) => r == Err::<(), ExpressionError>(e) && final(lines)@ == old(lines)@ && final(terms)@
                    == old(terms)@,
            },
    {
        self.permutation_terms_in(Style::Aiken, lines, terms)
    }

    /// Appends the permutation's constraints in Plinth.
    pub fn plinth_permutation_terms(&self, lines: &mut Vec<String>, terms: &mut Vec<String>) -> (r: Result<
        (),
        ExpressionError,
    >)
        requires
            self.permutation_set_count == 0 || self.permutation_columns@.len() > 0,
        ensures
            match spec_permutation_terms(*self, Style::Plinth) {
                Ok(pt) => r is Ok && texts(final(lines)@) == texts(old(lines)@) + pt.0 && texts(final(terms)@)
                    == texts(old(terms)@) + pt.1,
                Err(e) => r == Err::<(), ExpressionError>(e) && final(lines)@ == old(lines)@ && final(terms)@
                    == old(terms)@,
            },
    {
        self.permutation_terms_in(Style::Plinth, lines, terms)
    }
}

/// The texts of the gates' polynomials, gate after gate, or the first
/// error.
pub open spec fn spec_gate_texts(l: AxiomLayout, style: Style, gates: Seq<Vec<GateExpression>>) -> Result<
    Seq<Seq<char>>,
    ExpressionError,
>
    decreases gates.len(),
{
    if gates.len() == 0 {
        Ok(Seq::empty())
    } else {
        match spec_gate_texts(l, style, gates.drop_last()) {
            Err(e) => Err(e),
            Ok(prev) => match spec_expressions(l, style, gates.last()@) {
                Err(e) => Err(e),
                Ok(ts) => Ok(prev + ts),
            },
        }
    }
}

proof fn lemma_gate_texts_error_stays(l: AxiomLayout, style: Style, gates: Seq<Vec<GateExpression>>, p: int)
    requires
        0 <= p <= gates.len(),
        spec_gate_texts(l, style, gates.take(p)) is Err,
    ensures
        spec_gate_texts(l, style, gates) == spec_gate_texts(l, style, gates.take(p)),
    decreases gates.len() - p,
{
    if p < gates.len() {
        assert(gates.take(p + 1).drop_last() =~= gates.take(p));
        lemma_gate_texts_error_stays(l, style, gates, p + 1);
    } else {
        assert(gates.take(p) =~= gates);
    }
}

/// The name of the `i`-th gate polynomial.
pub open spec fn gate_name(style: Style, i: nat) -> Seq<char> {
    match style {
        Style::Aiken => indexed("gate_"@, i),
        Style::Plinth => indexed("gate"@, i),
    }
}

/// The line binding the `i`-th gate polynomial.
pub open spec fn gate_line(style: Style, i: nat, t: Seq<char>) -> Seq<char> {
    match style {
        Style::Aiken => "  let "@ + gate_name(style, i) + " = "@ + t,
        Style::Plinth => "        !"@ + gate_name(style, i) + " = "@ + t,
    }
}

/// The `i`-th gate polynomial is bound to the name of its index in both
/// languages (`gate_i`, `gatei`), to the text of that polynomial.
pub proof fn lemma_gate_lines(i: nat, t: Seq<char>)
    ensures
        gate_name(Style::Aiken, i) == "gate_"@ + decimal(i),
        gate_name(Style::Plinth, i) == "gate"@ + decimal(i),
        gate_line(Style::Aiken, i, t) == "  let "@ + ("gate_"@ + decimal(i)) + " = "@ + t,
        gate_line(Style::Plinth, i, t) == "        !"@ + ("gate"@ + decimal(i)) + " = "@ + t,
{
}

/// Both languages accept the same gates, and refuse the others for the
/// same reason.
pub proof fn lemma_gate_texts(l: AxiomLayout, gates: Seq<Vec<GateExpression>>)
    ensures
        spec_gate_texts(l, Style::Aiken, gates) is Ok <==> spec_gate_texts(l, Style::Plinth, gates) is Ok,
        spec_gate_texts(l, Style::Aiken, gates) is Err ==> spec_gate_texts(l, Style::Plinth, gates)
            == spec_gate_texts(l, Style::Aiken, gates),
    decreases gates.len(),
{
    if gates.len() > 0 {
        lemma_gate_texts(l, gates.drop_last());
        lemma_expressions_styles(l, gates.last()@);
    }
}

/// The Lagrange prelude, in a style.
pub open spec fn prelude_in(style: Style, blinding_factors: nat) -> Seq<Seq<char>> {
    match style {
        Style::Aiken => spec_aiken_lagrange_prelude(blinding_factors),
        Style::Plinth => spec_plinth_lagrange_prelude(blinding_factors),
    }
}

/// The folding lines, in a style.
pub open spec fn folded_in(style: Style, terms: Seq<Seq<char>>) -> Seq<Seq<char>> {
    match style {
        Style::Aiken => spec_aiken_folded(terms),
        Style::Plinth => spec_plinth_folded(terms),
    }
}

/// The expected evaluation of the vanishing polynomial, in a style: the
/// Lagrange prelude, one binding per gate polynomial, the permutation's and
/// the lookups' constraints, then all of them folded; or the first
/// constraint the proof cannot evaluate, gates before the permutation
/// before the lookups.
pub open spec fn spec_expected_h_eval(l: AxiomLayout, style: Style, cs: AxiomConstraintSystem) -> Result<
    Seq<char>,
    ExpressionError,
> {
    match spec_gate_texts(l, style, cs.gates@) {
        Err(e) => Err(e),
        Ok(gt) => match spec_permutation_terms(l, style) {
            Err(e) => Err(e),
            Ok(pt) => match spec_lookup_terms(l, style, cs.lookups@) {
                Err(e) => Err(e),
                Ok(lt) => Ok(
                    join(
                        prelude_in(style, l.blinding_factors as nat) + Seq::new(
                            gt.len(),
                            |i: int| gate_line(style, i as nat, gt[i]),
                        ) + pt.0 + lt.0 + folded_in(
                            style,
                            Seq::new(gt.len(), |i: int| gate_name(style, i as nat)) + pt.1 + lt.1,
                        ),
                        "\n"@,
                    ),
                ),
            },
        },
    }
}

impl AxiomLayout {
    fn gate_texts_in(&self, style: Style, cs: &AxiomConstraintSystem) -> (r: Result<Vec<String>, ExpressionError>)
        ensures
            match spec_gate_texts(*self, style, cs.gates@) {
                Ok(ts) => r matches Ok(v) && texts(v@) == ts,
                Err(e) => r == Err::<Vec<String>, ExpressionError>(e),
            },
    {
        let mut out: Vec<String> = Vec::new();
        let n = cs.gates.len();
        let mut g: usize = 0;
        assert(cs.gates@.take(0) =~= Seq::<Vec<GateExpression>>::empty());
        assert(texts(out@) =~= Seq::<Seq<char>>::empty());
        while g < n
            invariant
                g <= n,
                n == cs.gates@.len(),
                spec_gate_texts(*self, style, cs.gates@.take(g as int)) == Ok::<Seq<Seq<char>>, ExpressionError>(
                    texts(out@),
                ),
            decreases n - g,
        {
            proof {
                assert(cs.gates@.take(g + 1).drop_last() =~= cs.gates@.take(g as int));
                assert(cs.gates@.take(g + 1).last() == cs.gates@[g as int]);
            }
            match self.expressions_in(style, &cs.gates[g]) {
                Ok(ts) => push_lines(&mut out, ts),
                Err(e) => {
                    proof {
                        lemma_gate_texts_error_stays(*self, style, cs.gates@, g + 1);
                    }
                    return Err(e);
                },
            }
            g = g + 1;
        }
        assert(cs.gates@.take(n as int) =~= cs.gates@);
        Ok(out)
    }

    /// The expected evaluation of the vanishing polynomial, in a style (the
    /// rotations of the blinding rows must fit in an `i32`, and with
    /// permutation sets there must be columns to chunk).
    pub fn expected_h_eval_in(&self, style: Style, cs: &AxiomConstraintSystem) -> (r: Result<String, ExpressionError>)
        requires
            self.blinding_factors < i32::MAX,
            self.permutation_set_count == 0 || self.permutation_columns@.len() > 0,
        ensures
            match spec_expected_h_eval(*self, style, *cs) {
                Ok(t) => r matches Ok(s) && s@ == t,
                Err(e) => r == Err::<String, ExpressionError>(e),
            },
    {
        let mut lines = match style {
            Style::Aiken => self.aiken_lagrange_prelude(),
            Style::Plinth => self.plinth_lagrange_prelude(),
        };
        let ghost pre = texts(lines@);
        let gt = match self.gate_texts_in(style, cs) {
            Ok(v) => v,
            Err(e) => return Err(e),
        };
        let ghost g = texts(gt@);
        let mut terms: Vec<String> = Vec::new();
        let n = gt.len();
        let mut i: usize = 0;
        while i < n
            invariant
                i <= n,
                n == gt@.len(),
                g == texts(gt@),
                texts(lines@) == pre + Seq::new(i as nat, |k: int| gate_line(style, k as nat, g[k])),
                texts(terms@) == Seq::new(i as nat, |k: int| gate_name(style, k as nat)),
            decreases n - i,
        {
            let name = match style {
                Style::Aiken => numbered("gate_", i),
                Style::Plinth => numbered("gate", i),
            };
            let mut line = match style {
                Style::Aiken => String::from_str("  let "),
                Style::Plinth => String::from_str("        !"),
            };
            line.append(name.as_str());
            line.append(" = ");
            line.append(gt[i].as_str());
            push_line(&mut lines, line);
            push_line(&mut terms, name);
            i = i + 1;
            assert(texts(lines@) =~= pre + Seq::new(i as nat, |k: int| gate_line(style, k as nat, g[k])));
            assert(texts(terms@) =~= Seq::new(i as nat, |k: int| gate_name(style, k as nat)));
        }
        let ghost l1 = texts(lines@);
        let ghost t1 = texts(terms@);
        match self.permutation_terms_in(style, &mut lines, &mut terms) {
            Ok(()) => {},
            Err(e) => return Err(e),
        }
        let ghost l2 = texts(lines@);
        let ghost t2 = texts(terms@);
        match self.lookup_terms_in(style, cs, &mut lines, &mut terms) {
            Ok(()) => {},
            Err(e) => return Err(e),
        }
        let folded = match style {
            Style::Aiken => aiken_folded_terms(&terms),
            Style::Plinth => plinth_folded_terms(&terms),
        };
        push_lines(&mut lines, folded);
        proof {
            let pt = spec_permutation_terms(*self, style)->Ok_0;
            let lt = spec_lookup_terms(*self, style, cs.lookups@)->Ok_0;
            assert(texts(lines@) =~= prelude_in(style, self.blinding_factors as nat) + Seq::new(
                g.len(),
                |k: int| gate_line(style, k as nat, g[k]),
            ) + pt.0 + lt.0 + folded_in(style, Seq::new(g.len(), |k: int| gate_name(style, k as nat)) + pt.1 + lt.1));
        }
        Ok(join_strings(&lines, "\n"))
    }

    /// The expected evaluation of the vanishing polynomial in Aiken.
    pub fn aiken_expected_h_eval(&self, cs: &AxiomConstraintSystem) -> (r: Result<String, ExpressionError>)
        requires
            self.blinding_factors < i32::MAX,
            self.permutation_set_count == 0 || self.permutation_columns@.len() > 0,
        ensures
            match spec_expected_h_eval(*self, Style::Aiken, *cs) {
                Ok(t) => r matches Ok(s) && s@ == t,
                Err(e) => r == Err::<String, ExpressionError>(e),
            },
    {
        self.expected_h_eval_in(Style::Aiken, cs)
    }

    /// The expected evaluation of the vanishing polynomial in Plinth.
    pub fn plinth_expected_h_eval(&self, cs: &AxiomConstraintSystem) -> (r: Result<String, ExpressionError>)
        requires
            self.blinding_factors < i32::MAX,
            self.permutation_set_count == 0 || self.permutation_columns@.len() > 0,
        ensures
            match spec_expected_h_eval(*self, Style::Plinth, *cs) {
                Ok(t) => r matches Ok(s) && s@ == t,
                Err(e) => r == Err::<String, ExpressionError>(e),
            },
    {
        self.expected_h_eval_in(Style::Plinth, cs)
    }
}

/// The error of an outcome, if any.
pub open spec fn error_of<T>(r: Result<T, ExpressionError>) -> Option<ExpressionError> {
    match r {
        Ok(_) => None,
        Err(e) => Some(e),
    }
}

proof fn lemma_expression_refusal(l: AxiomLayout, e: GateExpression)
    ensures
        error_of(spec_expression(l, Style::Aiken, e)) == error_of(spec_expression(l, Style::Plinth, e)),
    decreases e,
{
    match e {
        GateExpression::Negated(a) => lemma_expression_refusal(l, *a),
        GateExpression::Sum(a, b) => {
            lemma_expression_refusal(l, *a);
            lemma_expression_refusal(l, *b);
        },
        GateExpression::Product(a, b) => {
            lemma_expression_refusal(l, *a);
            lemma_expression_refusal(l, *b);
        },
        GateExpression::Scaled(a, _) => lemma_expression_refusal(l, *a),
        _ => {},
    }
}

proof fn lemma_expressions_refusal(l: AxiomLayout, es: Seq<GateExpression>)
    ensures
        error_of(spec_expressions(l, Style::Aiken, es)) == error_of(spec_expressions(l, Style::Plinth, es)),
    decreases es.len(),
{
    if es.len() > 0 {
        lemma_expressions_refusal(l, es.drop_last());
        lemma_expression_refusal(l, es.last());
    }
}

proof fn lemma_column_evals_refusal(l: AxiomLayout, cols: Seq<PermutationColumn>)
    ensures
        error_of(spec_column_evals(l, Style::Aiken, cols)) == error_of(spec_column_evals(l, Style::Plinth, cols)),
    decreases cols.len(),
{
    if cols.len() > 0 {
        lemma_column_evals_refusal(l, cols.drop_last());
    }
}

proof fn lemma_set_lines_refusal(l: AxiomLayout, chunks: Seq<(nat, Seq<PermutationColumn>)>)
    ensures
        error_of(spec_set_lines(l, Style::Aiken, chunks)) == error_of(spec_set_lines(l, Style::Plinth, chunks)),
    decreases chunks.len(),
{
    if chunks.len() > 0 {
        lemma_set_lines_refusal(l, chunks.drop_last());
        lemma_column_evals_refusal(l, chunks.last().1);
    }
}

proof fn lemma_lookup_terms_refusal(l: AxiomLayout, lookups: Seq<LookupArgument>)
    ensures
        error_of(spec_lookup_terms(l, Style::Aiken, lookups)) == error_of(spec_lookup_terms(l, Style::Plinth, lookups)),
    decreases lookups.len(),
{
    if lookups.len() > 0 {
        lemma_lookup_terms_refusal(l, lookups.drop_last());
        lemma_expressions_refusal(l, lookups.last().input@);
        lemma_expressions_refusal(l, lookups.last().table@);
    }
}

proof fn lemma_gate_texts_refusal(l: AxiomLayout, gates: Seq<Vec<GateExpression>>)
    ensures
        error_of(spec_gate_texts(l, Style::Aiken, gates)) == error_of(spec_gate_texts(l, Style::Plinth, gates)),
    decreases gates.len(),
{
    if gates.len() > 0 {
        lemma_gate_texts_refusal(l, gates.drop_last());
        lemma_expressions_refusal(l, gates.last()@);
    }
}

/// The Aiken and the Plinth verifiers refuse the same circuits, for the
/// same reason: whether a constraint can be evaluated from the proof does
/// not depend on the language it is written in.
pub proof fn lemma_styles_refuse_alike(l: AxiomLayout, cs: AxiomConstraintSystem)
    ensures
        error_of(spec_expected_h_eval(l, Style::Aiken, cs)) == error_of(spec_expected_h_eval(l, Style::Plinth, cs)),
{
    lemma_gate_texts_refusal(l, cs.gates@);
    lemma_set_lines_refusal(l, chunks_from(l.permutation_columns@, spec_chunk_len(l), 0));
    lemma_lookup_terms_refusal(l, cs.lookups@);
}

/// A copy of the lines.
pub fn copy_lines(v: &Vec<String>) -> (r: Vec<String>)
    ensures
        texts(r@) == texts(v@),
{
    let mut r: Vec<String> = Vec::new();
    let n = v.len();
    let mut i: usize = 0;
    while i < n
        invariant
            i <= n,
            n == v@.len(),
            texts(r@) == texts(v@).take(i as int),
        decreases n - i,
    {
        push_line(&mut r, v[i].clone());
        i = i + 1;
        assert(texts(r@) =~= texts(v@).take(i as int));
    }
    assert(texts(v@).take(n as int) =~= texts(v@));
    r
}

} // verus!
