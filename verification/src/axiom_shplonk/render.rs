//! The values the SHPLONK verifier templates are filled with, computed from
//! what the generator reads of the verifying key, the SRS and the proof.

use vstd::prelude::*;
use vstd::string::StringSliceAdditionalSpecFns;

use super::constraints::spec_expected_h_eval;
use super::expression::{ExpressionError, Style};
use super::items::spec_proof_items;
use super::layout::{
    AxiomConstraintSystem, AxiomLayout, ColumnKind, LayoutError, all_points, column_queries, commitment_order,
    count_openings, distinct_in_order, layout_error, lemma_rotation_sets_laws, sets_view, spec_opening_queries,
    spec_permutation_set_count, spec_query_sets, spec_rotation_sets,
};
use super::pairing::{spec_aiken_pairing_lines, spec_aiken_vanishing_h_msm, spec_plinth_pairing_lines, spec_plinth_vanishing_h_msm};
use super::proof_text::{
    aiken_fixed_commitments, aiken_permutation_commitments, plinth_fixed_commitments, plinth_permutation_commitments,
    spec_aiken_parse_proof, spec_constants, spec_plinth_parse_proof, spec_plinth_proof_fields,
};
use super::text::{join, spec_proof_fields, texts};
use super::openings::push_line;
use crate::extraction::text::{decimal, push_decimal};
use crate::hex_bytes::{
    all_hex, ascii_bytes, hex_encode, lemma_hex_round_trip, lemma_reverse_encoded, reverse_hex_bytes, spec_hex_decode,
    spec_hex_encode,
};
use crate::axiom_scalar_mul::entries_view;
use crate::template::{handlebars_strict_render, render_strict};

verus! {

/// The canonical little-endian bytes of the inverse of `n` in the scalar
/// field of BLS12-381.
pub uninterp spec fn bls_scalar_inverse_bytes(n: u64) -> Seq<u8>;

/// The order of the scalar field of BLS12-381.
pub open spec fn bls_scalar_modulus() -> nat {
    0x73eda753299d7d483339d80809a1d80553bda402fffe5bfeffffffff00000001nat
}

/// The number that little-endian bytes stand for.
pub open spec fn le_value(b: Seq<u8>) -> nat
    decreases b.len(),
{
    if b.len() == 0 {
        0
    } else {
        b[0] as nat + 256 * le_value(b.drop_first())
    }
}

/// `Fr::from(n).invert()` of halo2curves' BLS12-381 scalar field, as the 32
/// bytes of `to_bytes`: there is an inverse exactly when `n` is not zero
/// (the field's modulus is far above any `u64`), and its bytes are the
/// canonical little-endian form of the number below the modulus whose
/// product with `n` is 1 modulo the modulus.
#[verifier::external_body]
fn scalar_inverse(n: u64) -> (r: Option<Vec<u8>>)
    ensures
        r is Some <==> n != 0,
        r matches Some(v) ==> v@ == bls_scalar_inverse_bytes(n) && v@.len() == 32,
        r matches Some(v) ==> le_value(v@) < bls_scalar_modulus() && (le_value(v@) * n) % (bls_scalar_modulus() as int) == 1,
{
    let inverse = halo2_axiom::halo2curves::bls12_381::Fr::from(n).invert();
    match Option::<halo2_axiom::halo2curves::bls12_381::Fr>::from(inverse) {
        Some(f) => Some(f.to_bytes().to_vec()),
        None => None,
    }
}

/// What the generator reads of a verifying key and the SRS: the constraint
/// system, the domain size, and the canonical bytes of the scalars and the
/// compressed points it embeds.
#[derive(Debug)]
pub struct AxiomVerifierInputs {
    pub cs: AxiomConstraintSystem,
    /// Number of rows of the evaluation domain.
    pub n: u64,
    pub transcript_repr: Vec<u8>,
    pub omega: Vec<u8>,
    pub omega_inv: Vec<u8>,
    pub fixed_commitments: Vec<Vec<u8>>,
    pub permutation_commitments: Vec<Vec<u8>>,
    /// The SRS's `s` in G2.
    pub s_g2: Vec<u8>,
}

/// Why the templates' values could not be computed.
#[derive(Clone, Copy, Debug, PartialEq, Eq, Structural)]
pub enum RenderError {
    /// The constraint system is not supported.
    Layout(LayoutError),
    /// The evaluation domain is empty: its size has no inverse.
    ZeroDomain,
    /// A constraint the proof cannot evaluate.
    Expression(ExpressionError),
}

/// The values the templates are filled with, by placeholder.
#[derive(Debug)]
pub struct AxiomShplonkRenderData {
    pub data: Vec<(String, String)>,
}

/// The hexadecimal text of each byte string.
pub open spec fn hexes(v: Seq<Vec<u8>>) -> Seq<Seq<char>> {
    Seq::new(v.len(), |i: int| spec_hex_encode(v[i]@))
}

/// `l` is the layout of the constraint system.
pub open spec fn layout_of(cs: AxiomConstraintSystem, l: AxiomLayout) -> bool {
    &&& l.num_advice_columns == cs.num_advice_columns
    &&& l.quotient_poly_degree == cs.quotient_poly_degree
    &&& l.blinding_factors == cs.blinding_factors
    &&& l.permutation_columns@ == cs.permutation_columns@
    &&& l.permutation_set_count == spec_permutation_set_count(cs)
    &&& l.lookup_count == cs.lookups@.len()
    &&& l.advice_queries@ == column_queries(ColumnKind::Advice, cs.advice_queries@)
    &&& l.fixed_queries@ == column_queries(ColumnKind::Fixed, cs.fixed_queries@)
    &&& sets_view(l.query_sets@) == spec_query_sets(cs)
    &&& l.super_points@ == distinct_in_order(all_points(spec_query_sets(cs)))
}

/// The sizes, constants, SRS point and proof, by placeholder.
pub open spec fn spec_head_entries(l: AxiomLayout, inputs: AxiomVerifierInputs, proof: Seq<u8>) -> Seq<
    (Seq<char>, Seq<char>),
> {
    seq![
        ("N"@, decimal(inputs.n as nat)),
        ("BLINDING_FACTORS"@, decimal(l.blinding_factors as nat)),
        ("TRANSCRIPT_REP"@, spec_hex_encode(inputs.transcript_repr@)),
        ("OMEGA"@, spec_hex_encode(inputs.omega@)),
        ("OMEGA_INV"@, spec_hex_encode(inputs.omega_inv@)),
        ("BARYCENTRIC_WEIGHT"@, spec_hex_encode(bls_scalar_inverse_bytes(inputs.n))),
        ("S_G2_CARDANO"@, spec_hex_encode(inputs.s_g2@.reverse())),
        ("PROOF_HEX"@, spec_hex_encode(proof)),
    ]
}

/// The pieces of the Aiken verifier, by placeholder.
pub open spec fn spec_aiken_entries(l: AxiomLayout, inputs: AxiomVerifierInputs, aiken_h: Seq<char>) -> Seq<
    (Seq<char>, Seq<char>),
> {
    let items = spec_proof_items(l);
    seq![
        (
            "AIKEN_FIXED_COMMITMENTS"@,
            spec_constants(hexes(inputs.fixed_commitments@), "const fixed_"@, " =\n  #\""@, false, ""@, "\""@),
        ),
        (
            "AIKEN_PERMUTATION_COMMITMENTS"@,
            spec_constants(
                hexes(inputs.permutation_commitments@),
                "const permutation_common_"@,
                " =\n  #\""@,
                false,
                ""@,
                "\""@,
            ),
        ),
        ("AIKEN_PROOF_FIELDS"@, spec_proof_fields(items, "  "@, "ByteArray"@, "State<Scalar>"@)),
        ("AIKEN_PARSE_PROOF"@, spec_aiken_parse_proof(items)),
        ("AIKEN_EXPECTED_H_EVAL"@, aiken_h),
        ("AIKEN_SHPLONK_PAIRING_CHECK"@, join(spec_aiken_pairing_lines(sets_view(l.query_sets@), l.super_points@), "\n"@)),
        ("AIKEN_VANISHING_H_MSM"@, spec_aiken_vanishing_h_msm(l.quotient_poly_degree as nat)),
    ]
}

/// The pieces of the Plinth verifier, by placeholder.
pub open spec fn spec_plinth_entries(l: AxiomLayout, inputs: AxiomVerifierInputs, plinth_h: Seq<char>) -> Seq<
    (Seq<char>, Seq<char>),
> {
    let items = spec_proof_items(l);
    seq![
        (
            "PLINTH_FIXED_COMMITMENTS"@,
            spec_constants(
                hexes(inputs.fixed_commitments@),
                "fixed"@,
                " :: RawPoint\nfixed"@,
                true,
                " = stringToBuiltinByteStringHex \""@,
                "\""@,
            ),
        ),
        (
            "PLINTH_PERMUTATION_COMMITMENTS"@,
            spec_constants(
                hexes(inputs.permutation_commitments@),
                "permutationCommon"@,
                " :: RawPoint\npermutationCommon"@,
                true,
                " = stringToBuiltinByteStringHex \""@,
                "\""@,
            ),
        ),
        ("PLINTH_PROOF_FIELDS"@, spec_plinth_proof_fields(items)),
        ("PLINTH_PARSE_PROOF"@, spec_plinth_parse_proof(items)),
        ("PLINTH_EXPECTED_H_EVAL"@, plinth_h),
        ("PLINTH_SHPLONK_PAIRING_CHECK"@, join(spec_plinth_pairing_lines(sets_view(l.query_sets@), l.super_points@), "\n"@)),
        ("PLINTH_VANISHING_H_MSM"@, spec_plinth_vanishing_h_msm(l.quotient_poly_degree as nat)),
    ]
}

/// The placeholders and their values, given the layout and the texts of the
/// expected vanishing evaluations: the sizes and constants, then the Aiken
/// pieces, then the Plinth pieces.
pub open spec fn spec_render_entries(
    l: AxiomLayout,
    inputs: AxiomVerifierInputs,
    proof: Seq<u8>,
    aiken_h: Seq<char>,
    plinth_h: Seq<char>,
) -> Seq<(Seq<char>, Seq<char>)> {
    spec_head_entries(l, inputs, proof) + spec_aiken_entries(l, inputs, aiken_h) + spec_plinth_entries(l, inputs, plinth_h)
}

/// What filling the templates gives for a layout of the constraint system:
/// an empty domain is refused, then a constraint the Aiken verifier cannot
/// evaluate, then one the Plinth verifier cannot.
pub open spec fn spec_render(l: AxiomLayout, inputs: AxiomVerifierInputs, proof: Seq<u8>) -> Result<
    Seq<(Seq<char>, Seq<char>)>,
    RenderError,
> {
    if inputs.n == 0 {
        Err(RenderError::ZeroDomain)
    } else {
        match spec_expected_h_eval(l, Style::Aiken, inputs.cs) {
            Err(e) => Err(RenderError::Expression(e)),
            Ok(a) => match spec_expected_h_eval(l, Style::Plinth, inputs.cs) {
                Err(e) => Err(RenderError::Expression(e)),
                Ok(p) => Ok(spec_render_entries(l, inputs, proof, a, p)),
            },
        }
    }
}

/// The outcome `r` is the one `o` describes.
pub open spec fn render_matches(r: Result<AxiomShplonkRenderData, RenderError>, o: Result<
    Seq<(Seq<char>, Seq<char>)>,
    RenderError,
>) -> bool {
    match o {
        Ok(es) => r matches Ok(d) && entries_view(d.data@) == es,
        Err(e) => r == Err::<AxiomShplonkRenderData, RenderError>(e),
    }
}


/// A supported constraint system has at least one rotation set: the
/// vanishing polynomial is always opened.
pub proof fn lemma_query_sets_not_empty(cs: AxiomConstraintSystem)
    ensures
        spec_query_sets(cs).len() > 0,
{
    let qs = spec_opening_queries(
        column_queries(ColumnKind::Advice, cs.advice_queries@),
        column_queries(ColumnKind::Fixed, cs.fixed_queries@),
        cs.permutation_columns@.len() as nat,
        spec_permutation_set_count(cs),
        cs.lookups@.len(),
        cs.blinding_factors as nat,
    );
    assert(qs.len() > 0);
    let r = commitment_order(qs.drop_last());
    if r.contains(qs.last().0) {
        assert(r.len() > 0);
    }
    assert(commitment_order(qs).len() > 0);
    lemma_rotation_sets_laws(qs);
    if spec_rotation_sets(qs).len() == 0 {
        assert(count_openings(spec_rotation_sets(qs)) == 0);
    }
}

fn hex_texts(v: &Vec<Vec<u8>>) -> (r: Vec<String>)
    ensures
        texts(r@) == hexes(v@),
{
    let mut r: Vec<String> = Vec::new();
    let n = v.len();
    let mut i: usize = 0;
    while i < n
        invariant
            i <= n,
            n == v@.len(),
            texts(r@) == hexes(v@).take(i as int),
        decreases n - i,
    {
        push_line(&mut r, hex_encode(&v[i]));
        i = i + 1;
        assert(texts(r@) =~= hexes(v@).take(i as int));
    }
    assert(hexes(v@).take(n as int) =~= hexes(v@));
    r
}

fn push_entry(out: &mut Vec<(String, String)>, key: &str, value: String)
    ensures
        entries_view(final(out)@) == entries_view(old(out)@).push((key@, value@)),
{
    out.push((String::from_str(key), value));
    assert(entries_view(out@) =~= entries_view(old(out)@).push((key@, value@)));
}

fn push_head_entries(
    data: &mut Vec<(String, String)>,
    layout: &AxiomLayout,
    inputs: &AxiomVerifierInputs,
    proof: &Vec<u8>,
    weight: &Vec<u8>,
    s_g2_cardano: String,
)
    requires
        weight@ == bls_scalar_inverse_bytes(inputs.n),
        s_g2_cardano@ == spec_hex_encode(inputs.s_g2@.reverse()),
    ensures
        entries_view(final(data)@) == entries_view(old(data)@) + spec_head_entries(*layout, *inputs, proof@),
{
    let ghost start = entries_view(data@);
    let mut n = String::new();
    push_decimal(&mut n, inputs.n);
    push_entry(data, "N", n);
    let mut bf = String::new();
    push_decimal(&mut bf, layout.blinding_factors as u64);
    push_entry(data, "BLINDING_FACTORS", bf);
    push_entry(data, "TRANSCRIPT_REP", hex_encode(&inputs.transcript_repr));
    push_entry(data, "OMEGA", hex_encode(&inputs.omega));
    push_entry(data, "OMEGA_INV", hex_encode(&inputs.omega_inv));
    push_entry(data, "BARYCENTRIC_WEIGHT", hex_encode(weight));
    push_entry(data, "S_G2_CARDANO", s_g2_cardano);
    push_entry(data, "PROOF_HEX", hex_encode(proof));
    assert(entries_view(data@) =~= start + spec_head_entries(*layout, *inputs, proof@));
}

fn push_aiken_entries(
    data: &mut Vec<(String, String)>,
    layout: &AxiomLayout,
    inputs: &AxiomVerifierInputs,
    fixed: &Vec<String>,
    perm: &Vec<String>,
    aiken_h: String,
)
    requires
        texts(fixed@) == hexes(inputs.fixed_commitments@),
        texts(perm@) == hexes(inputs.permutation_commitments@),
        layout.query_sets@.len() > 0,
    ensures
        entries_view(final(data)@) == entries_view(old(data)@) + spec_aiken_entries(*layout, *inputs, aiken_h@),
{
    let ghost start = entries_view(data@);
    push_entry(data, "AIKEN_FIXED_COMMITMENTS", aiken_fixed_commitments(fixed));
    push_entry(data, "AIKEN_PERMUTATION_COMMITMENTS", aiken_permutation_commitments(perm));
    push_entry(data, "AIKEN_PROOF_FIELDS", layout.aiken_proof_fields());
    push_entry(data, "AIKEN_PARSE_PROOF", layout.aiken_parse_proof());
    push_entry(data, "AIKEN_EXPECTED_H_EVAL", aiken_h);
    push_entry(data, "AIKEN_SHPLONK_PAIRING_CHECK", layout.aiken_shplonk_pairing_check());
    push_entry(data, "AIKEN_VANISHING_H_MSM", layout.aiken_vanishing_h_msm());
    assert(entries_view(data@) =~= start + spec_aiken_entries(*layout, *inputs, aiken_h@));
}

fn push_plinth_entries(
    data: &mut Vec<(String, String)>,
    layout: &AxiomLayout,
    inputs: &AxiomVerifierInputs,
    fixed: &Vec<String>,
    perm: &Vec<String>,
    plinth_h: String,
)
    requires
        texts(fixed@) == hexes(inputs.fixed_commitments@),
        texts(perm@) == hexes(inputs.permutation_commitments@),
        layout.query_sets@.len() > 0,
    ensures
        entries_view(final(data)@) == entries_view(old(data)@) + spec_plinth_entries(*layout, *inputs, plinth_h@),
{
    let ghost start = entries_view(data@);
    push_entry(data, "PLINTH_FIXED_COMMITMENTS", plinth_fixed_commitments(fixed));
    push_entry(data, "PLINTH_PERMUTATION_COMMITMENTS", plinth_permutation_commitments(perm));
    push_entry(data, "PLINTH_PROOF_FIELDS", layout.plinth_proof_fields());
    push_entry(data, "PLINTH_PARSE_PROOF", layout.plinth_parse_proof());
    push_entry(data, "PLINTH_EXPECTED_H_EVAL", plinth_h);
    push_entry(data, "PLINTH_SHPLONK_PAIRING_CHECK", layout.plinth_shplonk_pairing_check());
    push_entry(data, "PLINTH_VANISHING_H_MSM", layout.plinth_vanishing_h_msm());
    assert(entries_view(data@) =~= start + spec_plinth_entries(*layout, *inputs, plinth_h@));
}

impl AxiomShplonkRenderData {
    /// The templates' values for a verifying key and a proof: an error when
    /// the constraint system is not supported, the domain is empty, or a
    /// constraint cannot be evaluated from the proof, in that order.
    pub fn from_vk_and_proof(inputs: &AxiomVerifierInputs, proof: &Vec<u8>) -> (r: Result<
        AxiomShplonkRenderData,
        RenderError,
    >)
        requires
            inputs.cs.blinding_factors < i32::MAX,
        ensures
            match layout_error(inputs.cs) {
                Some(e) => r == Err::<AxiomShplonkRenderData, RenderError>(RenderError::Layout(e)),
                None => exists|l: AxiomLayout|
                    layout_of(inputs.cs, l) && render_matches(r, #[trigger] spec_render(l, *inputs, proof@)),
            },
    {
        let layout = match AxiomLayout::from_vk(&inputs.cs) {
            Ok(l) => l,
            Err(e) => return Err(RenderError::Layout(e)),
        };
        proof {
            lemma_query_sets_not_empty(inputs.cs);
            let len = layout.permutation_columns@.len();
            let c = (inputs.cs.degree - 2) as nat;
            if len == 0 {
                assert(((len + c - 1) / c as int) == 0) by (nonlinear_arith)
                    requires
                        len == 0,
                        c > 0,
                ;
            }
        }
        let ghost l = layout;
        let weight = match scalar_inverse(inputs.n) {
            Some(w) => w,
            None => {
                proof {
                    assert(layout_of(inputs.cs, l));
                    assert(render_matches(
                        Err::<AxiomShplonkRenderData, RenderError>(RenderError::ZeroDomain),
                        spec_render(l, *inputs, proof@),
                    ));
                }
                return Err(RenderError::ZeroDomain);
            },
        };
        let fixed = hex_texts(&inputs.fixed_commitments);
        let perm = hex_texts(&inputs.permutation_commitments);
        let g2 = hex_encode(&inputs.s_g2);
        proof {
            lemma_reverse_encoded(inputs.s_g2@);
        }
        let s_g2_cardano = match reverse_hex_bytes(g2.as_str()) {
            Ok(s) => s,
            Err(_) => String::new(),
        };
        let aiken_h = match layout.aiken_expected_h_eval(&inputs.cs) {
            Ok(t) => t,
            Err(e) => {
                proof {
                    assert(layout_of(inputs.cs, l));
                    assert(render_matches(
                        Err::<AxiomShplonkRenderData, RenderError>(RenderError::Expression(e)),
                        spec_render(l, *inputs, proof@),
                    ));
                }
                return Err(RenderError::Expression(e));
            },
        };
        let plinth_h = match layout.plinth_expected_h_eval(&inputs.cs) {
            Ok(t) => t,
            Err(e) => {
                proof {
                    assert(layout_of(inputs.cs, l));
                    assert(render_matches(
                        Err::<AxiomShplonkRenderData, RenderError>(RenderError::Expression(e)),
                        spec_render(l, *inputs, proof@),
                    ));
                }
                return Err(RenderError::Expression(e));
            },
        };
        let mut data: Vec<(String, String)> = Vec::new();
        push_head_entries(&mut data, &layout, inputs, proof, &weight, s_g2_cardano);
        push_aiken_entries(&mut data, &layout, inputs, &fixed, &perm, aiken_h);
        push_plinth_entries(&mut data, &layout, inputs, &fixed, &perm, plinth_h);
        let r = AxiomShplonkRenderData { data };
        proof {
            assert(entries_view(r.data@) == spec_render_entries(l, *inputs, proof@, aiken_h@, plinth_h@));
            assert(layout_of(inputs.cs, l));
            assert(render_matches(Ok::<AxiomShplonkRenderData, RenderError>(r), spec_render(l, *inputs, proof@)));
        }
        Ok(r)
    }
}

/// A template filled with the rendered values (Handlebars, strict mode);
/// `None` exactly when the template cannot be rendered with them.
pub fn render_shplonk_template(d: &AxiomShplonkRenderData, template: &str) -> (r: Option<String>)
    ensures
        r is Some <==> handlebars_strict_render(template@, entries_view(d.data@)) is Some,
        r matches Some(s) ==> handlebars_strict_render(template@, entries_view(d.data@)) == Some(s@),
{
    render_strict(template, &d.data)
}

} // verus!
