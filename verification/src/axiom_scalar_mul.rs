//! The Axiom scalar-multiplication fixture: the only shape the verifier
//! templates are written for, and the values the templates are filled with.

use vstd::prelude::*;
use vstd::utf8::encode_utf8;

use crate::extraction::text::{decimal, push_decimal};
use crate::template::{handlebars_strict_render, render_strict};
use crate::hex_bytes::{ReverseHexError, all_hex, reverse_hex_bytes, spec_hex_decode, spec_hex_encode};

verus! {

/// A query of a column at a rotation.
#[derive(Clone, Copy, Debug, PartialEq, Eq, Structural)]
pub struct ColumnRotation {
    pub column: usize,
    pub rotation: i32,
}

/// A column taking part in the permutation, by kind ("fixed", "advice").
#[derive(Clone, Debug)]
pub struct PermutationColumn {
    pub column_type: String,
    pub column: usize,
}

/// A query of a column of a given kind at a rotation.
#[derive(Clone, Debug)]
pub struct TypedColumnRotation {
    pub column_type: String,
    pub column: usize,
    pub rotation: i32,
}

/// The lookup: one input query and one table query.
#[derive(Clone, Debug)]
pub struct LookupShape {
    pub input: TypedColumnRotation,
    pub table: TypedColumnRotation,
}

/// The circuit shape recorded in the fixture.
#[derive(Clone, Debug)]
pub struct AxiomScalarMulShape {
    pub num_fixed_columns: usize,
    pub num_advice_columns: usize,
    pub num_instance_columns: usize,
    pub advice_queries: Vec<ColumnRotation>,
    pub fixed_queries: Vec<ColumnRotation>,
    pub permutation_columns: Vec<PermutationColumn>,
    pub lookup: LookupShape,
}

/// The scalar-multiplication fixture exported by the prover side.
#[derive(Clone, Debug)]
pub struct AxiomScalarMulFixture {
    pub backend: String,
    pub curve: String,
    pub pcs: String,
    pub transcript: String,
    pub proof_hex: String,
    pub n: u64,
    pub k: u32,
    pub quotient_poly_degree: usize,
    pub blinding_factors: usize,
    pub omega: String,
    pub omega_inv: String,
    pub barycentric_weight: String,
    pub transcript_repr: String,
    pub s_g2: String,
    pub fixed_commitments: Vec<String>,
    pub permutation_commitments: Vec<String>,
    pub shape: AxiomScalarMulShape,
}

/// Why a fixture is not one the templates are written for.
#[derive(Clone, Debug)]
pub enum FixtureError {
    UnsupportedBackend(String),
    UnsupportedCurve(String),
    UnsupportedPcs(String),
    UnsupportedTranscript(String),
    UnsupportedK(u32),
    UnsupportedN(u64),
    UnsupportedQuotientDegree(usize),
    UnsupportedBlindingFactors(usize),
    FixedCommitments(usize),
    PermutationCommitments(usize),
    FixedColumns(usize),
    AdviceColumns(usize),
    InstanceColumns(usize),
    AdviceQueryShape,
    FixedQueryShape,
    PermutationColumnShape,
    LookupQueryShape,
}

impl FixtureError {
    /// The message that explains the error.
    pub open spec fn spec_message(self) -> Seq<char> {
        match self {
            FixtureError::UnsupportedBackend(b) => "unsupported Axiom backend "@ + b@,
            FixtureError::UnsupportedCurve(c) => "unsupported curve "@ + c@,
            FixtureError::UnsupportedPcs(p) => "unsupported PCS "@ + p@,
            FixtureError::UnsupportedTranscript(t) => "unsupported transcript "@ + t@,
            FixtureError::UnsupportedK(k) => "unsupported scalar-mul fixture k "@ + decimal(k as nat),
            FixtureError::UnsupportedN(n) => "unsupported scalar-mul fixture n "@ + decimal(n as nat),
            FixtureError::UnsupportedQuotientDegree(d) => "unsupported quotient polynomial degree "@ + decimal(
                d as nat,
            ),
            FixtureError::UnsupportedBlindingFactors(b) => "unsupported blinding factors "@ + decimal(b as nat),
            FixtureError::FixedCommitments(n) => "expected 4 fixed commitments, got "@ + decimal(n as nat),
            FixtureError::PermutationCommitments(n) => "expected 4 permutation commitments, got "@ + decimal(
                n as nat,
            ),
            FixtureError::FixedColumns(n) => "expected 4 fixed columns, got "@ + decimal(n as nat),
            FixtureError::AdviceColumns(n) => "expected 3 advice columns, got "@ + decimal(n as nat),
            FixtureError::InstanceColumns(n) => "expected no instance columns, got "@ + decimal(n as nat),
            FixtureError::AdviceQueryShape => "unsupported advice query shape"@,
            FixtureError::FixedQueryShape => "unsupported fixed query shape"@,
            FixtureError::PermutationColumnShape => "unsupported permutation column shape"@,
            FixtureError::LookupQueryShape => "unsupported lookup shape"@,
        }
    }

    /// The message that explains the error.
    pub fn message(&self) -> (s: String)
        ensures
            s@ == self.spec_message(),
    {
        let mut s = String::new();
        match self {
            FixtureError::UnsupportedBackend(b) => {
                s.append("unsupported Axiom backend ");
                s.append(b.as_str());
            },
            FixtureError::UnsupportedCurve(c) => {
                s.append("unsupported curve ");
                s.append(c.as_str());
            },
            FixtureError::UnsupportedPcs(p) => {
                s.append("unsupported PCS ");
                s.append(p.as_str());
            },
            FixtureError::UnsupportedTranscript(t) => {
                s.append("unsupported transcript ");
                s.append(t.as_str());
            },
            FixtureError::UnsupportedK(k) => {
                s.append("unsupported scalar-mul fixture k ");
                push_decimal(&mut s, *k as u64);
            },
            FixtureError::UnsupportedN(n) => {
                s.append("unsupported scalar-mul fixture n ");
                push_decimal(&mut s, *n);
            },
            FixtureError::UnsupportedQuotientDegree(d) => {
                s.append("unsupported quotient polynomial degree ");
                push_decimal(&mut s, *d as u64);
            },
            FixtureError::UnsupportedBlindingFactors(b) => {
                s.append("unsupported blinding factors ");
                push_decimal(&mut s, *b as u64);
            },
            FixtureError::FixedCommitments(n) => {
                s.append("expected 4 fixed commitments, got ");
                push_decimal(&mut s, *n as u64);
            },
            FixtureError::PermutationCommitments(n) => {
                s.append("expected 4 permutation commitments, got ");
                push_decimal(&mut s, *n as u64);
            },
            FixtureError::FixedColumns(n) => {
                s.append("expected 4 fixed columns, got ");
                push_decimal(&mut s, *n as u64);
            },
            FixtureError::AdviceColumns(n) => {
                s.append("expected 3 advice columns, got ");
                push_decimal(&mut s, *n as u64);
            },
            FixtureError::InstanceColumns(n) => {
                s.append("expected no instance columns, got ");
                push_decimal(&mut s, *n as u64);
            },
            FixtureError::AdviceQueryShape => {
                s.append("unsupported advice query shape");
            },
            FixtureError::FixedQueryShape => {
                s.append("unsupported fixed query shape");
            },
            FixtureError::PermutationColumnShape => {
                s.append("unsupported permutation column shape");
            },
            FixtureError::LookupQueryShape => {
                s.append("unsupported lookup shape");
            },
        }
        s
    }
}

pub open spec fn cr(column: usize, rotation: i32) -> ColumnRotation {
    ColumnRotation { column, rotation }
}

/// The advice queries the templates are written for.
pub open spec fn expected_advice_queries() -> Seq<ColumnRotation> {
    seq![cr(0, 0), cr(0, 1), cr(0, 2), cr(0, 3), cr(1, 0), cr(1, 1), cr(1, 2), cr(1, 3), cr(2, 0)]
}

/// The fixed queries the templates are written for.
pub open spec fn expected_fixed_queries() -> Seq<ColumnRotation> {
    seq![cr(1, 0), cr(0, 0), cr(2, 0), cr(3, 0)]
}

/// The permutation columns, by kind and index.
pub open spec fn permutation_view(v: Seq<PermutationColumn>) -> Seq<(Seq<char>, usize)> {
    Seq::new(v.len(), |i: int| (v[i].column_type@, v[i].column))
}

/// The permutation columns the templates are written for.
pub open spec fn expected_permutation() -> Seq<(Seq<char>, usize)> {
    seq![("fixed"@, 1usize), ("advice"@, 0usize), ("advice"@, 1usize), ("advice"@, 2usize)]
}

/// A typed query by kind, index and rotation.
pub open spec fn typed_view(t: TypedColumnRotation) -> (Seq<char>, usize, i32) {
    (t.column_type@, t.column, t.rotation)
}

/// The lookup the templates are written for: advice column 2 into fixed
/// column 0, both at the current row.
pub open spec fn lookup_ok(l: LookupShape) -> bool {
    typed_view(l.input) == ("advice"@, 2usize, 0i32) && typed_view(l.table) == ("fixed"@, 0usize, 0i32)
}

/// The text starts with the prefix.
pub open spec fn has_prefix(s: Seq<char>, p: Seq<char>) -> bool {
    p.len() <= s.len() && s.subrange(0, p.len() as int) == p
}

/// The first shape condition that fails, if any.
pub open spec fn shape_error(s: AxiomScalarMulShape) -> Option<FixtureError> {
    if s.num_fixed_columns != 4 {
        Some(FixtureError::FixedColumns(s.num_fixed_columns))
    } else if s.num_advice_columns != 3 {
        Some(FixtureError::AdviceColumns(s.num_advice_columns))
    } else if s.num_instance_columns != 0 {
        Some(FixtureError::InstanceColumns(s.num_instance_columns))
    } else if s.advice_queries@ != expected_advice_queries() {
        Some(FixtureError::AdviceQueryShape)
    } else if s.fixed_queries@ != expected_fixed_queries() {
        Some(FixtureError::FixedQueryShape)
    } else if permutation_view(s.permutation_columns@) != expected_permutation() {
        Some(FixtureError::PermutationColumnShape)
    } else if !lookup_ok(s.lookup) {
        Some(FixtureError::LookupQueryShape)
    } else {
        None
    }
}

/// The first fixture condition that fails, if any: the backend, curve,
/// scheme, transcript, sizes and commitment counts, then the shape.
pub open spec fn fixture_error(f: AxiomScalarMulFixture) -> Option<FixtureError> {
    if !has_prefix(f.backend@, "halo2-axiom"@) {
        Some(FixtureError::UnsupportedBackend(f.backend))
    } else if f.curve@ != "bls12_381"@ {
        Some(FixtureError::UnsupportedCurve(f.curve))
    } else if f.pcs@ != "kzg-shplonk"@ {
        Some(FixtureError::UnsupportedPcs(f.pcs))
    } else if f.transcript@ != "cardano-friendly-blake2b-256"@ {
        Some(FixtureError::UnsupportedTranscript(f.transcript))
    } else if f.k != 18 {
        Some(FixtureError::UnsupportedK(f.k))
    } else if f.n != 262_144 {
        Some(FixtureError::UnsupportedN(f.n))
    } else if f.quotient_poly_degree != 3 {
        Some(FixtureError::UnsupportedQuotientDegree(f.quotient_poly_degree))
    } else if f.blinding_factors != 6 {
        Some(FixtureError::UnsupportedBlindingFactors(f.blinding_factors))
    } else if f.fixed_commitments@.len() != 4 {
        Some(FixtureError::FixedCommitments(f.fixed_commitments@.len() as usize))
    } else if f.permutation_commitments@.len() != 4 {
        Some(FixtureError::PermutationCommitments(f.permutation_commitments@.len() as usize))
    } else {
        shape_error(f.shape)
    }
}

/// `s` reads as `lit`.
fn string_is(s: &String, lit: &str) -> (b: bool)
    ensures
        b == (s@ == lit@),
{
    *s == String::from_str(lit)
}

/// `s` starts with `p`.
fn starts_with(s: &String, p: &str) -> (b: bool)
    ensures
        b == has_prefix(s@, p@),
{
    let t = s.as_str();
    let n = t.unicode_len();
    let m = p.unicode_len();
    if m > n {
        return false;
    }
    let mut i: usize = 0;
    while i < m
        invariant
            i <= m <= n,
            n == s@.len(),
            m == p@.len(),
            t@ == s@,
            s@.subrange(0, i as int) == p@.subrange(0, i as int),
        decreases m - i,
    {
        if t.get_char(i) != p.get_char(i) {
            assert(s@.subrange(0, m as int)[i as int] != p@[i as int]);
            return false;
        }
        i = i + 1;
        assert(s@.subrange(0, i as int) =~= p@.subrange(0, i as int)) by {
            assert(s@.subrange(0, i as int) =~= s@.subrange(0, (i - 1) as int).push(s@[i - 1]));
            assert(p@.subrange(0, i as int) =~= p@.subrange(0, (i - 1) as int).push(p@[i - 1]));
        }
    }
    assert(p@.subrange(0, m as int) =~= p@);
    true
}

/// The queries are exactly `expected`.
fn queries_are(v: &Vec<ColumnRotation>, expected: &Vec<ColumnRotation>) -> (b: bool)
    ensures
        b == (v@ == expected@),
{
    let n = v.len();
    if n != expected.len() {
        return false;
    }
    let mut i: usize = 0;
    while i < n
        invariant
            i <= n,
            n == v@.len(),
            n == expected@.len(),
            v@.take(i as int) == expected@.take(i as int),
        decreases n - i,
    {
        if v[i] != expected[i] {
            return false;
        }
        i = i + 1;
        assert(v@.take(i as int) =~= v@.take((i - 1) as int).push(v@[i - 1]));
        assert(expected@.take(i as int) =~= expected@.take((i - 1) as int).push(expected@[i - 1]));
    }
    assert(v@.take(n as int) =~= v@);
    assert(expected@.take(n as int) =~= expected@);
    true
}

fn typed_is(t: &TypedColumnRotation, kind: &str, column: usize, rotation: i32) -> (b: bool)
    ensures
        b == (typed_view(*t) == (kind@, column, rotation)),
{
    string_is(&t.column_type, kind) && t.column == column && t.rotation == rotation
}

/// The permutation columns are those the templates are written for.
fn permutation_ok(v: &Vec<PermutationColumn>) -> (b: bool)
    ensures
        b == (permutation_view(v@) == expected_permutation()),
{
    proof {
        reveal_strlit("fixed");
        reveal_strlit("advice");
    }
    if v.len() != 4 {
        assert(permutation_view(v@).len() != expected_permutation().len());
        return false;
    }
    let b = string_is(&v[0].column_type, "fixed") && v[0].column == 1 && string_is(&v[1].column_type, "advice")
        && v[1].column == 0 && string_is(&v[2].column_type, "advice") && v[2].column == 1 && string_is(
        &v[3].column_type,
        "advice",
    ) && v[3].column == 2;
    proof {
        let pv = permutation_view(v@);
        let e = expected_permutation();
        if b {
            assert(pv =~= e);
        } else {
            if pv == e {
                assert(pv[0] == e[0] && pv[1] == e[1] && pv[2] == e[2] && pv[3] == e[3]);
            }
        }
    }
    b
}

impl AxiomScalarMulShape {
    /// Checks the shape against the one the templates are written for.
    pub fn validate(&self) -> (r: Result<(), FixtureError>)
        ensures
            match shape_error(*self) {
                None => r is Ok,
                Some(e) => r matches Err(x) && x == e,
            },
    {
        if self.num_fixed_columns != 4 {
            return Err(FixtureError::FixedColumns(self.num_fixed_columns));
        }
        if self.num_advice_columns != 3 {
            return Err(FixtureError::AdviceColumns(self.num_advice_columns));
        }
        if self.num_instance_columns != 0 {
            return Err(FixtureError::InstanceColumns(self.num_instance_columns));
        }
        let advice = vec![
            ColumnRotation { column: 0, rotation: 0 },
            ColumnRotation { column: 0, rotation: 1 },
            ColumnRotation { column: 0, rotation: 2 },
            ColumnRotation { column: 0, rotation: 3 },
            ColumnRotation { column: 1, rotation: 0 },
            ColumnRotation { column: 1, rotation: 1 },
            ColumnRotation { column: 1, rotation: 2 },
            ColumnRotation { column: 1, rotation: 3 },
            ColumnRotation { column: 2, rotation: 0 },
        ];
        assert(advice@ =~= expected_advice_queries());
        if !queries_are(&self.advice_queries, &advice) {
            return Err(FixtureError::AdviceQueryShape);
        }
        let fixed = vec![
            ColumnRotation { column: 1, rotation: 0 },
            ColumnRotation { column: 0, rotation: 0 },
            ColumnRotation { column: 2, rotation: 0 },
            ColumnRotation { column: 3, rotation: 0 },
        ];
        assert(fixed@ =~= expected_fixed_queries());
        if !queries_are(&self.fixed_queries, &fixed) {
            return Err(FixtureError::FixedQueryShape);
        }
        if !permutation_ok(&self.permutation_columns) {
            return Err(FixtureError::PermutationColumnShape);
        }
        if !(typed_is(&self.lookup.input, "advice", 2, 0) && typed_is(&self.lookup.table, "fixed", 0, 0)) {
            return Err(FixtureError::LookupQueryShape);
        }
        Ok(())
    }
}

/// The values the templates are filled with, by placeholder: the sizes and
/// constants, the SRS point with its bytes reversed, the proof, then the
/// fixed and permutation commitments numbered from 0.
pub open spec fn template_entries(f: AxiomScalarMulFixture, s_g2_cardano: Seq<char>) -> Seq<(Seq<char>, Seq<char>)> {
    seq![
        ("N"@, decimal(f.n as nat)),
        ("BLINDING_FACTORS"@, decimal(f.blinding_factors as nat)),
        ("TRANSCRIPT_REP"@, f.transcript_repr@),
        ("OMEGA"@, f.omega@),
        ("OMEGA_INV"@, f.omega_inv@),
        ("BARYCENTRIC_WEIGHT"@, f.barycentric_weight@),
        ("S_G2_CARDANO"@, s_g2_cardano),
        ("PROOF_HEX"@, f.proof_hex@),
    ] + Seq::new(
        f.fixed_commitments@.len(),
        |i: int| ("FIXED_"@ + decimal(i as nat), f.fixed_commitments@[i]@),
    ) + Seq::new(
        f.permutation_commitments@.len(),
        |i: int| ("PERMUTATION_COMMON_"@ + decimal(i as nat), f.permutation_commitments@[i]@),
    )
}

/// The entries as text.
pub open spec fn entries_view(v: Seq<(String, String)>) -> Seq<(Seq<char>, Seq<char>)> {
    Seq::new(v.len(), |i: int| (v[i].0@, v[i].1@))
}

fn push_entry(out: &mut Vec<(String, String)>, key: &str, value: String)
    ensures
        entries_view(final(out)@) == entries_view(old(out)@).push((key@, value@)),
{
    out.push((String::from_str(key), value));
    assert(entries_view(out@) =~= entries_view(old(out)@).push((key@, value@)));
}

/// Appends `prefix` followed by the index, and the value, for each value.
fn push_numbered(out: &mut Vec<(String, String)>, prefix: &str, values: &Vec<String>)
    ensures
        entries_view(final(out)@) == entries_view(old(out)@) + Seq::new(
            values@.len(),
            |i: int| (prefix@ + decimal(i as nat), values@[i]@),
        ),
{
    let ghost o = entries_view(old(out)@);
    let n = values.len();
    let mut i: usize = 0;
    while i < n
        invariant
            i <= n,
            n == values@.len(),
            entries_view(out@) == o + Seq::new(i as nat, |j: int| (prefix@ + decimal(j as nat), values@[j]@)),
        decreases n - i,
    {
        let mut key = String::from_str(prefix);
        push_decimal(&mut key, i as u64);
        let value = values[i].clone();
        let ghost before = entries_view(out@);
        out.push((key, value));
        i = i + 1;
        assert(entries_view(out@) =~= before.push((key@, value@)));
        assert(entries_view(out@) =~= o + Seq::new(i as nat, |j: int| (prefix@ + decimal(j as nat), values@[j]@)));
    }
}

impl AxiomScalarMulFixture {
    /// Checks the fixture against the one the templates are written for;
    /// the first condition that fails is reported.
    pub fn validate(&self) -> (r: Result<(), FixtureError>)
        ensures
            match fixture_error(*self) {
                None => r is Ok,
                Some(e) => r matches Err(x) && x == e,
            },
    {
        if !starts_with(&self.backend, "halo2-axiom") {
            return Err(FixtureError::UnsupportedBackend(self.backend.clone()));
        }
        if !string_is(&self.curve, "bls12_381") {
            return Err(FixtureError::UnsupportedCurve(self.curve.clone()));
        }
        if !string_is(&self.pcs, "kzg-shplonk") {
            return Err(FixtureError::UnsupportedPcs(self.pcs.clone()));
        }
        if !string_is(&self.transcript, "cardano-friendly-blake2b-256") {
            return Err(FixtureError::UnsupportedTranscript(self.transcript.clone()));
        }
        if self.k != 18 {
            return Err(FixtureError::UnsupportedK(self.k));
        }
        if self.n != 262_144 {
            return Err(FixtureError::UnsupportedN(self.n));
        }
        if self.quotient_poly_degree != 3 {
            return Err(FixtureError::UnsupportedQuotientDegree(self.quotient_poly_degree));
        }
        if self.blinding_factors != 6 {
            return Err(FixtureError::UnsupportedBlindingFactors(self.blinding_factors));
        }
        if self.fixed_commitments.len() != 4 {
            return Err(FixtureError::FixedCommitments(self.fixed_commitments.len()));
        }
        if self.permutation_commitments.len() != 4 {
            return Err(FixtureError::PermutationCommitments(self.permutation_commitments.len()));
        }
        self.shape.validate()
    }

    /// The values the templates are filled with; fails when the SRS point
    /// is not hexadecimal text of an even length.
    pub fn template_data(&self) -> (r: Result<Vec<(String, String)>, ReverseHexError>)
        ensures
            ({
                let bytes = encode_utf8(self.s_g2@);
                &&& bytes.len() % 2 != 0 ==> (r matches Err(ReverseHexError::OddLength))
                &&& bytes.len() % 2 == 0 && !all_hex(bytes) ==> (r matches Err(ReverseHexError::Decode(_)))
                &&& bytes.len() % 2 == 0 && all_hex(bytes) ==> (r matches Ok(v) && entries_view(v@)
                    == template_entries(*self, spec_hex_encode(spec_hex_decode(bytes).reverse())))
            }),
    {
        let s_g2_cardano = match reverse_hex_bytes(self.s_g2.as_str()) {
            Ok(s) => s,
            Err(e) => {
                return Err(e);
            },
        };
        let mut data: Vec<(String, String)> = Vec::new();
        let mut n = String::new();
        push_decimal(&mut n, self.n);
        push_entry(&mut data, "N", n);
        let mut bf = String::new();
        push_decimal(&mut bf, self.blinding_factors as u64);
        push_entry(&mut data, "BLINDING_FACTORS", bf);
        push_entry(&mut data, "TRANSCRIPT_REP", self.transcript_repr.clone());
        push_entry(&mut data, "OMEGA", self.omega.clone());
        push_entry(&mut data, "OMEGA_INV", self.omega_inv.clone());
        push_entry(&mut data, "BARYCENTRIC_WEIGHT", self.barycentric_weight.clone());
        push_entry(&mut data, "S_G2_CARDANO", s_g2_cardano);
        push_entry(&mut data, "PROOF_HEX", self.proof_hex.clone());
        let ghost head = entries_view(data@);
        push_numbered(&mut data, "FIXED_", &self.fixed_commitments);
        push_numbered(&mut data, "PERMUTATION_COMMON_", &self.permutation_commitments);
        assert(entries_view(data@) =~= template_entries(
            *self,
            spec_hex_encode(spec_hex_decode(encode_utf8(self.s_g2@)).reverse()),
        ));
        Ok(data)
    }
}

/// Why a fixture's template could not be rendered.
#[derive(Debug)]
pub enum FixtureRenderError {
    /// The fixture's values could not be computed.
    Data(ReverseHexError),
    /// The template does not parse, or uses a name that has no value.
    Template,
}

/// A template filled with the fixture's values (Handlebars, strict mode):
/// an error when the values cannot be computed, else exactly when the
/// template cannot be rendered with them.
pub fn render_fixture_template(f: &AxiomScalarMulFixture, template: &str) -> (r: Result<String, FixtureRenderError>)
    ensures
        ({
            let bytes = encode_utf8(f.s_g2@);
            let out = handlebars_strict_render(
                template@,
                template_entries(*f, spec_hex_encode(spec_hex_decode(bytes).reverse())),
            );
            &&& bytes.len() % 2 != 0 ==> (r matches Err(FixtureRenderError::Data(ReverseHexError::OddLength)))
            &&& bytes.len() % 2 == 0 && !all_hex(bytes) ==> (r matches Err(
                FixtureRenderError::Data(ReverseHexError::Decode(_)),
            ))
            &&& bytes.len() % 2 == 0 && all_hex(bytes) ==> {
                &&& out is None ==> (r matches Err(FixtureRenderError::Template))
                &&& out matches Some(t) ==> (r matches Ok(s) && s@ == t)
            }
        }),
{
    let data = match f.template_data() {
        Ok(d) => d,
        Err(e) => {
            return Err(FixtureRenderError::Data(e));
        },
    };
    match render_strict(template, &data) {
        Some(s) => Ok(s),
        None => Err(FixtureRenderError::Template),
    }
}

/// Where the scalar-multiplication generator reads its templates and writes
/// the verifier sources, as paths relative to the repository root.
#[derive(Clone, Debug)]
pub struct AxiomScalarMulOutputPaths {
    pub aiken_template: String,
    pub aiken_output: String,
    pub aiken_vk_template: String,
    pub aiken_vk_output: String,
    pub plinth_template: String,
    pub plinth_output: String,
    pub plinth_test_template: String,
    pub plinth_test_output: String,
    pub plinth_test_main_template: String,
    pub plinth_test_main_output: String,
    pub plinth_haskell_test_template: String,
    pub plinth_haskell_test_output: String,
    pub plinth_compiled_stub_template: String,
    pub plinth_compiled_stub_output: String,
}

impl Default for AxiomScalarMulOutputPaths {
    /// The locations inside the repository.
    fn default() -> (p: Self)
        ensures
            p.aiken_template@ == "aiken-verifier/templates/axiom_scalar_mul.hbs"@,
            p.aiken_output@ == "aiken-verifier/aiken_halo2/lib/proof_verifier.ak"@,
            p.aiken_vk_template@ == "aiken-verifier/templates/axiom_verifier_key_stub.hbs"@,
            p.aiken_vk_output@ == "aiken-verifier/aiken_halo2/lib/verifier_key.ak"@,
            p.plinth_template@ == "plinth-verifier/templates/axiom_scalar_mul.hbs"@,
            p.plinth_output@ == "plinth-verifier/plutus-halo2/src/Plutus/Crypto/Halo2/Generic/Verifier.hs"@,
            p.plinth_test_template@ == "plinth-verifier/templates/axiom_scalar_mul_test.hbs"@,
            p.plinth_test_output@ == "plinth-verifier/plutus-halo2/test/Generic/VerificationTestPlutus.hs"@,
            p.plinth_test_main_template@ == "plinth-verifier/templates/axiom_scalar_mul_test_main.hbs"@,
            p.plinth_test_main_output@ == "plinth-verifier/plutus-halo2/test/Test.hs"@,
            p.plinth_haskell_test_template@ == "plinth-verifier/templates/axiom_scalar_mul_test_haskell.hbs"@,
            p.plinth_haskell_test_output@ == "plinth-verifier/plutus-halo2/test/Generic/VerificationTestHaskell.hs"@,
            p.plinth_compiled_stub_template@ == "plinth-verifier/templates/axiom_scalar_mul_verify_compiled.hbs"@,
            p.plinth_compiled_stub_output@ == "plinth-verifier/plutus-halo2/test/Generic/VerifyCompiled.hs"@,
    {
        AxiomScalarMulOutputPaths {
            aiken_template: String::from_str("aiken-verifier/templates/axiom_scalar_mul.hbs"),
            aiken_output: String::from_str("aiken-verifier/aiken_halo2/lib/proof_verifier.ak"),
            aiken_vk_template: String::from_str("aiken-verifier/templates/axiom_verifier_key_stub.hbs"),
            aiken_vk_output: String::from_str("aiken-verifier/aiken_halo2/lib/verifier_key.ak"),
            plinth_template: String::from_str("plinth-verifier/templates/axiom_scalar_mul.hbs"),
            plinth_output: String::from_str("plinth-verifier/plutus-halo2/src/Plutus/Crypto/Halo2/Generic/Verifier.hs"),
            plinth_test_template: String::from_str("plinth-verifier/templates/axiom_scalar_mul_test.hbs"),
            plinth_test_output: String::from_str("plinth-verifier/plutus-halo2/test/Generic/VerificationTestPlutus.hs"),
            plinth_test_main_template: String::from_str("plinth-verifier/templates/axiom_scalar_mul_test_main.hbs"),
            plinth_test_main_output: String::from_str("plinth-verifier/plutus-halo2/test/Test.hs"),
            plinth_haskell_test_template: String::from_str("plinth-verifier/templates/axiom_scalar_mul_test_haskell.hbs"),
            plinth_haskell_test_output: String::from_str("plinth-verifier/plutus-halo2/test/Generic/VerificationTestHaskell.hs"),
            plinth_compiled_stub_template: String::from_str("plinth-verifier/templates/axiom_scalar_mul_verify_compiled.hbs"),
            plinth_compiled_stub_output: String::from_str("plinth-verifier/plutus-halo2/test/Generic/VerifyCompiled.hs"),
        }
    }
}

} // verus!
