//! The SHPLONK pairing check and the vanishing polynomial's MSM, in the
//! generated Aiken and Plinth verifiers.

use vstd::prelude::*;

use super::layout::{AxiomLayout, SetView, spec_complement, complement_rotations, sets_view};
use super::names::{indexed, numbered, snake_to_camel, snake_to_lower_camel};
use super::openings::{
    push_line, push_literal_line, aiken_rotation_binding, aiken_rotation_list, plinth_rotation_binding,
    plinth_rotation_list, spec_aiken_openings_list, spec_aiken_rotation_binding, spec_aiken_rotation_list,
    spec_plinth_openings_list, spec_plinth_rotation_binding, spec_plinth_rotation_list,
};
use super::text::{
    aiken_power, aiken_xn_power, join, join_strings, plinth_power, plinth_xn_power, spec_aiken_power, spec_plinth_power,
    spec_plinth_xn_power, texts,
};
use crate::extraction::text::{decimal, push_decimal};

verus! {

/// `n` names `prefix` and an index, in order.
pub open spec fn numbered_names(prefix: Seq<char>, n: nat) -> Seq<Seq<char>> {
    Seq::new(n, |i: int| indexed(prefix, i as nat))
}

fn numbered_list(prefix: &str, n: usize) -> (r: Vec<String>)
    ensures
        texts(r@) == numbered_names(prefix@, n as nat),
{
    let mut r: Vec<String> = Vec::new();
    let mut i: usize = 0;
    while i < n
        invariant
            i <= n,
            texts(r@) == numbered_names(prefix@, i as nat),
        decreases n - i,
    {
        push_line(&mut r, numbered(prefix, i));
        i = i + 1;
        assert(texts(r@) =~= numbered_names(prefix@, i as nat));
    }
    r
}

/// How the `idx`-th set's contribution is scaled against the first set's
/// vanishing polynomial, in Aiken.
pub open spec fn spec_aiken_z_diff(idx: nat, points: Seq<i32>, super_points: Seq<i32>) -> Seq<char> {
    if idx == 0 {
        "from_int(1)"@
    } else {
        "mul(vanishing("@ + spec_aiken_rotation_list(spec_complement(super_points, points)) + ", p.u), z0_diff_inv)"@
    }
}

/// The same in Plinth.
pub open spec fn spec_plinth_z_diff(idx: nat, points: Seq<i32>, super_points: Seq<i32>) -> Seq<char> {
    if idx == 0 {
        "scalarOne"@
    } else {
        "vanishing "@ + spec_plinth_rotation_list(spec_complement(super_points, points)) + " (u pieces) * z0DiffInv"@
    }
}

/// The contribution of the `idx`-th rotation set, in Aiken.
pub open spec fn spec_aiken_set_contribution(idx: nat, set: SetView, super_points: Seq<i32>) -> Seq<char> {
    "  let (msm_"@ + decimal(idx) + ", r_"@ + decimal(idx) + ") =\n    rotation_contribution(\n      "@
        + spec_aiken_rotation_list(set.0) + ",\n      "@ + spec_aiken_openings_list(set.1)
        + ",\n      p.u,\n      p.shplonk_y,\n      "@ + spec_aiken_power("p.v"@, idx) + ",\n      "@
        + spec_aiken_z_diff(idx, set.0, super_points) + ",\n    )"@
}

/// The contribution of the `idx`-th rotation set, in Plinth.
pub open spec fn spec_plinth_set_contribution(idx: nat, set: SetView, super_points: Seq<i32>) -> Seq<char> {
    "        (!msm"@ + decimal(idx) + ", !r"@ + decimal(idx)
        + ") =\n            rotationContribution\n                "@ + spec_plinth_rotation_list(set.0)
        + "\n                "@ + spec_plinth_openings_list(set.1)
        + "\n                (u pieces)\n                (shplonkY pieces)\n                "@
        + spec_plinth_power("v pieces"@, idx) + "\n                ("@ + spec_plinth_z_diff(idx, set.0, super_points)
        + ")"@
}

/// Each rotation set's contribution to the pairing check, in both
/// languages: the `idx`-th set is weighted by `v` to the power `idx` (the
/// unit for the first set, `v` for the second, `v^idx` written with the
/// exponent after), and scaled by one for the first set or by its
/// complement's vanishing polynomial times the first set's inverse
/// otherwise. Distinct sets get distinct weights.
pub proof fn lemma_set_contributions(idx: nat, jdx: nat, set: SetView, super_points: Seq<i32>)
    ensures
        spec_aiken_set_contribution(idx, set, super_points) == "  let (msm_"@ + decimal(idx) + ", r_"@ + decimal(idx)
            + ") =\n    rotation_contribution(\n      "@ + spec_aiken_rotation_list(set.0) + ",\n      "@
            + spec_aiken_openings_list(set.1) + ",\n      p.u,\n      p.shplonk_y,\n      "@ + (if idx == 0 {
            "from_int(1)"@
        } else if idx == 1 {
            "p.v"@
        } else {
            "scalar_pow("@ + "p.v"@ + ", "@ + decimal(idx) + ")"@
        }) + ",\n      "@ + (if idx == 0 {
            "from_int(1)"@
        } else {
            "mul(vanishing("@ + spec_aiken_rotation_list(spec_complement(super_points, set.0)) + ", p.u), z0_diff_inv)"@
        }) + ",\n    )"@,
        spec_plinth_set_contribution(idx, set, super_points) == "        (!msm"@ + decimal(idx) + ", !r"@ + decimal(idx)
            + ") =\n            rotationContribution\n                "@ + spec_plinth_rotation_list(set.0)
            + "\n                "@ + spec_plinth_openings_list(set.1)
            + "\n                (u pieces)\n                (shplonkY pieces)\n                "@ + (if idx == 0 {
            "scalarOne"@
        } else if idx == 1 {
            "v pieces"@
        } else {
            "powMod ("@ + "v pieces"@ + ") "@ + decimal(idx)
        }) + "\n                ("@ + (if idx == 0 {
            "scalarOne"@
        } else {
            "vanishing "@ + spec_plinth_rotation_list(spec_complement(super_points, set.0)) + " (u pieces) * z0DiffInv"@
        }) + ")"@,
        idx != jdx ==> spec_aiken_power("p.v"@, idx) != spec_aiken_power("p.v"@, jdx),
        idx != jdx ==> spec_plinth_power("v pieces"@, idx) != spec_plinth_power("v pieces"@, jdx),
{
    reveal_strlit("p.v");
    reveal_strlit("from_int(1)");
    reveal_strlit("v pieces");
    reveal_strlit("scalarOne");
    crate::axiom_shplonk::text::lemma_power_texts("p.v"@, idx, jdx);
    crate::axiom_shplonk::text::lemma_power_texts("v pieces"@, idx, jdx);
}

/// In the pairing check, the contributions of the rotation sets come in the
/// sets' order, the `i`-th one being that of set `i` (weighted by `v^i`), after
/// `x^n`, the rotated points and the first set's vanishing polynomials.
pub proof fn lemma_pairing_contributions(sets: Seq<SetView>, super_points: Seq<i32>, i: int)
    requires
        sets.len() > 0,
        0 <= i < sets.len(),
    ensures
        spec_aiken_pairing_lines(sets, super_points)[1 + super_points.len() + 2 + i] == spec_aiken_set_contribution(
            i as nat,
            sets[i],
            super_points,
        ),
        spec_plinth_pairing_lines(sets, super_points)[1 + super_points.len() + 3 + i] == spec_plinth_set_contribution(
            i as nat,
            sets[i],
            super_points,
        ),
{
}

/// The final MSM and the pairing, in Aiken.
pub open spec fn aiken_pairing_tail() -> Seq<Seq<char>> {
    seq![
        "  let outer_msm =\n    add_msm(\n      outer_msm,\n      MSM {\n        elements: [\n          MSMElement { scalar: neg(r_outer), g1: g1_generator_bytes },\n          MSMElement { scalar: neg(z0), g1: p.shplonk_h1 },\n          MSMElement { scalar: p.u, g1: p.shplonk_h2 },\n        ],\n      },\n    )"@,
        "  final_exponentiation(\n    miller_loop(axiom_decompress_g1(p.shplonk_h2), s_g2),\n    miller_loop(eval_axiom_msm(outer_msm), generator_g2),\n  )"@,
    ]
}

/// The final MSM and the pairing, in Plinth.
pub open spec fn plinth_pairing_tail() -> Seq<char> {
    "        !outerMsm' =\n            addRawMsm\n                outerMsm\n                ( RawMSM\n                    [ RawMSMElement (negate rOuter) g1GeneratorBytes\n                    , RawMSMElement (negate z0) (shplonkH1 pieces)\n                    , RawMSMElement (u pieces) (shplonkH2 pieces)\n                    ]\n                )\n        !g2 = bls12_381_G2_uncompress bls12_381_G2_compressed_generator\n        !mlLeft = bls12_381_millerLoop (axiomDecompressG1 (shplonkH2 pieces)) sG2\n        !mlRight = bls12_381_millerLoop (evalAxiomMsm outerMsm') g2\n     in bls12_381_finalVerify mlLeft mlRight"@
}

/// The lines of the Aiken pairing check: x^n, the rotated points, the first
/// set's vanishing polynomial and the inverse of its complement, each set's
/// contribution, then their sum and the pairing.
pub open spec fn spec_aiken_pairing_lines(sets: Seq<SetView>, super_points: Seq<i32>) -> Seq<Seq<char>> {
    let first = sets[0].0;
    seq!["  let xn = scalar_pow(p.x, n)"@] + Seq::new(
        super_points.len(),
        |i: int| spec_aiken_rotation_binding(super_points[i]),
    ) + seq![
        "  let z0 = vanishing("@ + spec_aiken_rotation_list(first) + ", p.u)"@,
        "  let z0_diff_inv = recip_eea(vanishing("@ + spec_aiken_rotation_list(spec_complement(super_points, first))
            + ", p.u))"@,
    ] + Seq::new(sets.len(), |i: int| spec_aiken_set_contribution(i as nat, sets[i], super_points)) + seq![
        "  let outer_msm =\n    foldl(["@ + join(numbered_names("msm_"@, sets.len()), ", "@)
            + "], MSM { elements: [] }, fn(msm, acc) { add_msm(acc, msm) })"@,
        "  let r_outer =\n    foldl(["@ + join(numbered_names("r_"@, sets.len()), ", "@)
            + "], from_int(0), fn(r, acc) { add(acc, r) })"@,
    ] + aiken_pairing_tail()
}

/// The lines of the Plinth pairing check.
pub open spec fn spec_plinth_pairing_lines(sets: Seq<SetView>, super_points: Seq<i32>) -> Seq<Seq<char>> {
    let first = sets[0].0;
    seq!["    let !rotateOmega = BlsUtils.rotateOmega omega omegaInv"@] + Seq::new(
        super_points.len(),
        |i: int| spec_plinth_rotation_binding(super_points[i]),
    ) + seq![
        "        !xn = powMod (x pieces) n"@,
        "        !z0 = vanishing "@ + spec_plinth_rotation_list(first) + " (u pieces)"@,
        "        !z0DiffInv = recip (vanishing "@ + spec_plinth_rotation_list(spec_complement(super_points, first))
            + " (u pieces))"@,
    ] + Seq::new(sets.len(), |i: int| spec_plinth_set_contribution(i as nat, sets[i], super_points)) + seq![
        "        !outerMsm = foldl addRawMsm (RawMSM []) ["@ + join(numbered_names("msm"@, sets.len()), ", "@) + "]"@,
        "        !rOuter = foldl (+) scalarZero ["@ + join(numbered_names("r"@, sets.len()), ", "@) + "]"@,
        plinth_pairing_tail(),
    ]
}

/// The Aiken MSM of the vanishing polynomial's pieces, scaled by powers of
/// x^n.
pub open spec fn spec_aiken_vanishing_h_msm(quotient_poly_degree: nat) -> Seq<char> {
    "  MSM {\n    elements: [\n"@ + join(
        Seq::new(
            quotient_poly_degree,
            |i: int|
                "      MSMElement { scalar: "@ + spec_aiken_power("xn"@, i as nat) + ", g1: p."@ + indexed(
                    "h_"@,
                    i as nat,
                ) + " },"@,
        ),
        "\n"@,
    ) + "\n    ],\n  }"@
}

/// The Plinth MSM of the vanishing polynomial's pieces.
pub open spec fn spec_plinth_vanishing_h_msm(quotient_poly_degree: nat) -> Seq<char> {
    "    RawMSM\n        [ "@ + join(
        Seq::new(
            quotient_poly_degree,
            |i: int|
                "        RawMSMElement "@ + spec_plinth_xn_power(i as nat) + " ("@ + snake_to_camel(
                    indexed("h_"@, i as nat),
                ) + " pieces)"@,
        ),
        "\n        , "@,
    ) + "\n        ]"@
}

impl AxiomLayout {
    fn aiken_z_diff(&self, idx: usize) -> (s: String)
        requires
            idx < self.query_sets@.len(),
        ensures
            s@ == spec_aiken_z_diff(idx as nat, self.query_sets@[idx as int].points@, self.super_points@),
    {
        if idx == 0 {
            String::from_str("from_int(1)")
        } else {
            let c = complement_rotations(&self.super_points, &self.query_sets[idx].points);
            let mut s = String::from_str("mul(vanishing(");
            let l = aiken_rotation_list(&c);
            s.append(l.as_str());
            s.append(", p.u), z0_diff_inv)");
            s
        }
    }

    fn plinth_z_diff(&self, idx: usize) -> (s: String)
        requires
            idx < self.query_sets@.len(),
        ensures
            s@ == spec_plinth_z_diff(idx as nat, self.query_sets@[idx as int].points@, self.super_points@),
    {
        if idx == 0 {
            String::from_str("scalarOne")
        } else {
            let c = complement_rotations(&self.super_points, &self.query_sets[idx].points);
            let mut s = String::from_str("vanishing ");
            let l = plinth_rotation_list(&c);
            s.append(l.as_str());
            s.append(" (u pieces) * z0DiffInv");
            s
        }
    }

    fn aiken_set_contribution(&self, idx: usize) -> (s: String)
        requires
            idx < self.query_sets@.len(),
        ensures
            s@ == spec_aiken_set_contribution(idx as nat, sets_view(self.query_sets@)[idx as int], self.super_points@),
    {
        let set = &self.query_sets[idx];
        let mut s = String::from_str("  let (msm_");
        push_decimal(&mut s, idx as u64);
        s.append(", r_");
        push_decimal(&mut s, idx as u64);
        s.append(") =\n    rotation_contribution(\n      ");
        let pts = aiken_rotation_list(&set.points);
        s.append(pts.as_str());
        s.append(",\n      ");
        let ops = self.aiken_openings_list(set);
        s.append(ops.as_str());
        s.append(",\n      p.u,\n      p.shplonk_y,\n      ");
        let v = aiken_power("p.v", idx);
        s.append(v.as_str());
        s.append(",\n      ");
        let z = self.aiken_z_diff(idx);
        s.append(z.as_str());
        s.append(",\n    )");
        s
    }

    fn plinth_set_contribution(&self, idx: usize) -> (s: String)
        requires
            idx < self.query_sets@.len(),
        ensures
            s@ == spec_plinth_set_contribution(idx as nat, sets_view(self.query_sets@)[idx as int], self.super_points@),
    {
        let set = &self.query_sets[idx];
        let mut s = String::from_str("        (!msm");
        push_decimal(&mut s, idx as u64);
        s.append(", !r");
        push_decimal(&mut s, idx as u64);
        s.append(") =\n            rotationContribution\n                ");
        let pts = plinth_rotation_list(&set.points);
        s.append(pts.as_str());
        s.append("\n                ");
        let ops = self.plinth_openings_list(set);
        s.append(ops.as_str());
        s.append("\n                (u pieces)\n                (shplonkY pieces)\n                ");
        let v = plinth_power("v pieces", idx);
        s.append(v.as_str());
        s.append("\n                (");
        let z = self.plinth_z_diff(idx);
        s.append(z.as_str());
        s.append(")");
        s
    }

    /// The SHPLONK pairing check of the Aiken verifier, one line per binding
    /// (the sets must not be empty: the first one anchors the others).
    pub fn aiken_shplonk_pairing_check(&self) -> (s: String)
        requires
            self.query_sets@.len() > 0,
        ensures
            s@ == join(spec_aiken_pairing_lines(sets_view(self.query_sets@), self.super_points@), "\n"@),
    {
        let ghost sets = sets_view(self.query_sets@);
        let ghost sp = self.super_points@;
        let mut lines: Vec<String> = Vec::new();
        push_literal_line(&mut lines, "  let xn = scalar_pow(p.x, n)");
        let ghost base = texts(lines@);
        let n = self.super_points.len();
        let mut i: usize = 0;
        while i < n
            invariant
                i <= n,
                n == sp.len(),
                sp == self.super_points@,
                texts(lines@) == base + Seq::new(i as nat, |k: int| spec_aiken_rotation_binding(sp[k])),
            decreases n - i,
        {
            push_line(&mut lines, aiken_rotation_binding(self.super_points[i]));
            i = i + 1;
            assert(texts(lines@) =~= base + Seq::new(i as nat, |k: int| spec_aiken_rotation_binding(sp[k])));
        }
        let first = &self.query_sets[0].points;
        let mut z0 = String::from_str("  let z0 = vanishing(");
        let l0 = aiken_rotation_list(first);
        z0.append(l0.as_str());
        z0.append(", p.u)");
        push_line(&mut lines, z0);
        let comp = complement_rotations(&self.super_points, first);
        let mut zi = String::from_str("  let z0_diff_inv = recip_eea(vanishing(");
        let lc = aiken_rotation_list(&comp);
        zi.append(lc.as_str());
        zi.append(", p.u))");
        push_line(&mut lines, zi);
        let ghost mid = texts(lines@);
        let m = self.query_sets.len();
        let mut j: usize = 0;
        while j < m
            invariant
                j <= m,
                m == sets.len(),
                sets == sets_view(self.query_sets@),
                sp == self.super_points@,
                texts(lines@) == mid + Seq::new(j as nat, |k: int| spec_aiken_set_contribution(k as nat, sets[k], sp)),
            decreases m - j,
        {
            push_line(&mut lines, self.aiken_set_contribution(j));
            j = j + 1;
            assert(texts(lines@) =~= mid + Seq::new(
                j as nat,
                |k: int| spec_aiken_set_contribution(k as nat, sets[k], sp),
            ));
        }
        let msm_names = numbered_list("msm_", m);
        let r_names = numbered_list("r_", m);
        let mut outer = String::from_str("  let outer_msm =\n    foldl([");
        let jm = join_strings(&msm_names, ", ");
        outer.append(jm.as_str());
        outer.append("], MSM { elements: [] }, fn(msm, acc) { add_msm(acc, msm) })");
        push_line(&mut lines, outer);
        let mut r_outer = String::from_str("  let r_outer =\n    foldl([");
        let jr = join_strings(&r_names, ", ");
        r_outer.append(jr.as_str());
        r_outer.append("], from_int(0), fn(r, acc) { add(acc, r) })");
        push_line(&mut lines, r_outer);
        push_literal_line(
            &mut lines,
            "  let outer_msm =\n    add_msm(\n      outer_msm,\n      MSM {\n        elements: [\n          MSMElement { scalar: neg(r_outer), g1: g1_generator_bytes },\n          MSMElement { scalar: neg(z0), g1: p.shplonk_h1 },\n          MSMElement { scalar: p.u, g1: p.shplonk_h2 },\n        ],\n      },\n    )",
        );
        push_literal_line(
            &mut lines,
            "  final_exponentiation(\n    miller_loop(axiom_decompress_g1(p.shplonk_h2), s_g2),\n    miller_loop(eval_axiom_msm(outer_msm), generator_g2),\n  )",
        );
        assert(texts(lines@) =~= spec_aiken_pairing_lines(sets, sp));
        join_strings(&lines, "\n")
    }

    /// The SHPLONK pairing check of the Plinth verifier (the sets must not
    /// be empty).
    pub fn plinth_shplonk_pairing_check(&self) -> (s: String)
        requires
            self.query_sets@.len() > 0,
        ensures
            s@ == join(spec_plinth_pairing_lines(sets_view(self.query_sets@), self.super_points@), "\n"@),
    {
        let ghost sets = sets_view(self.query_sets@);
        let ghost sp = self.super_points@;
        let mut lines: Vec<String> = Vec::new();
        push_literal_line(&mut lines, "    let !rotateOmega = BlsUtils.rotateOmega omega omegaInv");
        let ghost base = texts(lines@);
        let n = self.super_points.len();
        let mut i: usize = 0;
        while i < n
            invariant
                i <= n,
                n == sp.len(),
                sp == self.super_points@,
                texts(lines@) == base + Seq::new(i as nat, |k: int| spec_plinth_rotation_binding(sp[k])),
            decreases n - i,
        {
            push_line(&mut lines, plinth_rotation_binding(self.super_points[i]));
            i = i + 1;
            assert(texts(lines@) =~= base + Seq::new(i as nat, |k: int| spec_plinth_rotation_binding(sp[k])));
        }
        push_literal_line(&mut lines, "        !xn = powMod (x pieces) n");
        let first = &self.query_sets[0].points;
        let mut z0 = String::from_str("        !z0 = vanishing ");
        let l0 = plinth_rotation_list(first);
        z0.append(l0.as_str());
        z0.append(" (u pieces)");
        push_line(&mut lines, z0);
        let comp = complement_rotations(&self.super_points, first);
        let mut zi = String::from_str("        !z0DiffInv = recip (vanishing ");
        let lc = plinth_rotation_list(&comp);
        zi.append(lc.as_str());
        zi.append(" (u pieces))");
        push_line(&mut lines, zi);
        let ghost mid = texts(lines@);
        let m = self.query_sets.len();
        let mut j: usize = 0;
        while j < m
            invariant
                j <= m,
                m == sets.len(),
                sets == sets_view(self.query_sets@),
                sp == self.super_points@,
                texts(lines@) == mid + Seq::new(j as nat, |k: int| spec_plinth_set_contribution(k as nat, sets[k], sp)),
            decreases m - j,
        {
            push_line(&mut lines, self.plinth_set_contribution(j));
            j = j + 1;
            assert(texts(lines@) =~= mid + Seq::new(
                j as nat,
                |k: int| spec_plinth_set_contribution(k as nat, sets[k], sp),
            ));
        }
        let msm_names = numbered_list("msm", m);
        let r_names = numbered_list("r", m);
        let mut outer = String::from_str("        !outerMsm = foldl addRawMsm (RawMSM []) [");
        let jm = join_strings(&msm_names, ", ");
        outer.append(jm.as_str());
        outer.append("]");
        push_line(&mut lines, outer);
        let mut r_outer = String::from_str("        !rOuter = foldl (+) scalarZero [");
        let jr = join_strings(&r_names, ", ");
        r_outer.append(jr.as_str());
        r_outer.append("]");
        push_line(&mut lines, r_outer);
        push_literal_line(
            &mut lines,
            "        !outerMsm' =\n            addRawMsm\n                outerMsm\n                ( RawMSM\n                    [ RawMSMElement (negate rOuter) g1GeneratorBytes\n                    , RawMSMElement (negate z0) (shplonkH1 pieces)\n                    , RawMSMElement (u pieces) (shplonkH2 pieces)\n                    ]\n                )\n        !g2 = bls12_381_G2_uncompress bls12_381_G2_compressed_generator\n        !mlLeft = bls12_381_millerLoop (axiomDecompressG1 (shplonkH2 pieces)) sG2\n        !mlRight = bls12_381_millerLoop (evalAxiomMsm outerMsm') g2\n     in bls12_381_finalVerify mlLeft mlRight",
        );
        assert(texts(lines@) =~= spec_plinth_pairing_lines(sets, sp));
        join_strings(&lines, "\n")
    }

    /// The MSM of the vanishing polynomial's pieces in Aiken.
    pub fn aiken_vanishing_h_msm(&self) -> (s: String)
        ensures
            s@ == spec_aiken_vanishing_h_msm(self.quotient_poly_degree as nat),
    {
        let n = self.quotient_poly_degree;
        let mut elems: Vec<String> = Vec::new();
        let mut i: usize = 0;
        while i < n
            invariant
                i <= n,
                n == self.quotient_poly_degree,
                texts(elems@) == Seq::new(
                    i as nat,
                    |k: int|
                        "      MSMElement { scalar: "@ + spec_aiken_power("xn"@, k as nat) + ", g1: p."@ + indexed(
                            "h_"@,
                            k as nat,
                        ) + " },"@,
                ),
            decreases n - i,
        {
            let mut e = String::from_str("      MSMElement { scalar: ");
            let p = aiken_xn_power(i);
            e.append(p.as_str());
            e.append(", g1: p.");
            let h = numbered("h_", i);
            e.append(h.as_str());
            e.append(" },");
            push_line(&mut elems, e);
            i = i + 1;
            assert(texts(elems@) =~= Seq::new(
                i as nat,
                |k: int|
                    "      MSMElement { scalar: "@ + spec_aiken_power("xn"@, k as nat) + ", g1: p."@ + indexed(
                        "h_"@,
                        k as nat,
                    ) + " },"@,
            ));
        }
        let mut s = String::from_str("  MSM {\n    elements: [\n");
        let body = join_strings(&elems, "\n");
        s.append(body.as_str());
        s.append("\n    ],\n  }");
        s
    }

    /// The MSM of the vanishing polynomial's pieces in Plinth.
    pub fn plinth_vanishing_h_msm(&self) -> (s: String)
        ensures
            s@ == spec_plinth_vanishing_h_msm(self.quotient_poly_degree as nat),
    {
        let n = self.quotient_poly_degree;
        let mut elems: Vec<String> = Vec::new();
        let mut i: usize = 0;
        while i < n
            invariant
                i <= n,
                n == self.quotient_poly_degree,
                texts(elems@) == Seq::new(
                    i as nat,
                    |k: int|
                        "        RawMSMElement "@ + spec_plinth_xn_power(k as nat) + " ("@ + snake_to_camel(
                            indexed("h_"@, k as nat),
                        ) + " pieces)"@,
                ),
            decreases n - i,
        {
            let mut e = String::from_str("        RawMSMElement ");
            let p = plinth_xn_power(i);
            e.append(p.as_str());
            e.append(" (");
            let h = numbered("h_", i);
            let c = snake_to_lower_camel(h.as_str());
            e.append(c.as_str());
            e.append(" pieces)");
            push_line(&mut elems, e);
            i = i + 1;
            assert(texts(elems@) =~= Seq::new(
                i as nat,
                |k: int|
                    "        RawMSMElement "@ + spec_plinth_xn_power(k as nat) + " ("@ + snake_to_camel(
                        indexed("h_"@, k as nat),
                    ) + " pieces)"@,
            ));
        }
        let mut s = String::from_str("    RawMSM\n        [ ");
        let body = join_strings(&elems, "\n        , ");
        s.append(body.as_str());
        s.append("\n        ]");
        s
    }
}

} // verus!
