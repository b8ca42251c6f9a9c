//! How the generated verifiers name rotated points, commitments and the
//! openings of a rotation set.

use vstd::prelude::*;

use super::layout::{AxiomLayout, CommitmentOpening, CommitmentRef, OpeningView, RotationSet, evals_view, openings_view};
use super::names::{aiken_access, indexed, indexed_mid, indexed_name, numbered, plinth_access, snake_to_camel, snake_to_lower_camel};
use super::text::{join, join_strings, rotation_snake, rotation_var_snake, texts};
use crate::extraction::text::{push_signed_decimal, signed_decimal};

verus! {

/// Appends one line.
pub fn push_line(lines: &mut Vec<String>, s: String)
    ensures
        texts(final(lines)@) == texts(old(lines)@).push(s@),
        final(lines)@.len() == old(lines)@.len() + 1,
{
    lines.push(s);
    assert(texts(lines@) =~= texts(old(lines)@).push(s@));
}

/// Appends a literal line.
pub fn push_literal_line(lines: &mut Vec<String>, s: &str)
    ensures
        texts(final(lines)@) == texts(old(lines)@).push(s@),
{
    push_line(lines, String::from_str(s));
}

/// Appends every line of `more`.
pub fn push_lines(lines: &mut Vec<String>, more: Vec<String>)
    ensures
        texts(final(lines)@) == texts(old(lines)@) + texts(more@),
{
    let ghost start = texts(lines@);
    let n = more.len();
    let mut i: usize = 0;
    while i < n
        invariant
            i <= n,
            n == more@.len(),
            texts(lines@) == start + texts(more@).take(i as int),
        decreases n - i,
    {
        push_line(lines, more[i].clone());
        i = i + 1;
        assert(texts(lines@) =~= start + texts(more@).take(i as int));
    }
    assert(texts(more@).take(n as int) =~= texts(more@));
}

/// A field of the proof in Aiken: `p.` and the name.
pub fn aiken_field(snake: &str) -> (s: String)
    ensures
        s@ == aiken_access(snake@),
{
    let mut s = String::from_str("p.");
    s.append(snake);
    s
}

/// A field of the proof in Plinth: the camel-case name applied to `pieces`.
pub fn plinth_field(snake: &str) -> (s: String)
    ensures
        s@ == plinth_access(snake@),
{
    let mut s = snake_to_lower_camel(snake);
    s.append(" pieces");
    s
}

/// The binding of a rotated point in Aiken.
pub open spec fn spec_aiken_rotation_binding(rotation: i32) -> Seq<char> {
    if rotation == 0 {
        "  let x_current = p.x"@
    } else {
        "  let "@ + rotation_snake(rotation) + " = rotate_omega(omega, omega_inv, p.x, "@ + signed_decimal(
            rotation as int,
        ) + ")"@
    }
}

/// The binding of a rotated point in Plinth.
pub open spec fn spec_plinth_rotation_binding(rotation: i32) -> Seq<char> {
    if rotation == 0 {
        "        !xCurrent = x pieces"@
    } else {
        "        !"@ + snake_to_camel(rotation_snake(rotation)) + " = rotateOmega (x pieces) "@ + signed_decimal(
            rotation as int,
        )
    }
}

/// Binds the point at `rotation` of x, in Aiken.
pub fn aiken_rotation_binding(rotation: i32) -> (s: String)
    ensures
        s@ == spec_aiken_rotation_binding(rotation),
{
    if rotation == 0 {
        String::from_str("  let x_current = p.x")
    } else {
        let mut s = String::from_str("  let ");
        let name = rotation_var_snake(rotation);
        s.append(name.as_str());
        s.append(" = rotate_omega(omega, omega_inv, p.x, ");
        push_signed_decimal(&mut s, rotation);
        s.append(")");
        s
    }
}

/// Binds the point at `rotation` of x, in Plinth.
pub fn plinth_rotation_binding(rotation: i32) -> (s: String)
    ensures
        s@ == spec_plinth_rotation_binding(rotation),
{
    if rotation == 0 {
        String::from_str("        !xCurrent = x pieces")
    } else {
        let mut s = String::from_str("        !");
        let snake = rotation_var_snake(rotation);
        let name = snake_to_lower_camel(snake.as_str());
        s.append(name.as_str());
        s.append(" = rotateOmega (x pieces) ");
        push_signed_decimal(&mut s, rotation);
        s
    }
}

/// The points at the rotations, as an Aiken list.
pub open spec fn spec_aiken_rotation_list(rotations: Seq<i32>) -> Seq<char> {
    "["@ + join(Seq::new(rotations.len(), |i: int| rotation_snake(rotations[i])), ", "@) + "]"@
}

/// The points at the rotations, as a Plinth list.
pub open spec fn spec_plinth_rotation_list(rotations: Seq<i32>) -> Seq<char> {
    "["@ + join(Seq::new(rotations.len(), |i: int| snake_to_camel(rotation_snake(rotations[i]))), ", "@)
        + "]"@
}

/// The points at the rotations, as an Aiken list.
pub fn aiken_rotation_list(rotations: &Vec<i32>) -> (s: String)
    ensures
        s@ == spec_aiken_rotation_list(rotations@),
{
    let mut names: Vec<String> = Vec::new();
    let n = rotations.len();
    let mut i: usize = 0;
    while i < n
        invariant
            i <= n,
            n == rotations@.len(),
            texts(names@) == Seq::new(i as nat, |k: int| rotation_snake(rotations@[k])),
        decreases n - i,
    {
        push_line(&mut names, rotation_var_snake(rotations[i]));
        i = i + 1;
        assert(texts(names@) =~= Seq::new(i as nat, |k: int| rotation_snake(rotations@[k])));
    }
    let mut s = String::from_str("[");
    let body = join_strings(&names, ", ");
    s.append(body.as_str());
    s.append("]");
    s
}

/// The points at the rotations, as a Plinth list.
pub fn plinth_rotation_list(rotations: &Vec<i32>) -> (s: String)
    ensures
        s@ == spec_plinth_rotation_list(rotations@),
{
    let mut names: Vec<String> = Vec::new();
    let n = rotations.len();
    let mut i: usize = 0;
    while i < n
        invariant
            i <= n,
            n == rotations@.len(),
            texts(names@) == Seq::new(i as nat, |k: int| snake_to_camel(rotation_snake(rotations@[k]))),
        decreases n - i,
    {
        let snake = rotation_var_snake(rotations[i]);
        push_line(&mut names, snake_to_lower_camel(snake.as_str()));
        i = i + 1;
        assert(texts(names@) =~= Seq::new(i as nat, |k: int| snake_to_camel(rotation_snake(rotations@[k]))));
    }
    let mut s = String::from_str("[");
    let body = join_strings(&names, ", ");
    s.append(body.as_str());
    s.append("]");
    s
}

/// How the Aiken verifier refers to a commitment; the vanishing polynomial
/// is opened through an MSM and has no reference.
pub open spec fn spec_aiken_commitment_ref(c: CommitmentRef) -> Seq<char> {
    match c {
        CommitmentRef::Advice(i) => aiken_access(indexed("advice_"@, i as nat)),
        CommitmentRef::Fixed(i) => indexed("fixed_"@, i as nat),
        CommitmentRef::PermutationCommon(i) => indexed("permutation_common_"@, i as nat),
        CommitmentRef::PermutationProduct(i) => aiken_access(indexed("permutation_product_"@, i as nat)),
        CommitmentRef::LookupPermutedInput(i) => aiken_access(indexed_mid("lookup_"@, i as nat, "_permuted_input"@)),
        CommitmentRef::LookupPermutedTable(i) => aiken_access(indexed_mid("lookup_"@, i as nat, "_permuted_table"@)),
        CommitmentRef::LookupProduct(i) => aiken_access(indexed_mid("lookup_"@, i as nat, "_product"@)),
        CommitmentRef::RandomPoly => aiken_access("random_poly"@),
        CommitmentRef::VanishingH => Seq::empty(),
    }
}

/// How the Plinth verifier refers to a commitment; the vanishing polynomial
/// is opened through an MSM and has no reference.
pub open spec fn spec_plinth_commitment_ref(c: CommitmentRef) -> Seq<char> {
    match c {
        CommitmentRef::Advice(i) => plinth_access(indexed("advice_"@, i as nat)),
        CommitmentRef::Fixed(i) => indexed("fixed"@, i as nat),
        CommitmentRef::PermutationCommon(i) => indexed("permutationCommon"@, i as nat),
        CommitmentRef::PermutationProduct(i) => plinth_access(indexed("permutation_product_"@, i as nat)),
        CommitmentRef::LookupPermutedInput(i) => plinth_access(indexed_mid("lookup_"@, i as nat, "_permuted_input"@)),
        CommitmentRef::LookupPermutedTable(i) => plinth_access(indexed_mid("lookup_"@, i as nat, "_permuted_table"@)),
        CommitmentRef::LookupProduct(i) => plinth_access(indexed_mid("lookup_"@, i as nat, "_product"@)),
        CommitmentRef::RandomPoly => plinth_access("random_poly"@),
        CommitmentRef::VanishingH => Seq::empty(),
    }
}

/// How the Aiken verifier refers to a commitment other than the vanishing
/// polynomial.
pub fn aiken_commitment_ref(commitment: &CommitmentRef) -> (s: String)
    requires
        !(*commitment is VanishingH),
    ensures
        s@ == spec_aiken_commitment_ref(*commitment),
{
    match commitment {
        CommitmentRef::Advice(i) => {
            let n = numbered("advice_", *i);
            aiken_field(n.as_str())
        },
        CommitmentRef::Fixed(i) => numbered("fixed_", *i),
        CommitmentRef::PermutationCommon(i) => numbered("permutation_common_", *i),
        CommitmentRef::PermutationProduct(i) => {
            let n = numbered("permutation_product_", *i);
            aiken_field(n.as_str())
        },
        CommitmentRef::LookupPermutedInput(i) => {
            let n = indexed_name("lookup_", *i, "_permuted_input");
            aiken_field(n.as_str())
        },
        CommitmentRef::LookupPermutedTable(i) => {
            let n = indexed_name("lookup_", *i, "_permuted_table");
            aiken_field(n.as_str())
        },
        CommitmentRef::LookupProduct(i) => {
            let n = indexed_name("lookup_", *i, "_product");
            aiken_field(n.as_str())
        },
        CommitmentRef::RandomPoly => aiken_field("random_poly"),
        CommitmentRef::VanishingH => String::new(),
    }
}

/// How the Plinth verifier refers to a commitment other than the vanishing
/// polynomial.
pub fn plinth_commitment_ref(commitment: &CommitmentRef) -> (s: String)
    requires
        !(*commitment is VanishingH),
    ensures
        s@ == spec_plinth_commitment_ref(*commitment),
{
    match commitment {
        CommitmentRef::Advice(i) => {
            let n = numbered("advice_", *i);
            plinth_field(n.as_str())
        },
        CommitmentRef::Fixed(i) => numbered("fixed", *i),
        CommitmentRef::PermutationCommon(i) => numbered("permutationCommon", *i),
        CommitmentRef::PermutationProduct(i) => {
            let n = numbered("permutation_product_", *i);
            plinth_field(n.as_str())
        },
        CommitmentRef::LookupPermutedInput(i) => {
            let n = indexed_name("lookup_", *i, "_permuted_input");
            plinth_field(n.as_str())
        },
        CommitmentRef::LookupPermutedTable(i) => {
            let n = indexed_name("lookup_", *i, "_permuted_table");
            plinth_field(n.as_str())
        },
        CommitmentRef::LookupProduct(i) => {
            let n = indexed_name("lookup_", *i, "_product");
            plinth_field(n.as_str())
        },
        CommitmentRef::RandomPoly => plinth_field("random_poly"),
        CommitmentRef::VanishingH => String::new(),
    }
}

/// The Aiken evaluations of an opening.
pub open spec fn aiken_evals(e: Seq<(i32, Seq<char>, Seq<char>)>) -> Seq<Seq<char>> {
    Seq::new(e.len(), |i: int| e[i].1)
}

/// The Plinth evaluations of an opening.
pub open spec fn plinth_evals(e: Seq<(i32, Seq<char>, Seq<char>)>) -> Seq<Seq<char>> {
    Seq::new(e.len(), |i: int| e[i].2)
}

/// An opening in Aiken: the vanishing polynomial through its MSM, any other
/// commitment as a point opening.
pub open spec fn spec_aiken_opening(o: OpeningView) -> Seq<char> {
    let evals = join(aiken_evals(o.1), ", "@);
    if o.0 is VanishingH {
        "Opening { msm: vanishing_h_msm(p, xn), evals: ["@ + evals + "] }"@
    } else {
        "point_opening("@ + spec_aiken_commitment_ref(o.0) + ", ["@ + evals + "])"@
    }
}

/// An opening in Plinth.
pub open spec fn spec_plinth_opening(o: OpeningView) -> Seq<char> {
    let evals = join(plinth_evals(o.1), ", "@);
    if o.0 is VanishingH {
        "Opening (vanishingHMsm pieces xn) ["@ + evals + "]"@
    } else {
        "pointOpening "@ + spec_plinth_commitment_ref(o.0) + " ["@ + evals + "]"@
    }
}

/// The openings of a set in Aiken, one per line.
pub open spec fn spec_aiken_openings_list(ops: Seq<OpeningView>) -> Seq<char> {
    "[\n"@ + join(Seq::new(ops.len(), |i: int| "        "@ + spec_aiken_opening(ops[i]) + ","@), "\n"@)
        + "\n      ]"@
}

/// The openings of a set in Plinth, on one line.
pub open spec fn spec_plinth_openings_list(ops: Seq<OpeningView>) -> Seq<char> {
    "["@ + join(Seq::new(ops.len(), |i: int| spec_plinth_opening(ops[i])), ", "@) + "]"@
}

/// One of the evaluations of an opening: Aiken's (`plinth` false) or
/// Plinth's.
fn eval_texts(opening: &CommitmentOpening, plinth: bool) -> (r: Vec<String>)
    ensures
        texts(r@) == if plinth {
            plinth_evals(evals_view(opening.evals@))
        } else {
            aiken_evals(evals_view(opening.evals@))
        },
{
    let ghost e = evals_view(opening.evals@);
    let mut r: Vec<String> = Vec::new();
    let n = opening.evals.len();
    let mut i: usize = 0;
    while i < n
        invariant
            i <= n,
            n == opening.evals@.len(),
            e == evals_view(opening.evals@),
            texts(r@) == if plinth {
                plinth_evals(e).take(i as int)
            } else {
                aiken_evals(e).take(i as int)
            },
        decreases n - i,
    {
        let t = if plinth {
            opening.evals[i].2.clone()
        } else {
            opening.evals[i].1.clone()
        };
        push_line(&mut r, t);
        i = i + 1;
        proof {
            if plinth {
                assert(texts(r@) =~= plinth_evals(e).take(i as int));
            } else {
                assert(texts(r@) =~= aiken_evals(e).take(i as int));
            }
        }
    }
    proof {
        assert(plinth_evals(e).take(n as int) =~= plinth_evals(e));
        assert(aiken_evals(e).take(n as int) =~= aiken_evals(e));
    }
    r
}

impl AxiomLayout {
    /// An opening in Aiken.
    pub fn aiken_opening(&self, opening: &CommitmentOpening) -> (s: String)
        ensures
            s@ == spec_aiken_opening(opening.oview()),
    {
        let evals = eval_texts(opening, false);
        let joined = join_strings(&evals, ", ");
        match opening.commitment {
            CommitmentRef::VanishingH => {
                let mut s = String::from_str("Opening { msm: vanishing_h_msm(p, xn), evals: [");
                s.append(joined.as_str());
                s.append("] }");
                s
            },
            _ => {
                let mut s = String::from_str("point_opening(");
                let r = aiken_commitment_ref(&opening.commitment);
                s.append(r.as_str());
                s.append(", [");
                s.append(joined.as_str());
                s.append("])");
                s
            },
        }
    }

    /// An opening in Plinth.
    pub fn plinth_opening(&self, opening: &CommitmentOpening) -> (s: String)
        ensures
            s@ == spec_plinth_opening(opening.oview()),
    {
        let evals = eval_texts(opening, true);
        let joined = join_strings(&evals, ", ");
        match opening.commitment {
            CommitmentRef::VanishingH => {
                let mut s = String::from_str("Opening (vanishingHMsm pieces xn) [");
                s.append(joined.as_str());
                s.append("]");
                s
            },
            _ => {
                let mut s = String::from_str("pointOpening ");
                let r = plinth_commitment_ref(&opening.commitment);
                s.append(r.as_str());
                s.append(" [");
                s.append(joined.as_str());
                s.append("]");
                s
            },
        }
    }

    /// The openings of a set in Aiken.
    pub fn aiken_openings_list(&self, set: &RotationSet) -> (s: String)
        ensures
            s@ == spec_aiken_openings_list(openings_view(set.commitments@)),
    {
        let commitments = &set.commitments;
        let ghost ops = openings_view(commitments@);
        let mut lines: Vec<String> = Vec::new();
        let n = commitments.len();
        let mut i: usize = 0;
        while i < n
            invariant
                i <= n,
                n == commitments@.len(),
                ops == openings_view(commitments@),
                texts(lines@) == Seq::new(i as nat, |k: int| "        "@ + spec_aiken_opening(ops[k]) + ","@),
            decreases n - i,
        {
            let mut line = String::from_str("        ");
            let o = self.aiken_opening(&commitments[i]);
            line.append(o.as_str());
            line.append(",");
            push_line(&mut lines, line);
            i = i + 1;
            assert(texts(lines@) =~= Seq::new(i as nat, |k: int| "        "@ + spec_aiken_opening(ops[k]) + ","@));
        }
        let mut s = String::from_str("[\n");
        let body = join_strings(&lines, "\n");
        s.append(body.as_str());
        s.append("\n      ]");
        s
    }

    /// The openings of a set in Plinth.
    pub fn plinth_openings_list(&self, set: &RotationSet) -> (s: String)
        ensures
            s@ == spec_plinth_openings_list(openings_view(set.commitments@)),
    {
        let commitments = &set.commitments;
        let ghost ops = openings_view(commitments@);
        let mut parts: Vec<String> = Vec::new();
        let n = commitments.len();
        let mut i: usize = 0;
        while i < n
            invariant
                i <= n,
                n == commitments@.len(),
                ops == openings_view(commitments@),
                texts(parts@) == Seq::new(i as nat, |k: int| spec_plinth_opening(ops[k])),
            decreases n - i,
        {
            push_line(&mut parts, self.plinth_opening(&commitments[i]));
            i = i + 1;
            assert(texts(parts@) =~= Seq::new(i as nat, |k: int| spec_plinth_opening(ops[k])));
        }
        let mut s = String::from_str("[");
        let body = join_strings(&parts, ", ");
        s.append(body.as_str());
        s.append("]");
        s
    }
}

} // verus!
