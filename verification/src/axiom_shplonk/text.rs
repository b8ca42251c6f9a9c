//! Pieces of generated Aiken and Plinth source.

use vstd::prelude::*;

use super::expression::Style;
use super::items::{ItemView, ProofItemKind, items_view};
use super::layout::AxiomLayout;
use super::names::{snake_to_camel, snake_to_lower_camel};
use crate::extraction::text::{decimal, push_decimal};

verus! {

/// The texts of `v`.
pub open spec fn texts(v: Seq<String>) -> Seq<Seq<char>> {
    Seq::new(v.len(), |i: int| v[i]@)
}

/// The parts separated by `sep`.
pub open spec fn join(parts: Seq<Seq<char>>, sep: Seq<char>) -> Seq<char>
    decreases parts.len(),
{
    if parts.len() == 0 {
        Seq::empty()
    } else if parts.len() == 1 {
        parts[0]
    } else {
        join(parts.drop_last(), sep) + sep + parts.last()
    }
}

/// Joins the parts with `sep`.
pub fn join_strings(parts: &Vec<String>, sep: &str) -> (s: String)
    ensures
        s@ == join(texts(parts@), sep@),
{
    let ghost t = texts(parts@);
    let mut s = String::new();
    let n = parts.len();
    let mut i: usize = 0;
    assert(t.take(0) =~= Seq::<Seq<char>>::empty());
    while i < n
        invariant
            i <= n,
            n == parts@.len(),
            t == texts(parts@),
            s@ == join(t.take(i as int), sep@),
        decreases n - i,
    {
        if i > 0 {
            s.append(sep);
        }
        s.append(parts[i].as_str());
        i = i + 1;
        proof {
            let p = t.take(i as int);
            assert(p.drop_last() =~= t.take(i - 1));
            assert(p.last() == parts@[i - 1]@);
            if i == 1 {
                assert(p =~= seq![parts@[0]@]);
            }
        }
    }
    assert(t.take(n as int) =~= t);
    s
}

/// Terms combined left to right with a binary operator written
/// `open acc mid term close`; `empty` when there is no term.
pub open spec fn fold_terms(
    terms: Seq<Seq<char>>,
    empty: Seq<char>,
    open: Seq<char>,
    mid: Seq<char>,
    close: Seq<char>,
) -> Seq<char>
    decreases terms.len(),
{
    if terms.len() == 0 {
        empty
    } else if terms.len() == 1 {
        terms[0]
    } else {
        open + fold_terms(terms.drop_last(), empty, open, mid, close) + mid + terms.last() + close
    }
}

fn fold_strings(terms: &Vec<String>, empty: &str, open: &str, mid: &str, close: &str) -> (s: String)
    ensures
        s@ == fold_terms(texts(terms@), empty@, open@, mid@, close@),
{
    let ghost t = texts(terms@);
    let n = terms.len();
    if n == 0 {
        return String::from_str(empty);
    }
    let mut acc = terms[0].clone();
    let mut i: usize = 1;
    assert(t.take(1) =~= seq![t[0]]);
    while i < n
        invariant
            1 <= i <= n,
            n == terms@.len(),
            t == texts(terms@),
            acc@ == fold_terms(t.take(i as int), empty@, open@, mid@, close@),
        decreases n - i,
    {
        let mut next = String::from_str(open);
        next.append(acc.as_str());
        next.append(mid);
        next.append(terms[i].as_str());
        next.append(close);
        acc = next;
        i = i + 1;
        proof {
            let p = t.take(i as int);
            assert(p.drop_last() =~= t.take(i - 1));
            assert(p.last() == terms@[i - 1]@);
        }
    }
    assert(t.take(n as int) =~= t);
    acc
}

/// Sum in Aiken: `add(add(a, b), c)`, `from_int(0)` when empty.
pub fn aiken_sum(terms: &Vec<String>) -> (s: String)
    ensures
        s@ == fold_terms(texts(terms@), "from_int(0)"@, "add("@, ", "@, ")"@),
{
    fold_strings(terms, "from_int(0)", "add(", ", ", ")")
}

/// Product in Aiken: `mul(mul(a, b), c)`, `from_int(1)` when empty.
pub fn aiken_product(terms: &Vec<String>) -> (s: String)
    ensures
        s@ == fold_terms(texts(terms@), "from_int(1)"@, "mul("@, ", "@, ")"@),
{
    fold_strings(terms, "from_int(1)", "mul(", ", ", ")")
}

/// Sum in Plinth: `((a + b) + c)`, `scalarZero` when empty.
pub fn plinth_sum(terms: &Vec<String>) -> (s: String)
    ensures
        s@ == fold_terms(texts(terms@), "scalarZero"@, "("@, " + "@, ")"@),
{
    fold_strings(terms, "scalarZero", "(", " + ", ")")
}

/// Product in Plinth: `((a * b) * c)`, `scalarOne` when empty.
pub fn plinth_product(terms: &Vec<String>) -> (s: String)
    ensures
        s@ == fold_terms(texts(terms@), "scalarOne"@, "("@, " * "@, ")"@),
{
    fold_strings(terms, "scalarOne", "(", " * ", ")")
}

/// A power in Aiken.
pub open spec fn spec_aiken_power(base: Seq<char>, exponent: nat) -> Seq<char> {
    if exponent == 0 {
        "from_int(1)"@
    } else if exponent == 1 {
        base
    } else {
        "scalar_pow("@ + base + ", "@ + decimal(exponent) + ")"@
    }
}

/// A power in Plinth.
pub open spec fn spec_plinth_power(base: Seq<char>, exponent: nat) -> Seq<char> {
    if exponent == 0 {
        "scalarOne"@
    } else if exponent == 1 {
        base
    } else {
        "powMod ("@ + base + ") "@ + decimal(exponent)
    }
}

/// A power text stands for the base to that power, in both languages: the
/// exponent 0 gives the unit (`from_int(1)`, `scalarOne`), the exponent 1 the
/// base itself, and, for a base other than the unit's text, distinct
/// exponents give distinct texts.
pub proof fn lemma_power_texts(base: Seq<char>, n: nat, m: nat)
    ensures
        spec_aiken_power(base, 0) == "from_int(1)"@,
        spec_plinth_power(base, 0) == "scalarOne"@,
        spec_aiken_power(base, 1) == base,
        spec_plinth_power(base, 1) == base,
        base != "from_int(1)"@ && n != m ==> spec_aiken_power(base, n) != spec_aiken_power(base, m),
        base != "scalarOne"@ && n != m ==> spec_plinth_power(base, n) != spec_plinth_power(base, m),
{
    if n < m {
        lemma_powers_differ(base, n, m);
    } else if m < n {
        lemma_powers_differ(base, m, n);
    }
}

proof fn lemma_powers_differ(base: Seq<char>, n: nat, m: nat)
    requires
        n < m,
    ensures
        base != "from_int(1)"@ ==> spec_aiken_power(base, n) != spec_aiken_power(base, m),
        base != "scalarOne"@ ==> spec_plinth_power(base, n) != spec_plinth_power(base, m),
{
    reveal_strlit("from_int(1)");
    reveal_strlit("scalarOne");
    reveal_strlit("scalar_pow(");
    reveal_strlit("powMod (");
    reveal_strlit(", ");
    reveal_strlit(") ");
    reveal_strlit(")");
    let ap = "scalar_pow("@ + base + ", "@;
    let pp = "powMod ("@ + base + ") "@;
    if m >= 2 {
        crate::extraction::text::lemma_decimal_len(m);
        if n >= 2 {
            crate::extraction::text::lemma_decimal_len(n);
            if spec_aiken_power(base, n) == spec_aiken_power(base, m) {
                let t = spec_aiken_power(base, n);
                assert(t == ap + (decimal(n) + ")"@));
                assert(t == ap + (decimal(m) + ")"@));
                assert(t.skip(ap.len() as int) =~= decimal(n) + ")"@);
                assert(t.skip(ap.len() as int) =~= decimal(m) + ")"@);
                assert((decimal(n) + ")"@).drop_last() =~= decimal(n));
                assert((decimal(m) + ")"@).drop_last() =~= decimal(m));
                crate::extraction::text::lemma_decimal_injective(n, m);
            }
            if spec_plinth_power(base, n) == spec_plinth_power(base, m) {
                let t = spec_plinth_power(base, n);
                assert(t.skip(pp.len() as int) =~= decimal(n));
                assert(t.skip(pp.len() as int) =~= decimal(m));
                crate::extraction::text::lemma_decimal_injective(n, m);
            }
        } else if n == 1 {
            assert(spec_aiken_power(base, m).len() > base.len());
            assert(spec_plinth_power(base, m).len() > base.len());
        } else {
            assert(spec_aiken_power(base, m)[0] == 's');
            assert(spec_plinth_power(base, m)[0] == 'p');
        }
    }
}

/// `base` to the power `exponent`, in Aiken.
pub fn aiken_power(base: &str, exponent: usize) -> (s: String)
    ensures
        s@ == spec_aiken_power(base@, exponent as nat),
{
    if exponent == 0 {
        String::from_str("from_int(1)")
    } else if exponent == 1 {
        String::from_str(base)
    } else {
        let mut s = String::from_str("scalar_pow(");
        s.append(base);
        s.append(", ");
        push_decimal(&mut s, exponent as u64);
        s.append(")");
        s
    }
}

/// `base` to the power `exponent`, in Plinth.
pub fn plinth_power(base: &str, exponent: usize) -> (s: String)
    ensures
        s@ == spec_plinth_power(base@, exponent as nat),
{
    if exponent == 0 {
        String::from_str("scalarOne")
    } else if exponent == 1 {
        String::from_str(base)
    } else {
        let mut s = String::from_str("powMod (");
        s.append(base);
        s.append(") ");
        push_decimal(&mut s, exponent as u64);
        s
    }
}

/// `xn` to a power, in Aiken.
pub fn aiken_xn_power(exponent: usize) -> (s: String)
    ensures
        s@ == spec_aiken_power("xn"@, exponent as nat),
{
    aiken_power("xn", exponent)
}

/// A power of `xn` in Plinth stands for `xn` to that power: the exponent 0
/// gives the unit, 1 gives `xn`, and distinct exponents give distinct texts.
pub proof fn lemma_xn_power_texts(n: nat, m: nat)
    ensures
        spec_plinth_xn_power(0) == "scalarOne"@,
        spec_plinth_xn_power(1) == "xn"@,
        n != m ==> spec_plinth_xn_power(n) != spec_plinth_xn_power(m),
{
    reveal_strlit("scalarOne");
    reveal_strlit("xn");
    reveal_strlit("powMod xn ");
    if n != m {
        crate::extraction::text::lemma_decimal_len(n);
        crate::extraction::text::lemma_decimal_len(m);
        let pre = "powMod xn "@;
        if n >= 2 && m >= 2 && spec_plinth_xn_power(n) == spec_plinth_xn_power(m) {
            let t = spec_plinth_xn_power(n);
            assert(t.skip(pre.len() as int) =~= decimal(n));
            assert(t.skip(pre.len() as int) =~= decimal(m));
            crate::extraction::text::lemma_decimal_injective(n, m);
        }
        if n < 2 || m < 2 {
            if spec_plinth_xn_power(n) == spec_plinth_xn_power(m) {
                if n >= 2 {
                    assert(spec_plinth_xn_power(n).len() > 9);
                } else if m >= 2 {
                    assert(spec_plinth_xn_power(m).len() > 9);
                } else {
                    assert(spec_plinth_xn_power(0).len() != spec_plinth_xn_power(1).len());
                }
            }
        }
    }
}

/// `xn` to a power, in Plinth.
pub open spec fn spec_plinth_xn_power(exponent: nat) -> Seq<char> {
    if exponent == 0 {
        "scalarOne"@
    } else if exponent == 1 {
        "xn"@
    } else {
        "powMod xn "@ + decimal(exponent)
    }
}

/// `xn` to a power, in Plinth.
pub fn plinth_xn_power(exponent: usize) -> (s: String)
    ensures
        s@ == spec_plinth_xn_power(exponent as nat),
{
    if exponent == 0 {
        String::from_str("scalarOne")
    } else if exponent == 1 {
        String::from_str("xn")
    } else {
        let mut s = String::from_str("powMod xn ");
        push_decimal(&mut s, exponent as u64);
        s
    }
}

/// The term `beta * x * delta^exponent` of a permutation column, in both
/// languages: the exponent 0 gives `beta * x` itself, and distinct exponents
/// (distinct columns) give distinct terms.
pub proof fn lemma_delta_terms(n: nat, m: nat)
    ensures
        spec_aiken_delta_term(0) == "mul(p.beta, p.x)"@,
        spec_plinth_delta_term(0) == "beta pieces * x pieces"@,
        n != m ==> spec_aiken_delta_term(n) != spec_aiken_delta_term(m),
        n != m ==> spec_plinth_delta_term(n) != spec_plinth_delta_term(m),
{
    if n < m {
        lemma_delta_differ(n, m);
    } else if m < n {
        lemma_delta_differ(m, n);
    }
}

proof fn lemma_delta_differ(n: nat, m: nat)
    requires
        n < m,
    ensures
        spec_aiken_delta_term(n) != spec_aiken_delta_term(m),
        spec_plinth_delta_term(n) != spec_plinth_delta_term(m),
{
    reveal_strlit("mul(p.beta, p.x)");
    reveal_strlit("mul(");
    reveal_strlit(", scalar_delta)");
    reveal_strlit(", scalar_pow(scalar_delta, ");
    reveal_strlit("))");
    reveal_strlit("beta pieces * x pieces");
    reveal_strlit(" * scalarDelta");
    reveal_strlit(" * powMod scalarDelta ");
    crate::extraction::text::lemma_decimal_len(n);
    crate::extraction::text::lemma_decimal_len(m);
    let ap = "mul("@ + "mul(p.beta, p.x)"@ + ", scalar_pow(scalar_delta, "@;
    let pp = "beta pieces * x pieces"@ + " * powMod scalarDelta "@;
    if n >= 2 {
        if spec_aiken_delta_term(n) == spec_aiken_delta_term(m) {
            let t = spec_aiken_delta_term(n);
            assert(t == ap + (decimal(n) + "))"@));
            assert(t == ap + (decimal(m) + "))"@));
            assert(t.skip(ap.len() as int) =~= decimal(n) + "))"@);
            assert(t.skip(ap.len() as int) =~= decimal(m) + "))"@);
            assert((decimal(n) + "))"@).subrange(0, decimal(n).len() as int) =~= decimal(n));
            assert((decimal(m) + "))"@).subrange(0, decimal(m).len() as int) =~= decimal(m));
            crate::extraction::text::lemma_decimal_injective(n, m);
        }
        if spec_plinth_delta_term(n) == spec_plinth_delta_term(m) {
            let t = spec_plinth_delta_term(n);
            assert(t.skip(pp.len() as int) =~= decimal(n));
            assert(t.skip(pp.len() as int) =~= decimal(m));
            crate::extraction::text::lemma_decimal_injective(n, m);
        }
    } else {
        assert(spec_aiken_delta_term(n).len() < spec_aiken_delta_term(m).len());
        assert(spec_plinth_delta_term(n).len() < spec_plinth_delta_term(m).len());
    }
}

/// `beta * x * delta^exponent`, in Aiken.
pub open spec fn spec_aiken_delta_term(exponent: nat) -> Seq<char> {
    if exponent == 0 {
        "mul(p.beta, p.x)"@
    } else if exponent == 1 {
        "mul("@ + "mul(p.beta, p.x)"@ + ", scalar_delta)"@
    } else {
        "mul("@ + "mul(p.beta, p.x)"@ + ", scalar_pow(scalar_delta, "@ + decimal(exponent) + "))"@
    }
}

/// `beta * x * delta^exponent`, in Aiken.
pub fn aiken_delta_term(exponent: usize) -> (s: String)
    ensures
        s@ == spec_aiken_delta_term(exponent as nat),
{
    if exponent == 0 {
        String::from_str("mul(p.beta, p.x)")
    } else if exponent == 1 {
        let mut s = String::from_str("mul(");
        s.append("mul(p.beta, p.x)");
        s.append(", scalar_delta)");
        s
    } else {
        let mut s = String::from_str("mul(");
        s.append("mul(p.beta, p.x)");
        s.append(", scalar_pow(scalar_delta, ");
        push_decimal(&mut s, exponent as u64);
        s.append("))");
        s
    }
}

/// `beta * x * delta^exponent`, in Plinth.
pub open spec fn spec_plinth_delta_term(exponent: nat) -> Seq<char> {
    if exponent == 0 {
        "beta pieces * x pieces"@
    } else if exponent == 1 {
        "beta pieces * x pieces"@ + " * scalarDelta"@
    } else {
        "beta pieces * x pieces"@ + " * powMod scalarDelta "@ + decimal(exponent)
    }
}

/// `beta * x * delta^exponent`, in Plinth.
pub fn plinth_delta_term(exponent: usize) -> (s: String)
    ensures
        s@ == spec_plinth_delta_term(exponent as nat),
{
    if exponent == 0 {
        String::from_str("beta pieces * x pieces")
    } else if exponent == 1 {
        let mut s = String::from_str("beta pieces * x pieces");
        s.append(" * scalarDelta");
        s
    } else {
        let mut s = String::from_str("beta pieces * x pieces");
        s.append(" * powMod scalarDelta ");
        push_decimal(&mut s, exponent as u64);
        s
    }
}

/// The snake-case name of the point at a rotation of x.
pub open spec fn rotation_snake(rotation: i32) -> Seq<char> {
    if rotation == 0 {
        "x_current"@
    } else if rotation > 0 {
        "x_rot_"@ + decimal(rotation as nat)
    } else {
        "x_rot_neg_"@ + decimal((-rotation) as nat)
    }
}

/// The name of the point at a rotation of x, snake case.
pub fn rotation_var_snake(rotation: i32) -> (s: String)
    ensures
        s@ == rotation_snake(rotation),
{
    if rotation == 0 {
        String::from_str("x_current")
    } else if rotation > 0 {
        let mut s = String::from_str("x_rot_");
        push_decimal(&mut s, rotation as u64);
        s
    } else {
        let mut s = String::from_str("x_rot_neg_");
        let m: i64 = rotation as i64;
        push_decimal(&mut s, (-m) as u64);
        s
    }
}

/// The name of the point at a rotation of x, in a style.
pub fn rotation_var(rotation: i32, style: Style) -> (s: String)
    ensures
        s@ == match style {
            Style::Aiken => rotation_snake(rotation),
            Style::Plinth => snake_to_camel(rotation_snake(rotation)),
        },
{
    let snake = rotation_var_snake(rotation);
    match style {
        Style::Aiken => snake,
        Style::Plinth => snake_to_lower_camel(snake.as_str()),
    }
}

/// The name of the point at a rotation of x, in Aiken.
pub fn aiken_rotation_var(rotation: i32) -> (s: String)
    ensures
        s@ == rotation_snake(rotation),
{
    rotation_var_snake(rotation)
}

/// The name of the point at a rotation of x, in Plinth.
pub fn plinth_rotation_var(rotation: i32) -> (s: String)
    ensures
        s@ == snake_to_camel(rotation_snake(rotation)),
{
    let snake = rotation_var_snake(rotation);
    snake_to_lower_camel(snake.as_str())
}

/// The field declarations of the proof's elements, one per line.
pub open spec fn spec_proof_fields(
    items: Seq<ItemView>,
    indent: Seq<char>,
    point_type: Seq<char>,
    scalar_type: Seq<char>,
) -> Seq<char> {
    join(
        Seq::new(
            items.len(),
            |i: int|
                indent + items[i].0 + ": "@ + (if items[i].1 == ProofItemKind::Point {
                    point_type
                } else {
                    scalar_type
                }) + ","@,
        ),
        "\n"@,
    )
}

/// The field declarations of the proof's elements in a style, one per line:
/// the indent, the name, then the point type or the scalar type.
pub open spec fn spec_styled_fields(
    items: Seq<ItemView>,
    indent: Seq<char>,
    point_type: Seq<char>,
    scalar_type: Seq<char>,
    style: Style,
) -> Seq<char> {
    join(
        Seq::new(
            items.len(),
            |i: int|
                indent + (match style {
                    Style::Aiken => items[i].0,
                    Style::Plinth => snake_to_camel(items[i].0),
                }) + ": "@ + (if items[i].1 == ProofItemKind::Point {
                    point_type
                } else {
                    scalar_type
                }) + ","@,
        ),
        "\n"@,
    )
}

impl AxiomLayout {
    /// The proof's fields in a style, with the given indent and types.
    pub fn proof_fields(&self, indent: &str, point_type: &str, scalar_type: &str, style: Style) -> (s: String)
        ensures
            s@ == spec_styled_fields(super::items::spec_proof_items(*self), indent@, point_type@, scalar_type@, style),
    {
        let items = self.proof_items();
        let ghost iv = items_view(items@);
        let mut lines: Vec<String> = Vec::new();
        let n = items.len();
        let mut i: usize = 0;
        while i < n
            invariant
                i <= n,
                n == items@.len(),
                iv == items_view(items@),
                texts(lines@) == Seq::new(
                    i as nat,
                    |k: int|
                        indent@ + (match style {
                            Style::Aiken => iv[k].0,
                            Style::Plinth => snake_to_camel(iv[k].0),
                        }) + ": "@ + (if iv[k].1 == ProofItemKind::Point {
                            point_type@
                        } else {
                            scalar_type@
                        }) + ","@,
                ),
            decreases n - i,
        {
            let mut line = String::from_str(indent);
            let name = items[i].name.for_style(style);
            line.append(name.as_str());
            line.append(": ");
            match items[i].kind {
                ProofItemKind::Point => line.append(point_type),
                _ => line.append(scalar_type),
            }
            line.append(",");
            let ghost before = texts(lines@);
            lines.push(line);
            i = i + 1;
            assert(texts(lines@) =~= before.push(line@));
            assert(texts(lines@) =~= Seq::new(
                i as nat,
                |k: int|
                    indent@ + (match style {
                        Style::Aiken => iv[k].0,
                        Style::Plinth => snake_to_camel(iv[k].0),
                    }) + ": "@ + (if iv[k].1 == ProofItemKind::Point {
                        point_type@
                    } else {
                        scalar_type@
                    }) + ","@,
            ));
        }
        join_strings(&lines, "\n")
    }

    /// The proof's fields in Aiken: points as byte arrays, scalars and
    /// challenges in a scalar state.
    pub fn aiken_proof_fields(&self) -> (s: String)
        ensures
            s@ == spec_proof_fields(
                super::items::spec_proof_items(*self),
                "  "@,
                "ByteArray"@,
                "State<Scalar>"@,
            ),
    {
        let items = self.proof_items();
        let ghost iv = items_view(items@);
        let mut lines: Vec<String> = Vec::new();
        let n = items.len();
        let mut i: usize = 0;
        while i < n
            invariant
                i <= n,
                n == items@.len(),
                iv == items_view(items@),
                texts(lines@) == Seq::new(
                    i as nat,
                    |k: int|
                        "  "@ + iv[k].0 + ": "@ + (if iv[k].1 == ProofItemKind::Point {
                            "ByteArray"@
                        } else {
                            "State<Scalar>"@
                        }) + ","@,
                ),
            decreases n - i,
        {
            let mut line = String::from_str("  ");
            line.append(items[i].name.snake.as_str());
            line.append(": ");
            match items[i].kind {
                ProofItemKind::Point => line.append("ByteArray"),
                _ => line.append("State<Scalar>"),
            }
            line.append(",");
            let ghost before = texts(lines@);
            lines.push(line);
            i = i + 1;
            assert(texts(lines@) =~= before.push(line@));
            assert(texts(lines@) =~= Seq::new(
                i as nat,
                |k: int|
                    "  "@ + iv[k].0 + ": "@ + (if iv[k].1 == ProofItemKind::Point {
                        "ByteArray"@
                    } else {
                        "State<Scalar>"@
                    }) + ","@,
            ));
        }
        join_strings(&lines, "\n")
    }
}

} // verus!
