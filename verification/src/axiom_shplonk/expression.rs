//! The polynomial expressions of a constraint system, and how the generated
//! verifiers evaluate them from the proof's claimed evaluations.

use vstd::prelude::*;

use super::layout::{AxiomLayout, ColumnKind, PermutationColumn, query_index, spec_query_index};
use super::names::{aiken_access, indexed, numbered, plinth_access, snake_to_camel};
use crate::extraction::text::decimal;
use super::openings::{aiken_field, plinth_field, push_line};
use super::text::{join, join_strings, texts};
use crate::hex_bytes::{hex_encode, spec_hex_encode};

verus! {

/// A polynomial expression over the columns of a constraint system; the
/// scalars are held as their canonical little-endian bytes.
#[derive(Debug)]
pub enum GateExpression {
    Constant(Vec<u8>),
    Selector,
    Fixed { column: usize, rotation: i32 },
    Advice { column: usize, rotation: i32 },
    Instance,
    Challenge,
    Negated(Box<GateExpression>),
    Sum(Box<GateExpression>, Box<GateExpression>),
    Product(Box<GateExpression>, Box<GateExpression>),
    Scaled(Box<GateExpression>, Vec<u8>),
}

/// The input and table expressions of a lookup argument.
#[derive(Debug)]
pub struct LookupArgument {
    pub input: Vec<GateExpression>,
    pub table: Vec<GateExpression>,
}

/// Why an expression cannot be evaluated by a generated verifier.
#[derive(Clone, Copy, Debug, PartialEq, Eq, Structural)]
pub enum ExpressionError {
    /// Selectors are not supported.
    Selector,
    /// Instance columns are not supported.
    Instance,
    /// Circuit-defined challenges are not supported.
    Challenge,
    /// An advice column is used at a rotation the proof holds no evaluation for.
    MissingAdviceQuery { column: usize, rotation: i32 },
    /// A fixed column is used at a rotation the proof holds no evaluation for.
    MissingFixedQuery { column: usize, rotation: i32 },
}

/// A scalar literal in Aiken.
pub open spec fn spec_aiken_scalar(bytes: Seq<u8>) -> Seq<char> {
    "from_bytes_little_endian(#\""@ + spec_hex_encode(bytes) + "\")"@
}

/// A scalar literal in Plinth.
pub open spec fn spec_plinth_scalar(bytes: Seq<u8>) -> Seq<char> {
    "scalarFromLittleEndianHex (stringToBuiltinByteStringHex \""@ + spec_hex_encode(bytes) + "\")"@
}

/// A scalar literal in Aiken.
pub fn aiken_scalar_literal(bytes: &Vec<u8>) -> (s: String)
    ensures
        s@ == spec_aiken_scalar(bytes@),
{
    let mut s = String::from_str("from_bytes_little_endian(#\"");
    let h = hex_encode(bytes);
    s.append(h.as_str());
    s.append("\")");
    s
}

/// A scalar literal in Plinth.
pub fn plinth_scalar_literal(bytes: &Vec<u8>) -> (s: String)
    ensures
        s@ == spec_plinth_scalar(bytes@),
{
    let mut s = String::from_str("scalarFromLittleEndianHex (stringToBuiltinByteStringHex \"");
    let h = hex_encode(bytes);
    s.append(h.as_str());
    s.append("\")");
    s
}

/// The index of the advice query of a column at a rotation.
pub open spec fn spec_advice_index(l: AxiomLayout, column: usize, rotation: i32) -> Result<nat, ExpressionError> {
    match spec_query_index(l.advice_queries@, column, rotation) {
        Some(i) => Ok(i),
        None => Err(ExpressionError::MissingAdviceQuery { column, rotation }),
    }
}

/// The index of the fixed query of a column at a rotation.
pub open spec fn spec_fixed_index(l: AxiomLayout, column: usize, rotation: i32) -> Result<nat, ExpressionError> {
    match spec_query_index(l.fixed_queries@, column, rotation) {
        Some(i) => Ok(i),
        None => Err(ExpressionError::MissingFixedQuery { column, rotation }),
    }
}

/// The name of the evaluation a column query reads.
pub open spec fn spec_query_eval(l: AxiomLayout, advice: bool, column: usize, rotation: i32) -> Result<Seq<char>, ExpressionError> {
    if advice {
        match spec_advice_index(l, column, rotation) {
            Ok(i) => Ok(indexed("advice_eval_"@, i)),
            Err(e) => Err(e),
        }
    } else {
        match spec_fixed_index(l, column, rotation) {
            Ok(i) => Ok(indexed("fixed_eval_"@, i)),
            Err(e) => Err(e),
        }
    }
}

/// How a generated verifier writes expressions.
#[derive(Clone, Copy, Debug, PartialEq, Eq, Structural)]
pub enum Style {
    Aiken,
    Plinth,
}

/// The access to a field of the proof, in a style.
pub open spec fn access(style: Style, snake: Seq<char>) -> Seq<char> {
    match style {
        Style::Aiken => aiken_access(snake),
        Style::Plinth => plinth_access(snake),
    }
}

/// A scalar literal, in a style.
pub open spec fn scalar_literal(style: Style, bytes: Seq<u8>) -> Seq<char> {
    match style {
        Style::Aiken => spec_aiken_scalar(bytes),
        Style::Plinth => spec_plinth_scalar(bytes),
    }
}

/// A negation, in a style.
pub open spec fn negated(style: Style, a: Seq<char>) -> Seq<char> {
    match style {
        Style::Aiken => "neg("@ + a + ")"@,
        Style::Plinth => "negate ("@ + a + ")"@,
    }
}

/// A sum, in a style.
pub open spec fn summed(style: Style, a: Seq<char>, b: Seq<char>) -> Seq<char> {
    match style {
        Style::Aiken => "add("@ + a + ", "@ + b + ")"@,
        Style::Plinth => "("@ + a + " + "@ + b + ")"@,
    }
}

/// A product, in a style.
pub open spec fn multiplied(style: Style, a: Seq<char>, b: Seq<char>) -> Seq<char> {
    match style {
        Style::Aiken => "mul("@ + a + ", "@ + b + ")"@,
        Style::Plinth => "("@ + a + " * "@ + b + ")"@,
    }
}

/// The text of an expression, or the first unsupported part, operands from
/// left to right.
pub open spec fn spec_expression(l: AxiomLayout, style: Style, e: GateExpression) -> Result<Seq<char>, ExpressionError>
    decreases e,
{
    match e {
        GateExpression::Constant(c) => Ok(scalar_literal(style, c@)),
        GateExpression::Selector => Err(ExpressionError::Selector),
        GateExpression::Fixed { column, rotation } => match spec_query_eval(l, false, column, rotation) {
            Ok(n) => Ok(access(style, n)),
            Err(x) => Err(x),
        },
        GateExpression::Advice { column, rotation } => match spec_query_eval(l, true, column, rotation) {
            Ok(n) => Ok(access(style, n)),
            Err(x) => Err(x),
        },
        GateExpression::Instance => Err(ExpressionError::Instance),
        GateExpression::Challenge => Err(ExpressionError::Challenge),
        GateExpression::Negated(a) => match spec_expression(l, style, *a) {
            Ok(t) => Ok(negated(style, t)),
            Err(x) => Err(x),
        },
        GateExpression::Sum(a, b) => match spec_expression(l, style, *a) {
            Ok(ta) => match spec_expression(l, style, *b) {
                Ok(tb) => Ok(summed(style, ta, tb)),
                Err(x) => Err(x),
            },
            Err(x) => Err(x),
        },
        GateExpression::Product(a, b) => match spec_expression(l, style, *a) {
            Ok(ta) => match spec_expression(l, style, *b) {
                Ok(tb) => Ok(multiplied(style, ta, tb)),
                Err(x) => Err(x),
            },
            Err(x) => Err(x),
        },
        GateExpression::Scaled(a, c) => match spec_expression(l, style, *a) {
            Ok(t) => Ok(multiplied(style, t, scalar_literal(style, c@))),
            Err(x) => Err(x),
        },
    }
}

/// The texts of expressions, or the first error.
pub open spec fn spec_expressions(l: AxiomLayout, style: Style, es: Seq<GateExpression>) -> Result<Seq<Seq<char>>, ExpressionError>
    decreases es.len(),
{
    if es.len() == 0 {
        Ok(Seq::empty())
    } else {
        match spec_expressions(l, style, es.drop_last()) {
            Ok(ts) => match spec_expression(l, style, es.last()) {
                Ok(t) => Ok(ts.push(t)),
                Err(x) => Err(x),
            },
            Err(x) => Err(x),
        }
    }
}

/// Several expressions combined with powers of theta, in a style; a
/// single one as it is, none as zero.
pub open spec fn spec_compressed(style: Style, ts: Seq<Seq<char>>) -> Seq<char> {
    if ts.len() == 0 {
        match style {
            Style::Aiken => "from_int(0)"@,
            Style::Plinth => "scalarZero"@,
        }
    } else if ts.len() == 1 {
        ts[0]
    } else {
        match style {
            Style::Aiken => "foldl(["@ + join(ts, ", "@) + "], from_int(0), fn(expr, acc) { add(mul(acc, p.theta), expr) })"@,
            Style::Plinth => "foldl (\\acc expr -> acc * theta pieces + expr) scalarZero ["@ + join(ts, ", "@) + "]"@,
        }
    }
}

/// The compressed text of a lookup's expressions, or the first error.
pub open spec fn spec_compressed_lookup(l: AxiomLayout, style: Style, es: Seq<GateExpression>) -> Result<Seq<char>, ExpressionError> {
    match spec_expressions(l, style, es) {
        Ok(ts) => Ok(spec_compressed(style, ts)),
        Err(x) => Err(x),
    }
}

/// The evaluation of a permutation column at the current row.
pub open spec fn spec_permutation_column_eval(l: AxiomLayout, style: Style, column: PermutationColumn) -> Result<Seq<char>, ExpressionError> {
    match column.kind {
        ColumnKind::Advice => match spec_query_eval(l, true, column.column, 0) {
            Ok(n) => Ok(access(style, n)),
            Err(x) => Err(x),
        },
        ColumnKind::Fixed => match spec_query_eval(l, false, column.column, 0) {
            Ok(n) => Ok(access(style, n)),
            Err(x) => Err(x),
        },
        ColumnKind::Instance => Err(ExpressionError::Instance),
    }
}

/// A field of the proof, in a style.
pub fn field_in(style: Style, snake: &str) -> (s: String)
    ensures
        s@ == access(style, snake@),
{
    match style {
        Style::Aiken => aiken_field(snake),
        Style::Plinth => plinth_field(snake),
    }
}

fn scalar_in(style: Style, bytes: &Vec<u8>) -> (s: String)
    ensures
        s@ == scalar_literal(style, bytes@),
{
    match style {
        Style::Aiken => aiken_scalar_literal(bytes),
        Style::Plinth => plinth_scalar_literal(bytes),
    }
}

fn unary(style: Style, a: String) -> (s: String)
    ensures
        s@ == negated(style, a@),
{
    let mut s = match style {
        Style::Aiken => String::from_str("neg("),
        Style::Plinth => String::from_str("negate ("),
    };
    s.append(a.as_str());
    s.append(")");
    s
}

fn binary(style: Style, sum: bool, a: String, b: String) -> (s: String)
    ensures
        s@ == if sum { summed(style, a@, b@) } else { multiplied(style, a@, b@) },
{
    match style {
        Style::Aiken => {
            let mut s = if sum { String::from_str("add(") } else { String::from_str("mul(") };
            s.append(a.as_str());
            s.append(", ");
            s.append(b.as_str());
            s.append(")");
            s
        },
        Style::Plinth => {
            let mut s = String::from_str("(");
            s.append(a.as_str());
            if sum {
                s.append(" + ");
            } else {
                s.append(" * ");
            }
            s.append(b.as_str());
            s.append(")");
            s
        },
    }
}

impl AxiomLayout {
    /// The index of the advice query of a column at a rotation.
    pub fn advice_query_index(&self, column: usize, rotation: i32) -> (r: Result<usize, ExpressionError>)
        ensures
            match spec_advice_index(*self, column, rotation) {
                Ok(i) => r == Ok::<usize, ExpressionError>(i as usize) && i < self.advice_queries@.len(),
                Err(e) => r == Err::<usize, ExpressionError>(e),
            },
    {
        match query_index(&self.advice_queries, column, rotation) {
            Some(i) => Ok(i),
            None => Err(ExpressionError::MissingAdviceQuery { column, rotation }),
        }
    }

    /// The index of the fixed query of a column at a rotation.
    pub fn fixed_query_index(&self, column: usize, rotation: i32) -> (r: Result<usize, ExpressionError>)
        ensures
            match spec_fixed_index(*self, column, rotation) {
                Ok(i) => r == Ok::<usize, ExpressionError>(i as usize) && i < self.fixed_queries@.len(),
                Err(e) => r == Err::<usize, ExpressionError>(e),
            },
    {
        match query_index(&self.fixed_queries, column, rotation) {
            Some(i) => Ok(i),
            None => Err(ExpressionError::MissingFixedQuery { column, rotation }),
        }
    }

    fn query_eval_in(&self, style: Style, advice: bool, column: usize, rotation: i32) -> (r: Result<String, ExpressionError>)
        ensures
            match spec_query_eval(*self, advice, column, rotation) {
                Ok(n) => r matches Ok(s) && s@ == access(style, n),
                Err(e) => r == Err::<String, ExpressionError>(e),
            },
    {
        if advice {
            match self.advice_query_index(column, rotation) {
                Ok(i) => {
                    let len = self.advice_queries.len();
                    assert(spec_advice_index(*self, column, rotation) == Ok::<nat, ExpressionError>(i as nat));
                    let n = numbered("advice_eval_", i);
                    Ok(field_in(style, n.as_str()))
                },
                Err(e) => Err(e),
            }
        } else {
            match self.fixed_query_index(column, rotation) {
                Ok(i) => {
                    let len = self.fixed_queries.len();
                    assert(spec_fixed_index(*self, column, rotation) == Ok::<nat, ExpressionError>(i as nat));
                    let n = numbered("fixed_eval_", i);
                    Ok(field_in(style, n.as_str()))
                },
                Err(e) => Err(e),
            }
        }
    }

    /// The text of an expression in a style: an error for selectors,
    /// instance columns, challenges, and queries the proof does not hold.
    pub fn expression_in(&self, style: Style, expression: &GateExpression) -> (r: Result<String, ExpressionError>)
        ensures
            match spec_expression(*self, style, *expression) {
                Ok(t) => r matches Ok(s) && s@ == t,
                Err(e) => r == Err::<String, ExpressionError>(e),
            },
        decreases expression,
    {
        match expression {
            GateExpression::Constant(c) => Ok(scalar_in(style, c)),
            GateExpression::Selector => Err(ExpressionError::Selector),
            GateExpression::Fixed { column, rotation } => self.query_eval_in(style, false, *column, *rotation),
            GateExpression::Advice { column, rotation } => self.query_eval_in(style, true, *column, *rotation),
            GateExpression::Instance => Err(ExpressionError::Instance),
            GateExpression::Challenge => Err(ExpressionError::Challenge),
            GateExpression::Negated(a) => match self.expression_in(style, a) {
                Ok(t) => Ok(unary(style, t)),
                Err(e) => Err(e),
            },
            GateExpression::Sum(a, b) => match self.expression_in(style, a) {
                Ok(ta) => match self.expression_in(style, b) {
                    Ok(tb) => Ok(binary(style, true, ta, tb)),
                    Err(e) => Err(e),
                },
                Err(e) => Err(e),
            },
            GateExpression::Product(a, b) => match self.expression_in(style, a) {
                Ok(ta) => match self.expression_in(style, b) {
                    Ok(tb) => Ok(binary(style, false, ta, tb)),
                    Err(e) => Err(e),
                },
                Err(e) => Err(e),
            },
            GateExpression::Scaled(a, c) => match self.expression_in(style, a) {
                Ok(t) => {
                    let lit = scalar_in(style, c);
                    Ok(binary(style, false, t, lit))
                },
                Err(e) => Err(e),
            },
        }
    }

    /// The text of an expression in Aiken.
    pub fn aiken_expression(&self, expression: &GateExpression) -> (r: Result<String, ExpressionError>)
        ensures
            match spec_expression(*self, Style::Aiken, *expression) {
                Ok(t) => r matches Ok(s) && s@ == t,
                Err(e) => r == Err::<String, ExpressionError>(e),
            },
    {
        self.expression_in(Style::Aiken, expression)
    }

    /// The text of an expression in Plinth.
    pub fn plinth_expression(&self, expression: &GateExpression) -> (r: Result<String, ExpressionError>)
        ensures
            match spec_expression(*self, Style::Plinth, *expression) {
                Ok(t) => r matches Ok(s) && s@ == t,
                Err(e) => r == Err::<String, ExpressionError>(e),
            },
    {
        self.expression_in(Style::Plinth, expression)
    }

    /// The texts of several expressions, or the first error.
    pub fn expressions_in(&self, style: Style, expressions: &Vec<GateExpression>) -> (r: Result<Vec<String>, ExpressionError>)
        ensures
            match spec_expressions(*self, style, expressions@) {
                Ok(ts) => r matches Ok(v) && texts(v@) == ts,
                Err(e) => r == Err::<Vec<String>, ExpressionError>(e),
            },
    {
        let mut out: Vec<String> = Vec::new();
        let n = expressions.len();
        let mut i: usize = 0;
        assert(expressions@.take(0) =~= Seq::<GateExpression>::empty());
        assert(texts(out@) =~= Seq::<Seq<char>>::empty());
        while i < n
            invariant
                i <= n,
                n == expressions@.len(),
                spec_expressions(*self, style, expressions@.take(i as int)) == Ok::<Seq<Seq<char>>, ExpressionError>(texts(out@)),
            decreases n - i,
        {
            proof {
                assert(expressions@.take(i + 1).drop_last() =~= expressions@.take(i as int));
                assert(expressions@.take(i + 1).last() == expressions@[i as int]);
            }
            match self.expression_in(style, &expressions[i]) {
                Ok(t) => {
                    push_line(&mut out, t);
                },
                Err(e) => {
                    proof {
                        lemma_expressions_error_stays(*self, style, expressions@, i + 1);
                    }
                    return Err(e);
                },
            }
            i = i + 1;
        }
        assert(expressions@.take(n as int) =~= expressions@);
        Ok(out)
    }

    /// A lookup's expressions combined with powers of theta, in a style.
    pub fn compressed_lookup_in(&self, style: Style, expressions: &Vec<GateExpression>) -> (r: Result<String, ExpressionError>)
        ensures
            match spec_compressed_lookup(*self, style, expressions@) {
                Ok(t) => r matches Ok(s) && s@ == t,
                Err(e) => r == Err::<String, ExpressionError>(e),
            },
    {
        match self.expressions_in(style, expressions) {
            Err(e) => Err(e),
            Ok(ts) => {
                let n = ts.len();
                if n == 0 {
                    match style {
                        Style::Aiken => Ok(String::from_str("from_int(0)")),
                        Style::Plinth => Ok(String::from_str("scalarZero")),
                    }
                } else if n == 1 {
                    Ok(ts[0].clone())
                } else {
                    let body = join_strings(&ts, ", ");
                    match style {
                        Style::Aiken => {
                            let mut s = String::from_str("foldl([");
                            s.append(body.as_str());
                            s.append("], from_int(0), fn(expr, acc) { add(mul(acc, p.theta), expr) })");
                            Ok(s)
                        },
                        Style::Plinth => {
                            let mut s = String::from_str("foldl (\\acc expr -> acc * theta pieces + expr) scalarZero [");
                            s.append(body.as_str());
                            s.append("]");
                            Ok(s)
                        },
                    }
                }
            },
        }
    }

    /// A lookup's expressions combined in Aiken.
    pub fn aiken_compressed_lookup(&self, expressions: &Vec<GateExpression>) -> (r: Result<String, ExpressionError>)
        ensures
            match spec_compressed_lookup(*self, Style::Aiken, expressions@) {
                Ok(t) => r matches Ok(s) && s@ == t,
                Err(e) => r == Err::<String, ExpressionError>(e),
            },
    {
        self.compressed_lookup_in(Style::Aiken, expressions)
    }

    /// A lookup's expressions combined in Plinth.
    pub fn plinth_compressed_lookup(&self, expressions: &Vec<GateExpression>) -> (r: Result<String, ExpressionError>)
        ensures
            match spec_compressed_lookup(*self, Style::Plinth, expressions@) {
                Ok(t) => r matches Ok(s) && s@ == t,
                Err(e) => r == Err::<String, ExpressionError>(e),
            },
    {
        self.compressed_lookup_in(Style::Plinth, expressions)
    }

    /// The evaluation of a permutation column at the current row, in a
    /// style: an error for instance columns and columns the proof holds no
    /// current evaluation of.
    pub fn permutation_column_eval_in(&self, style: Style, column: &PermutationColumn) -> (r: Result<String, ExpressionError>)
        ensures
            match spec_permutation_column_eval(*self, style, *column) {
                Ok(t) => r matches Ok(s) && s@ == t,
                Err(e) => r == Err::<String, ExpressionError>(e),
            },
    {
        match column.kind {
            ColumnKind::Advice => self.query_eval_in(style, true, column.column, 0),
            ColumnKind::Fixed => self.query_eval_in(style, false, column.column, 0),
            ColumnKind::Instance => Err(ExpressionError::Instance),
        }
    }

    /// The evaluation of a permutation column in Aiken.
    pub fn aiken_permutation_column_eval(&self, column: &PermutationColumn) -> (r: Result<String, ExpressionError>)
        ensures
            match spec_permutation_column_eval(*self, Style::Aiken, *column) {
                Ok(t) => r matches Ok(s) && s@ == t,
                Err(e) => r == Err::<String, ExpressionError>(e),
            },
    {
        self.permutation_column_eval_in(Style::Aiken, column)
    }

    /// The evaluation of a permutation column in Plinth.
    pub fn plinth_permutation_column_eval(&self, column: &PermutationColumn) -> (r: Result<String, ExpressionError>)
        ensures
            match spec_permutation_column_eval(*self, Style::Plinth, *column) {
                Ok(t) => r matches Ok(s) && s@ == t,
                Err(e) => r == Err::<String, ExpressionError>(e),
            },
    {
        self.permutation_column_eval_in(Style::Plinth, column)
    }
}

/// Once a prefix of the expressions fails, the whole list fails the same way.
proof fn lemma_expressions_error_stays(l: AxiomLayout, style: Style, es: Seq<GateExpression>, p: int)
    requires
        0 <= p <= es.len(),
        spec_expressions(l, style, es.take(p)) is Err,
    ensures
        spec_expressions(l, style, es) == spec_expressions(l, style, es.take(p)),
    decreases es.len() - p,
{
    if p < es.len() {
        assert(es.take(p + 1).drop_last() =~= es.take(p));
        lemma_expressions_error_stays(l, style, es, p + 1);
    } else {
        assert(es.take(p) =~= es);
    }
}

/// How each operation of an expression reads in both languages, in terms
/// of the texts of its operands: a scaled expression and a product are
/// multiplications (`mul(a, b)` in Aiken, `(a * b)` in Plinth), a sum an
/// addition (`add(a, b)`, `(a + b)`), a negation a negation (`neg(a)`,
/// `negate (a)`), a constant its little-endian hexadecimal bytes, and a
/// column query the proof's evaluation at the query's index.
pub open spec fn reads_as_its_operation(l: AxiomLayout, e: GateExpression) -> bool {
    let ak = spec_expression(l, Style::Aiken, e);
    let pl = spec_expression(l, Style::Plinth, e);
    match e {
        GateExpression::Constant(c) => {
            &&& ak == Ok::<Seq<char>, ExpressionError>("from_bytes_little_endian(#\""@ + spec_hex_encode(c@) + "\")"@)
            &&& pl == Ok::<Seq<char>, ExpressionError>(
                "scalarFromLittleEndianHex (stringToBuiltinByteStringHex \""@ + spec_hex_encode(c@) + "\")"@,
            )
        },
        GateExpression::Advice { column, rotation } => match spec_query_index(l.advice_queries@, column, rotation) {
            Some(i) => {
                &&& ak == Ok::<Seq<char>, ExpressionError>("p."@ + ("advice_eval_"@ + decimal(i)))
                &&& pl == Ok::<Seq<char>, ExpressionError>(snake_to_camel("advice_eval_"@ + decimal(i)) + " pieces"@)
            },
            None => ak == Err::<Seq<char>, ExpressionError>(ExpressionError::MissingAdviceQuery { column, rotation }),
        },
        GateExpression::Fixed { column, rotation } => match spec_query_index(l.fixed_queries@, column, rotation) {
            Some(i) => {
                &&& ak == Ok::<Seq<char>, ExpressionError>("p."@ + ("fixed_eval_"@ + decimal(i)))
                &&& pl == Ok::<Seq<char>, ExpressionError>(snake_to_camel("fixed_eval_"@ + decimal(i)) + " pieces"@)
            },
            None => ak == Err::<Seq<char>, ExpressionError>(ExpressionError::MissingFixedQuery { column, rotation }),
        },
        GateExpression::Negated(a) => match (spec_expression(l, Style::Aiken, *a), spec_expression(l, Style::Plinth, *a)) {
            (Ok(ta), Ok(tp)) => {
                &&& ak == Ok::<Seq<char>, ExpressionError>("neg("@ + ta + ")"@)
                &&& pl == Ok::<Seq<char>, ExpressionError>("negate ("@ + tp + ")"@)
            },
            _ => ak is Err,
        },
        GateExpression::Sum(a, b) => match (
            spec_expression(l, Style::Aiken, *a),
            spec_expression(l, Style::Plinth, *a),
            spec_expression(l, Style::Aiken, *b),
            spec_expression(l, Style::Plinth, *b),
        ) {
            (Ok(ta), Ok(tp), Ok(ua), Ok(up)) => {
                &&& ak == Ok::<Seq<char>, ExpressionError>("add("@ + ta + ", "@ + ua + ")"@)
                &&& pl == Ok::<Seq<char>, ExpressionError>("("@ + tp + " + "@ + up + ")"@)
            },
            _ => ak is Err,
        },
        GateExpression::Product(a, b) => match (
            spec_expression(l, Style::Aiken, *a),
            spec_expression(l, Style::Plinth, *a),
            spec_expression(l, Style::Aiken, *b),
            spec_expression(l, Style::Plinth, *b),
        ) {
            (Ok(ta), Ok(tp), Ok(ua), Ok(up)) => {
                &&& ak == Ok::<Seq<char>, ExpressionError>("mul("@ + ta + ", "@ + ua + ")"@)
                &&& pl == Ok::<Seq<char>, ExpressionError>("("@ + tp + " * "@ + up + ")"@)
            },
            _ => ak is Err,
        },
        GateExpression::Scaled(a, c) => match (spec_expression(l, Style::Aiken, *a), spec_expression(l, Style::Plinth, *a)) {
            (Ok(ta), Ok(tp)) => {
                &&& ak == Ok::<Seq<char>, ExpressionError>(
                    "mul("@ + ta + ", "@ + ("from_bytes_little_endian(#\""@ + spec_hex_encode(c@) + "\")"@) + ")"@,
                )
                &&& pl == Ok::<Seq<char>, ExpressionError>(
                    "("@ + tp + " * "@ + ("scalarFromLittleEndianHex (stringToBuiltinByteStringHex \""@ + spec_hex_encode(
                        c@,
                    ) + "\")"@) + ")"@,
                )
            },
            _ => ak is Err,
        },
        GateExpression::Selector => ak == Err::<Seq<char>, ExpressionError>(ExpressionError::Selector),
        GateExpression::Instance => ak == Err::<Seq<char>, ExpressionError>(ExpressionError::Instance),
        GateExpression::Challenge => ak == Err::<Seq<char>, ExpressionError>(ExpressionError::Challenge),
    }
}

/// Rendering is faithful and does not depend on the language: an
/// expression has an Aiken text exactly when it has a Plinth text, with
/// the same error otherwise, and every operation reads as that
/// operation on its operands' texts (so both texts denote the same value).
pub proof fn lemma_expression_styles(l: AxiomLayout, e: GateExpression)
    ensures
        spec_expression(l, Style::Aiken, e) is Ok <==> spec_expression(l, Style::Plinth, e) is Ok,
        spec_expression(l, Style::Aiken, e) is Err ==> spec_expression(l, Style::Plinth, e) == spec_expression(
            l,
            Style::Aiken,
            e,
        ),
        reads_as_its_operation(l, e),
    decreases e,
{
    match e {
        GateExpression::Negated(a) => {
            lemma_expression_styles(l, *a);
        },
        GateExpression::Sum(a, b) => {
            lemma_expression_styles(l, *a);
            lemma_expression_styles(l, *b);
        },
        GateExpression::Product(a, b) => {
            lemma_expression_styles(l, *a);
            lemma_expression_styles(l, *b);
        },
        GateExpression::Scaled(a, _) => {
            lemma_expression_styles(l, *a);
        },
        _ => {},
    }
}

/// A permutation column is read, in both languages, as the proof's
/// evaluation of that column at the current row: the advice or fixed
/// evaluation at the index of its query at rotation 0. Instance columns and
/// columns without such a query cannot be read, in either language, for the
/// same reason.
pub proof fn lemma_permutation_column_evals(l: AxiomLayout, c: PermutationColumn)
    ensures
        match c.kind {
            ColumnKind::Advice => match spec_query_index(l.advice_queries@, c.column, 0) {
                Some(i) => {
                    &&& spec_permutation_column_eval(l, Style::Aiken, c) == Ok::<Seq<char>, ExpressionError>(
                        "p."@ + ("advice_eval_"@ + decimal(i)),
                    )
                    &&& spec_permutation_column_eval(l, Style::Plinth, c) == Ok::<Seq<char>, ExpressionError>(
                        snake_to_camel("advice_eval_"@ + decimal(i)) + " pieces"@,
                    )
                },
                None => {
                    &&& spec_permutation_column_eval(l, Style::Aiken, c) == Err::<Seq<char>, ExpressionError>(
                        ExpressionError::MissingAdviceQuery { column: c.column, rotation: 0 },
                    )
                    &&& spec_permutation_column_eval(l, Style::Plinth, c) == spec_permutation_column_eval(l, Style::Aiken, c)
                },
            },
            ColumnKind::Fixed => match spec_query_index(l.fixed_queries@, c.column, 0) {
                Some(i) => {
                    &&& spec_permutation_column_eval(l, Style::Aiken, c) == Ok::<Seq<char>, ExpressionError>(
                        "p."@ + ("fixed_eval_"@ + decimal(i)),
                    )
                    &&& spec_permutation_column_eval(l, Style::Plinth, c) == Ok::<Seq<char>, ExpressionError>(
                        snake_to_camel("fixed_eval_"@ + decimal(i)) + " pieces"@,
                    )
                },
                None => {
                    &&& spec_permutation_column_eval(l, Style::Aiken, c) == Err::<Seq<char>, ExpressionError>(
                        ExpressionError::MissingFixedQuery { column: c.column, rotation: 0 },
                    )
                    &&& spec_permutation_column_eval(l, Style::Plinth, c) == spec_permutation_column_eval(l, Style::Aiken, c)
                },
            },
            ColumnKind::Instance => {
                &&& spec_permutation_column_eval(l, Style::Aiken, c) == Err::<Seq<char>, ExpressionError>(
                    ExpressionError::Instance,
                )
                &&& spec_permutation_column_eval(l, Style::Plinth, c) == spec_permutation_column_eval(l, Style::Aiken, c)
            },
        },
{
}

/// Several lookup expressions are compressed with powers of theta in both
/// languages, the first expression getting the highest power
/// (`((e0·θ + e1)·θ + e2)…`): none gives zero, one is itself, and more are
/// folded from zero by `acc·θ + e` over the expressions in order.
pub proof fn lemma_compressed_texts(ts: Seq<Seq<char>>)
    ensures
        ts.len() == 0 ==> spec_compressed(Style::Aiken, ts) == "from_int(0)"@ && spec_compressed(Style::Plinth, ts)
            == "scalarZero"@,
        ts.len() == 1 ==> spec_compressed(Style::Aiken, ts) == ts[0] && spec_compressed(Style::Plinth, ts) == ts[0],
        ts.len() >= 2 ==> spec_compressed(Style::Aiken, ts) == "foldl(["@ + join(ts, ", "@)
            + "], from_int(0), fn(expr, acc) { add(mul(acc, p.theta), expr) })"@ && spec_compressed(Style::Plinth, ts)
            == "foldl (\\acc expr -> acc * theta pieces + expr) scalarZero ["@ + join(ts, ", "@) + "]"@,
{
}

} // verus!
