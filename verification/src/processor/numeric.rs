//! Questions on JSON numbers that only floating-point arithmetic answers.
//!
//! The operations compare, combine and aggregate JSON numbers as `f64`. This
//! library holds no floating-point code: an operation asks its question as a
//! `NumericQuery`, and the caller's evaluator answers it. Everything else an
//! operation does is stated exactly, for every answer.
use vstd::prelude::*;
use crate::common::json::{Json, JsonNumber};
use crate::common::models::AggregationFunction;

verus! {

/// A comparison operator of a filter condition.
#[derive(Clone, Copy, Debug, PartialEq, Eq, Structural)]
pub enum CompareOp {
    Gt,
    Ge,
    Lt,
    Le,
    Eq,
    Ne,
}

/// An arithmetic operator of a transformation.
#[derive(Clone, Copy, Debug, PartialEq, Eq, Structural)]
pub enum ArithOp {
    Mul,
    Div,
    Add,
    Sub,
}

/// The comparison operator a filter condition names: `>`, `>=`, `<`, `<=`,
/// `==` or `=`, `!=`.
pub open spec fn compare_op_of(s: Seq<char>) -> Option<CompareOp> {
    if s == ">"@ {
        Some(CompareOp::Gt)
    } else if s == ">="@ {
        Some(CompareOp::Ge)
    } else if s == "<"@ {
        Some(CompareOp::Lt)
    } else if s == "<="@ {
        Some(CompareOp::Le)
    } else if s == "=="@ || s == "="@ {
        Some(CompareOp::Eq)
    } else if s == "!="@ {
        Some(CompareOp::Ne)
    } else {
        None
    }
}

/// The arithmetic operator a transformation names: `*`, `/`, `+`, `-`.
pub open spec fn arith_op_of(s: Seq<char>) -> Option<ArithOp> {
    if s == "*"@ {
        Some(ArithOp::Mul)
    } else if s == "/"@ {
        Some(ArithOp::Div)
    } else if s == "+"@ {
        Some(ArithOp::Add)
    } else if s == "-"@ {
        Some(ArithOp::Sub)
    } else {
        None
    }
}

/// Reads a comparison operator.
pub fn parse_compare_op(s: &str) -> (r: Option<CompareOp>)
    ensures
        r == compare_op_of(s@),
{
    if crate::common::text::str_eq(s, ">") {
        Some(CompareOp::Gt)
    } else if crate::common::text::str_eq(s, ">=") {
        Some(CompareOp::Ge)
    } else if crate::common::text::str_eq(s, "<") {
        Some(CompareOp::Lt)
    } else if crate::common::text::str_eq(s, "<=") {
        Some(CompareOp::Le)
    } else if crate::common::text::str_eq(s, "==") || crate::common::text::str_eq(s, "=") {
        Some(CompareOp::Eq)
    } else if crate::common::text::str_eq(s, "!=") {
        Some(CompareOp::Ne)
    } else {
        None
    }
}

/// Reads an arithmetic operator.
pub fn parse_arith_op(s: &str) -> (r: Option<ArithOp>)
    ensures
        r == arith_op_of(s@),
{
    if crate::common::text::str_eq(s, "*") {
        Some(ArithOp::Mul)
    } else if crate::common::text::str_eq(s, "/") {
        Some(ArithOp::Div)
    } else if crate::common::text::str_eq(s, "+") {
        Some(ArithOp::Add)
    } else if crate::common::text::str_eq(s, "-") {
        Some(ArithOp::Sub)
    } else {
        None
    }
}

/// A question that floating-point arithmetic answers.
#[derive(Debug)]
pub enum NumericQuery {
    /// Whether `value op threshold` holds, with the threshold text read as an
    /// `f64` (`==` and `!=` within `f64::EPSILON`); false when the text is no number.
    Compare { value: JsonNumber, op: CompareOp, threshold: String },
    /// `value first.0 first.1`, then `second.0 second.1` on that result, with
    /// the operand texts read as `f64`.
    Arithmetic { value: JsonNumber, first: (ArithOp, String), second: Option<(ArithOp, String)> },
    /// The aggregate of the values as `f64` (`Count` is their number).
    Aggregate { function: AggregationFunction, values: Vec<JsonNumber> },
    /// Whether `value > limit` as `f64`.
    Exceeds { value: JsonNumber, limit: JsonNumber },
}

/// The mathematical view of a query.
pub enum QueryView {
    Compare { value: JsonNumber, op: CompareOp, threshold: Seq<char> },
    Arithmetic {
        value: JsonNumber,
        first: (ArithOp, Seq<char>),
        second: Option<(ArithOp, Seq<char>)>,
    },
    Aggregate { function: AggregationFunction, values: Seq<JsonNumber> },
    Exceeds { value: JsonNumber, limit: JsonNumber },
}

impl NumericQuery {
    /// The view of this query.
    pub open spec fn view(&self) -> QueryView {
        match self {
            NumericQuery::Compare { value, op, threshold } => QueryView::Compare {
                value: *value,
                op: *op,
                threshold: threshold@,
            },
            NumericQuery::Arithmetic { value, first, second } => QueryView::Arithmetic {
                value: *value,
                first: (first.0, first.1@),
                second: match second {
                    Some(s) => Some((s.0, s.1@)),
                    None => None,
                },
            },
            NumericQuery::Aggregate { function, values } => QueryView::Aggregate {
                function: *function,
                values: values@,
            },
            NumericQuery::Exceeds { value, limit } => QueryView::Exceeds {
                value: *value,
                limit: *limit,
            },
        }
    }
}

/// The answer to a query.
#[derive(Clone, Copy, Debug, PartialEq, Eq, Structural)]
pub enum NumericAnswer {
    /// The truth of a comparison.
    Truth(bool),
    /// An operand text of an arithmetic query is no number.
    Unparsable,
    /// The JSON value of a computed `f64`: a number, or `None` (JSON null)
    /// where the result is not finite.
    Value(Option<JsonNumber>),
}

/// The truth an answer gives (false for any other answer).
pub open spec fn truth_of(a: NumericAnswer) -> bool {
    match a {
        NumericAnswer::Truth(b) => b,
        _ => false,
    }
}

/// The JSON value an answer gives to store, or `None` to leave the data as it was.
pub open spec fn computed_of(a: NumericAnswer) -> Option<Json> {
    match a {
        NumericAnswer::Value(Some(n)) => Some(Json::Number(n)),
        NumericAnswer::Value(None) => Some(Json::Null),
        _ => None,
    }
}

/// The JSON value an answer gives as an aggregate (null for any other answer).
pub open spec fn aggregate_of(a: NumericAnswer) -> Json {
    match a {
        NumericAnswer::Value(Some(n)) => Json::Number(n),
        _ => Json::Null,
    }
}

/// The evaluator answers `q` with `a` for some query whose view is `q`.
pub open spec fn answers<F: Fn(NumericQuery) -> NumericAnswer>(
    eval: F,
    q: QueryView,
    a: NumericAnswer,
) -> bool {
    exists|x: NumericQuery| #[trigger] x.view() == q && call_ensures(eval, (x,), a)
}

/// The evaluator can be asked anything, and answers equal questions alike.
pub open spec fn consistent<F: Fn(NumericQuery) -> NumericAnswer>(eval: F) -> bool {
    &&& forall|x: NumericQuery| call_requires(eval, (x,))
    &&& forall|q: QueryView, a1: NumericAnswer, a2: NumericAnswer|
        #![trigger answers(eval, q, a1), answers(eval, q, a2)]
        answers(eval, q, a1) && answers(eval, q, a2) ==> a1 == a2
}

/// The answer the evaluator gives to `q`.
pub open spec fn answer_of<F: Fn(NumericQuery) -> NumericAnswer>(
    eval: F,
    q: QueryView,
) -> NumericAnswer {
    choose|a: NumericAnswer| answers(eval, q, a)
}

/// The evaluator's answers as a function of the question.
pub open spec fn oracle<F: Fn(NumericQuery) -> NumericAnswer>(eval: F) -> spec_fn(
    QueryView,
) -> NumericAnswer {
    |q: QueryView| answer_of(eval, q)
}

/// A consistent evaluator's answer is the answer it gives to that question.
pub proof fn lemma_answer<F: Fn(NumericQuery) -> NumericAnswer>(
    eval: F,
    x: NumericQuery,
    a: NumericAnswer,
)
    requires
        consistent(eval),
        call_ensures(eval, (x,), a),
    ensures
        a == oracle(eval)(x.view()),
{
    assert(answers(eval, x.view(), a));
    let b = answer_of(eval, x.view());
    assert(answers(eval, x.view(), b));
}

/// Asks the evaluator.
pub fn ask<F: Fn(NumericQuery) -> NumericAnswer>(eval: &F, q: NumericQuery) -> (r: NumericAnswer)
    requires
        consistent(*eval),
    ensures
        r == oracle(*eval)(q.view()),
{
    let ghost qv = q.view();
    let r = eval(q);
    proof {
        lemma_answer(*eval, q, r);
    }
    r
}

} // verus!
