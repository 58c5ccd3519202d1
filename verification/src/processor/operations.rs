//! Stream operations: filter, transform, aggregate and anomaly detection.
use vstd::prelude::*;
use crate::common::error::Error;
use crate::common::json::{at_path, get_nested_value, json_get, json_insert, entries_insert, lemma_lookup_insert, Json, JsonNumber, JsonValue};
use crate::common::models::{AggregationFunction, DataPoint, Operation, OperationView, PointView, Timestamp, points_view};
use crate::common::utils::generate_id;
use crate::common::utils::{current_timestamp, format_rfc3339, representable, rfc3339_text, MAX_SECS};
use crate::common::json::object_insert;
use crate::common::text::{split_char, split_on, split_words, strings_view, trim, trim_str, words};
use crate::processor::numeric::{
    ask, compare_op_of, arith_op_of, computed_of, consistent, oracle, parse_arith_op,
    parse_compare_op, truth_of, ArithOp, CompareOp, NumericAnswer, NumericQuery, QueryView,
};

verus! {

/// What a filter does with a payload before any arithmetic: keep it, drop it,
/// or decide by a comparison.
pub enum FilterCheck {
    Keep,
    Drop,
    Ask(NumericQuery),
}

/// The view of a filter check.
pub enum FilterCheckView {
    Keep,
    Drop,
    Ask(QueryView),
}

impl FilterCheck {
    /// The view of this check.
    pub open spec fn view(&self) -> FilterCheckView {
        match self {
            FilterCheck::Keep => FilterCheckView::Keep,
            FilterCheck::Drop => FilterCheckView::Drop,
            FilterCheck::Ask(q) => FilterCheckView::Ask(q.view()),
        }
    }
}

/// How a condition `field op threshold` (three white-space separated words)
/// applies to `data`: a condition of another shape keeps everything; a field
/// that is missing or not a number, or an unknown operator, drops the data;
/// otherwise the comparison of the field's number with the threshold decides.
pub open spec fn filter_check(condition: Seq<char>, data: Json) -> FilterCheckView {
    let parts = words(condition);
    if parts.len() != 3 {
        FilterCheckView::Keep
    } else {
        match at_path(data, parts[0]) {
            Some(Json::Number(n)) => match compare_op_of(parts[1]) {
                Some(op) => FilterCheckView::Ask(
                    QueryView::Compare { value: n, op, threshold: parts[2] },
                ),
                None => FilterCheckView::Drop,
            },
            _ => FilterCheckView::Drop,
        }
    }
}

/// Whether a filter with `condition` keeps `data`, given the answers `ans`.
pub open spec fn filter_keeps(
    condition: Seq<char>,
    data: Json,
    ans: spec_fn(QueryView) -> NumericAnswer,
) -> bool {
    match filter_check(condition, data) {
        FilterCheckView::Keep => true,
        FilterCheckView::Drop => false,
        FilterCheckView::Ask(q) => truth_of(ans(q)),
    }
}

/// A condition `f w t` whose field `f` holds the number `n` asks whether
/// `n` compares to the threshold `t` as the operator word `w` names: `>`
/// greater, `>=` greater or equal, `<` less, `<=` less or equal, `==` and
/// `=` equal, `!=` not equal.
pub proof fn lemma_filter_compares_as_named(
    condition: Seq<char>,
    data: Json,
    f: Seq<char>,
    w: Seq<char>,
    t: Seq<char>,
    n: JsonNumber,
)
    requires
        words(condition) == seq![f, w, t],
        at_path(data, f) == Some(Json::Number(n)),
    ensures
        w == ">"@ ==> filter_check(condition, data) == FilterCheckView::Ask(
            QueryView::Compare { value: n, op: CompareOp::Gt, threshold: t },
        ),
        w == ">="@ ==> filter_check(condition, data) == FilterCheckView::Ask(
            QueryView::Compare { value: n, op: CompareOp::Ge, threshold: t },
        ),
        w == "<"@ ==> filter_check(condition, data) == FilterCheckView::Ask(
            QueryView::Compare { value: n, op: CompareOp::Lt, threshold: t },
        ),
        w == "<="@ ==> filter_check(condition, data) == FilterCheckView::Ask(
            QueryView::Compare { value: n, op: CompareOp::Le, threshold: t },
        ),
        w == "=="@ || w == "="@ ==> filter_check(condition, data) == FilterCheckView::Ask(
            QueryView::Compare { value: n, op: CompareOp::Eq, threshold: t },
        ),
        w == "!="@ ==> filter_check(condition, data) == FilterCheckView::Ask(
            QueryView::Compare { value: n, op: CompareOp::Ne, threshold: t },
        ),
{
    reveal_strlit(">");
    reveal_strlit(">=");
    reveal_strlit("<");
    reveal_strlit("<=");
    reveal_strlit("==");
    reveal_strlit("=");
    reveal_strlit("!=");
    assert(">"@.len() == 1 && "<"@.len() == 1 && "="@.len() == 1);
    assert(">="@.len() == 2 && "<="@.len() == 2 && "=="@.len() == 2 && "!="@.len() == 2);
    assert("<="@[0] == '<' && "=="@[0] == '=' && "!="@[0] == '!' && ">="@[0] == '>');
    assert(">"@[0] == '>' && "<"@[0] == '<' && "="@[0] == '=');
    let parts = words(condition);
    assert(parts[0] == f && parts[1] == w && parts[2] == t);
}

/// A condition of three words keeps a payload whose field is missing or not
/// a number only by no means: such a payload is dropped.
pub proof fn lemma_filter_drops_non_numbers(condition: Seq<char>, data: Json, f: Seq<char>, w: Seq<char>, t: Seq<char>, ans: spec_fn(QueryView) -> NumericAnswer)
    requires
        words(condition) == seq![f, w, t],
        !(at_path(data, f) matches Some(Json::Number(_))),
    ensures
        !filter_keeps(condition, data, ans),
{
    let parts = words(condition);
    assert(parts[0] == f);
}

/// Filter operation that excludes data points based on a condition.
pub struct FilterOperation {
    /// The condition to evaluate
    pub condition: String,
}

impl FilterOperation {
    /// Create a new filter operation.
    pub fn new(condition: String) -> (r: Result<FilterOperation, Error>)
        ensures
            r matches Ok(f) && f.condition@ == condition@,
    {
        Ok(FilterOperation { condition })
    }

    /// How the condition applies to `data`, before any arithmetic.
    pub fn check(&self, data: &JsonValue) -> (r: FilterCheck)
        ensures
            r.view() == filter_check(self.condition@, data.json()),
    {
        let parts = split_words(self.condition.as_str());
        proof {
            assert(strings_view(parts@).len() == parts@.len());
        }
        if parts.len() != 3 {
            return FilterCheck::Keep;
        }
        let ghost pv = strings_view(parts@);
        assert(pv[0] == parts@[0]@ && pv[1] == parts@[1]@ && pv[2] == parts@[2]@);
        match get_nested_value(data, parts[0].as_str()) {
            Some(JsonValue::Number(n)) => match parse_compare_op(parts[1].as_str()) {
                Some(op) => FilterCheck::Ask(
                    NumericQuery::Compare { value: *n, op, threshold: parts[2].clone() },
                ),
                None => FilterCheck::Drop,
            },
            _ => FilterCheck::Drop,
        }
    }

    /// Evaluate the filter condition on a payload.
    pub fn evaluate<F: Fn(NumericQuery) -> NumericAnswer>(&self, data: &JsonValue, eval: &F) -> (r:
        bool)
        requires
            consistent(*eval),
        ensures
            r == filter_keeps(self.condition@, data.json(), oracle(*eval)),
    {
        match self.check(data) {
            FilterCheck::Keep => true,
            FilterCheck::Drop => false,
            FilterCheck::Ask(q) => match ask(eval, q) {
                NumericAnswer::Truth(b) => b,
                _ => false,
            },
        }
    }

    /// Process a single data point: kept unchanged, or dropped.
    pub fn process_single<F: Fn(NumericQuery) -> NumericAnswer>(
        &self,
        data_point: DataPoint,
        eval: &F,
    ) -> (r: Result<Option<DataPoint>, Error>)
        requires
            consistent(*eval),
        ensures
            r matches Ok(o) && (if filter_keeps(
                self.condition@,
                data_point.payload.json(),
                oracle(*eval),
            ) {
                o matches Some(p) && p.view() == data_point.view()
            } else {
                o is None
            }),
    {
        if self.evaluate(&data_point.payload, eval) {
            Ok(Some(data_point))
        } else {
            Ok(None)
        }
    }
}


/// What a transformation `new_field: field op value [op value]` asks of
/// `data`: the field to add and the arithmetic to compute, or `None` when the
/// text has another shape, the field is missing or not a number, or an
/// operator is unknown.
pub open spec fn transform_plan(t: Seq<char>, data: Json) -> Option<(Seq<char>, QueryView)> {
    let parts = split_on(t, ':');
    if parts.len() != 2 {
        None
    } else {
        let new_field = trim(parts[0]);
        let ep = words(trim(parts[1]));
        if ep.len() != 3 && ep.len() != 5 {
            None
        } else {
            match at_path(data, ep[0]) {
                Some(Json::Number(n)) => if ep.len() == 3 {
                    match arith_op_of(ep[1]) {
                        Some(op) => Some(
                            (
                                new_field,
                                QueryView::Arithmetic { value: n, first: (op, ep[2]), second: None },
                            ),
                        ),
                        None => None,
                    }
                } else {
                    match (arith_op_of(ep[1]), arith_op_of(ep[3])) {
                        (Some(o1), Some(o2)) => Some(
                            (
                                new_field,
                                QueryView::Arithmetic {
                                    value: n,
                                    first: (o1, ep[2]),
                                    second: Some((o2, ep[4])),
                                },
                            ),
                        ),
                        _ => None,
                    }
                },
                _ => None,
            }
        }
    }
}

/// The payload a transformation makes of `data` given the answers `ans`: the
/// data with the computed value stored under the new field, or the data as it
/// was when there is nothing to compute or an operand is no number.
pub open spec fn transformed(t: Seq<char>, data: Json, ans: spec_fn(QueryView) -> NumericAnswer) -> Json {
    match transform_plan(t, data) {
        None => data,
        Some((field, q)) => match computed_of(ans(q)) {
            None => data,
            Some(v) => json_insert(data, field, v),
        },
    }
}

/// A transformation touches only the field it names: every other key of an
/// object payload reads as before, and a text it cannot apply leaves the
/// payload as it was.
pub proof fn lemma_transform_touches_only_target(
    t: Seq<char>,
    data: Json,
    ans: spec_fn(QueryView) -> NumericAnswer,
    key: Seq<char>,
)
    ensures
        transform_plan(t, data) is None ==> transformed(t, data, ans) == data,
        transform_plan(t, data) matches Some((f, q)) && key != f ==> json_get(transformed(t, data, ans), key)
            == json_get(data, key),
{
    if let Some((f, q)) = transform_plan(t, data) {
        if let Some(v) = computed_of(ans(q)) {
            if let Json::Object(entries) = data {
                lemma_lookup_insert(entries, f, v, key);
            }
        }
    }
}

/// The arithmetic operator words: `*` multiplies, `/` divides, `+` adds, `-`
/// subtracts, and no other word is an operator.
pub proof fn lemma_arith_operator_words(w: Seq<char>)
    ensures
        arith_op_of("*"@) == Some(ArithOp::Mul),
        arith_op_of("/"@) == Some(ArithOp::Div),
        arith_op_of("+"@) == Some(ArithOp::Add),
        arith_op_of("-"@) == Some(ArithOp::Sub),
        arith_op_of(w) is Some ==> w == "*"@ || w == "/"@ || w == "+"@ || w == "-"@,
{
    reveal_strlit("*");
    reveal_strlit("/");
    reveal_strlit("+");
    reveal_strlit("-");
    assert("*"@.len() == 1 && "/"@.len() == 1 && "+"@.len() == 1 && "-"@.len() == 1);
    assert("*"@[0] == '*' && "/"@[0] == '/' && "+"@[0] == '+' && "-"@[0] == '-');
}

/// A transformation `name: f w v` whose field `f` (a dotted path) holds the
/// number `n` computes `n w v` and stores it under `name`, trimmed; with a
/// second step `name: f w1 v1 w2 v2` it computes `(n w1 v1) w2 v2`.
pub proof fn lemma_transform_reads_the_path(
    t: Seq<char>,
    data: Json,
    name: Seq<char>,
    expr: Seq<char>,
    f: Seq<char>,
    n: JsonNumber,
)
    requires
        split_on(t, ':') == seq![name, expr],
        at_path(data, f) == Some(Json::Number(n)),
    ensures
        forall|w: Seq<char>, v: Seq<char>, op: ArithOp|
            words(trim(expr)) == seq![f, w, v] && arith_op_of(w) == Some(op) ==> #[trigger] transform_plan(t, data)
                == Some((trim(name), QueryView::Arithmetic { value: n, first: (op, v), second: None })),
        forall|w1: Seq<char>, v1: Seq<char>, w2: Seq<char>, v2: Seq<char>, op1: ArithOp, op2: ArithOp|
            words(trim(expr)) == seq![f, w1, v1, w2, v2] && arith_op_of(w1) == Some(op1) && arith_op_of(w2) == Some(op2)
                ==> #[trigger] transform_plan(t, data) == Some(
                (trim(name), QueryView::Arithmetic { value: n, first: (op1, v1), second: Some((op2, v2)) }),
            ),
{
    let parts = split_on(t, ':');
    assert(parts[0] == name && parts[1] == expr);
    assert forall|w: Seq<char>, v: Seq<char>, op: ArithOp|
        words(trim(expr)) == seq![f, w, v] && arith_op_of(w) == Some(op) implies #[trigger] transform_plan(t, data)
            == Some((trim(name), QueryView::Arithmetic { value: n, first: (op, v), second: None })) by {
        let ep = words(trim(expr));
        assert(ep[0] == f && ep[1] == w && ep[2] == v);
    }
    assert forall|w1: Seq<char>, v1: Seq<char>, w2: Seq<char>, v2: Seq<char>, op1: ArithOp, op2: ArithOp|
        words(trim(expr)) == seq![f, w1, v1, w2, v2] && arith_op_of(w1) == Some(op1) && arith_op_of(w2) == Some(op2)
            implies #[trigger] transform_plan(t, data) == Some(
            (trim(name), QueryView::Arithmetic { value: n, first: (op1, v1), second: Some((op2, v2)) }),
        ) by {
        let ep = words(trim(expr));
        assert(ep[0] == f && ep[1] == w1 && ep[2] == v1 && ep[3] == w2 && ep[4] == v2);
    }
}

/// The computed value is stored: when a transformation plans to store under
/// `field` and the answer gives a value, an object payload then holds that
/// value under `field`.
pub proof fn lemma_transform_stores_value(
    t: Seq<char>,
    data: Json,
    ans: spec_fn(QueryView) -> NumericAnswer,
    field: Seq<char>,
    q: QueryView,
    v: Json,
)
    requires
        transform_plan(t, data) == Some((field, q)),
        computed_of(ans(q)) == Some(v),
        data is Object,
    ensures
        json_get(transformed(t, data, ans), field) == Some(v),
{
    if let Json::Object(entries) = data {
        lemma_lookup_insert(entries, field, v, field);
    }
}

/// The JSON value an answer stores (number, or null).
fn stored_value(a: NumericAnswer) -> (r: Option<JsonValue>)
    ensures
        match r {
            Some(v) => computed_of(a) == Some(v.json()),
            None => computed_of(a) is None,
        },
{
    match a {
        NumericAnswer::Value(Some(n)) => Some(JsonValue::Number(n)),
        NumericAnswer::Value(None) => Some(JsonValue::Null),
        _ => None,
    }
}

/// Transform operation that modifies data points.
pub struct TransformOperation {
    /// The transformation specification
    pub transformation: String,
}

impl TransformOperation {
    /// Create a new transform operation.
    pub fn new(transformation: String) -> (r: Result<TransformOperation, Error>)
        ensures
            r matches Ok(t) && t.transformation@ == transformation@,
    {
        Ok(TransformOperation { transformation })
    }

    /// The field to add and the arithmetic to compute for `data`, if any.
    pub fn plan(&self, data: &JsonValue) -> (r: Option<(String, NumericQuery)>)
        ensures
            match r {
                Some((f, q)) => transform_plan(self.transformation@, data.json()) == Some(
                    (f@, q.view()),
                ),
                None => transform_plan(self.transformation@, data.json()) is None,
            },
    {
        let parts = split_char(self.transformation.as_str(), ':');
        proof {
            assert(strings_view(parts@).len() == parts@.len());
        }
        if parts.len() != 2 {
            return None;
        }
        let ghost pv = strings_view(parts@);
        assert(pv[0] == parts@[0]@ && pv[1] == parts@[1]@);
        let new_field = trim_str(parts[0].as_str());
        let expression = trim_str(parts[1].as_str());
        let ep = split_words(expression.as_str());
        let ghost ev = strings_view(ep@);
        assert(ev.len() == ep@.len());
        if ep.len() != 3 && ep.len() != 5 {
            return None;
        }
        assert(ev[0] == ep@[0]@ && ev[1] == ep@[1]@ && ev[2] == ep@[2]@);
        let value = match get_nested_value(data, ep[0].as_str()) {
            Some(JsonValue::Number(n)) => *n,
            _ => {
                return None;
            },
        };
        if ep.len() == 3 {
            match parse_arith_op(ep[1].as_str()) {
                Some(op) => Some(
                    (
                        new_field,
                        NumericQuery::Arithmetic { value, first: (op, ep[2].clone()), second: None },
                    ),
                ),
                None => None,
            }
        } else {
            assert(ev[3] == ep@[3]@ && ev[4] == ep@[4]@);
            match (parse_arith_op(ep[1].as_str()), parse_arith_op(ep[3].as_str())) {
                (Some(o1), Some(o2)) => Some(
                    (
                        new_field,
                        NumericQuery::Arithmetic {
                            value,
                            first: (o1, ep[2].clone()),
                            second: Some((o2, ep[4].clone())),
                        },
                    ),
                ),
                _ => None,
            }
        }
    }

    /// Apply the transformation to a payload.
    pub fn transform<F: Fn(NumericQuery) -> NumericAnswer>(&self, data: JsonValue, eval: &F) -> (r:
        JsonValue)
        requires
            consistent(*eval),
        ensures
            r.json() == transformed(self.transformation@, data.json(), oracle(*eval)),
    {
        match self.plan(&data) {
            None => data,
            Some((field, q)) => {
                let a = ask(eval, q);
                match stored_value(a) {
                    None => data,
                    Some(v) => {
                        let mut new_data = data;
                        new_data.insert_field(field, v);
                        new_data
                    },
                }
            },
        }
    }

    /// Process a single data point: the same point with its payload transformed.
    pub fn process_single<F: Fn(NumericQuery) -> NumericAnswer>(
        &self,
        data_point: DataPoint,
        eval: &F,
    ) -> (r: Result<Option<DataPoint>, Error>)
        requires
            consistent(*eval),
        ensures
            r matches Ok(Some(p)) && p.stream_id == data_point.stream_id && p.id == data_point.id
                && p.timestamp == data_point.timestamp && p.payload.json() == transformed(
                self.transformation@,
                data_point.payload.json(),
                oracle(*eval),
            ),
    {
        let payload = self.transform(data_point.payload, eval);
        Ok(
            Some(
                DataPoint {
                    stream_id: data_point.stream_id,
                    id: data_point.id,
                    timestamp: data_point.timestamp,
                    payload,
                },
            ),
        )
    }
}


/// The comparison anomaly detection asks of a payload: its top-level "value"
/// against the "threshold" parameter, when both are numbers.
pub open spec fn anomaly_query(parameters: Json, payload: Json) -> Option<QueryView> {
    match (json_get(parameters, "threshold"@), at_path(payload, "value"@)) {
        (Some(Json::Number(t)), Some(Json::Number(v))) => Some(
            QueryView::Exceeds { value: v, limit: t },
        ),
        _ => None,
    }
}

/// Whether the payload is an anomaly: its value exceeds the threshold.
pub open spec fn is_anomaly(
    parameters: Json,
    payload: Json,
    ans: spec_fn(QueryView) -> NumericAnswer,
) -> bool {
    match anomaly_query(parameters, payload) {
        Some(q) => truth_of(ans(q)),
        None => false,
    }
}

/// The payload flagged as an anomaly: `is_anomaly: true` and an
/// `anomaly_detection` object naming the algorithm and the detection time.
pub open spec fn anomaly_marked(payload: Json, algorithm: Seq<char>, detected_at: Seq<char>) -> Json {
    let meta = Json::Object(
        entries_insert(
            entries_insert(Seq::empty(), "algorithm"@, Json::Str(algorithm)),
            "detected_at"@,
            Json::Str(detected_at),
        ),
    );
    json_insert(json_insert(payload, "is_anomaly"@, Json::Bool(true)), "anomaly_detection"@, meta)
}

/// The payload anomaly detection makes of `payload` at the time written
/// `detected_at`.
pub open spec fn anomaly_result(
    algorithm: Seq<char>,
    parameters: Json,
    payload: Json,
    detected_at: Seq<char>,
    ans: spec_fn(QueryView) -> NumericAnswer,
) -> Json {
    if is_anomaly(parameters, payload, ans) {
        anomaly_marked(payload, algorithm, detected_at)
    } else {
        payload
    }
}

/// Flagging keeps the payload: every key other than "is_anomaly" and
/// "anomaly_detection" reads as before; a flagged object payload has
/// "is_anomaly" true and an "anomaly_detection" object naming the algorithm
/// and the detection time; a payload that is no anomaly is left as it was.
pub proof fn lemma_anomaly_keeps_payload(
    algorithm: Seq<char>,
    parameters: Json,
    payload: Json,
    detected_at: Seq<char>,
    ans: spec_fn(QueryView) -> NumericAnswer,
    key: Seq<char>,
)
    ensures
        key != "is_anomaly"@ && key != "anomaly_detection"@ ==> json_get(
            anomaly_result(algorithm, parameters, payload, detected_at, ans),
            key,
        ) == json_get(payload, key),
        !is_anomaly(parameters, payload, ans) ==> anomaly_result(algorithm, parameters, payload, detected_at, ans)
            == payload,
        is_anomaly(parameters, payload, ans) && payload is Object ==> {
            let r = anomaly_result(algorithm, parameters, payload, detected_at, ans);
            &&& json_get(r, "is_anomaly"@) == Some(Json::Bool(true))
            &&& json_get(r, "anomaly_detection"@) matches Some(meta) && json_get(meta, "algorithm"@) == Some(
                Json::Str(algorithm),
            ) && json_get(meta, "detected_at"@) == Some(Json::Str(detected_at))
        },
{
    reveal_strlit("is_anomaly");
    reveal_strlit("anomaly_detection");
    reveal_strlit("algorithm");
    reveal_strlit("detected_at");
    assert("is_anomaly"@[0] == 'i' && "anomaly_detection"@[0] == 'a');
    assert("algorithm"@[0] == 'a' && "detected_at"@[0] == 'd');
    assert("is_anomaly"@ != "anomaly_detection"@ && "algorithm"@ != "detected_at"@);
    if is_anomaly(parameters, payload, ans) {
        if let Json::Object(entries) = payload {
            let e1 = entries_insert(entries, "is_anomaly"@, Json::Bool(true));
            let m0 = entries_insert(Seq::empty(), "algorithm"@, Json::Str(algorithm));
            let meta_entries = entries_insert(m0, "detected_at"@, Json::Str(detected_at));
            let meta = Json::Object(meta_entries);
            lemma_lookup_insert(entries, "is_anomaly"@, Json::Bool(true), key);
            lemma_lookup_insert(e1, "anomaly_detection"@, meta, key);
            lemma_lookup_insert(e1, "anomaly_detection"@, meta, "is_anomaly"@);
            lemma_lookup_insert(entries, "is_anomaly"@, Json::Bool(true), "is_anomaly"@);
            lemma_lookup_insert(Seq::empty(), "algorithm"@, Json::Str(algorithm), "algorithm"@);
            lemma_lookup_insert(m0, "detected_at"@, Json::Str(detected_at), "algorithm"@);
            lemma_lookup_insert(m0, "detected_at"@, Json::Str(detected_at), "detected_at"@);
            let r = anomaly_result(algorithm, parameters, payload, detected_at, ans);
            assert(r == Json::Object(entries_insert(e1, "anomaly_detection"@, meta)));
            assert(json_get(r, "anomaly_detection"@) == Some(meta));
            assert(json_get(meta, "algorithm"@) == Some(Json::Str(algorithm)));
            assert(json_get(meta, "detected_at"@) == Some(Json::Str(detected_at)));
        }
    }
}

/// Anomaly detection operation.
pub struct AnomalyDetectionOperation {
    /// Algorithm to use for anomaly detection
    pub algorithm: String,
    /// Parameters for the algorithm
    pub parameters: JsonValue,
}

impl AnomalyDetectionOperation {
    /// Create a new anomaly detection operation.
    pub fn new(algorithm: String, parameters: JsonValue) -> (r: Result<
        AnomalyDetectionOperation,
        Error,
    >)
        ensures
            r matches Ok(a) && a.algorithm@ == algorithm@ && a.parameters.json() == parameters.json(),
    {
        Ok(AnomalyDetectionOperation { algorithm, parameters })
    }

    /// Detect anomalies in a data point.
    pub fn detect_anomalies<F: Fn(NumericQuery) -> NumericAnswer>(
        &self,
        data_point: &DataPoint,
        eval: &F,
    ) -> (r: bool)
        requires
            consistent(*eval),
        ensures
            r == is_anomaly(self.parameters.json(), data_point.payload.json(), oracle(*eval)),
    {
        let threshold = match self.parameters.get("threshold") {
            Some(JsonValue::Number(t)) => *t,
            _ => {
                return false;
            },
        };
        let value = match get_nested_value(&data_point.payload, "value") {
            Some(JsonValue::Number(v)) => *v,
            _ => {
                return false;
            },
        };
        match ask(eval, NumericQuery::Exceeds { value, limit: threshold }) {
            NumericAnswer::Truth(b) => b,
            _ => false,
        }
    }

    /// Process a single data point at the instant `now`: an anomaly is flagged
    /// in its payload, any other point passes through unchanged.
    pub fn process_single_at<F: Fn(NumericQuery) -> NumericAnswer>(
        &self,
        data_point: DataPoint,
        now: Timestamp,
        eval: &F,
    ) -> (r: Result<Option<DataPoint>, Error>)
        requires
            consistent(*eval),
            representable(now),
        ensures
            r matches Ok(Some(p)) && p.stream_id == data_point.stream_id && p.id == data_point.id
                && p.timestamp == data_point.timestamp && p.payload.json() == anomaly_result(
                self.algorithm@,
                self.parameters.json(),
                data_point.payload.json(),
                rfc3339_text(now.secs, now.nanos),
                oracle(*eval),
            ),
    {
        if self.detect_anomalies(&data_point, eval) {
            let mut payload = data_point.payload.deep_clone();
            if payload.is_object() {
                payload.insert_field("is_anomaly".to_owned(), JsonValue::Bool(true));
                let mut meta: Vec<(String, JsonValue)> = Vec::new();
                proof {
                    crate::common::json::lemma_entries_json(meta, 0);
                }
                object_insert(&mut meta, "algorithm".to_owned(), JsonValue::String(self.algorithm.clone()));
                let detected_at = format_rfc3339(now);
                object_insert(&mut meta, "detected_at".to_owned(), JsonValue::String(detected_at));
                payload.insert_field("anomaly_detection".to_owned(), JsonValue::Object(meta));
            }
            Ok(
                Some(
                    DataPoint {
                        stream_id: data_point.stream_id,
                        id: data_point.id,
                        timestamp: data_point.timestamp,
                        payload,
                    },
                ),
            )
        } else {
            Ok(Some(data_point))
        }
    }

    /// Process a single data point, flagging an anomaly with the current time.
    pub fn process_single<F: Fn(NumericQuery) -> NumericAnswer>(
        &self,
        data_point: DataPoint,
        eval: &F,
    ) -> (r: Result<Option<DataPoint>, Error>)
        requires
            consistent(*eval),
        ensures
            r matches Ok(Some(p)) && p.stream_id == data_point.stream_id && p.id == data_point.id
                && p.timestamp == data_point.timestamp && exists|t: Timestamp|
                representable(t) && p.payload.json() == anomaly_result(
                    self.algorithm@,
                    self.parameters.json(),
                    data_point.payload.json(),
                    #[trigger] rfc3339_text(t.secs, t.nanos),
                    oracle(*eval),
                ),
    {
        let now = current_timestamp();
        self.process_single_at(data_point, now, eval)
    }
}


/// The remainder of `s / w` truncated toward zero (Rust's `%` on integers).
pub open spec fn trunc_rem(s: int, w: int) -> int {
    if s >= 0 {
        s % w
    } else {
        -((-s) % w)
    }
}

/// The start of the window of `w` seconds that holds second `secs`: `secs`
/// truncated toward zero to a multiple of `w`.
pub open spec fn window_start(secs: i64, w: u32) -> int {
    secs - trunc_rem(secs as int, w as int)
}

/// A point at or after the epoch lies in the window its key names: the
/// window starts at most `w` seconds before it, on a multiple of `w`.
pub proof fn lemma_window_holds_point(secs: i64, w: u32)
    requires
        w > 0,
        secs >= 0,
    ensures
        window_start(secs, w) <= secs < window_start(secs, w) + w,
        window_start(secs, w) % (w as int) == 0,
{
    let s = secs as int;
    let wi = w as int;
    assert(s == wi * (s / wi) + s % wi) by (nonlinear_arith)
        requires
            wi > 0,
    ;
    assert((wi * (s / wi)) % wi == 0) by (nonlinear_arith)
        requires
            wi > 0,
    ;
}

/// The window key of a timestamp (as `AggregateOperation::get_window_key`).
pub fn window_key(secs: i64, w: u32) -> (r: i64)
    requires
        w > 0,
    ensures
        r == window_start(secs, w),
{
    let ww = w as i64;
    let rem = secs % ww;
    secs - rem
}


/// The view of the windows of an aggregate operation: each window's key and
/// its points, in order.
pub open spec fn windows_view(ws: Seq<(i64, Vec<DataPoint>)>) -> Seq<(i64, Seq<PointView>)> {
    ws.map_values(|e: (i64, Vec<DataPoint>)| (e.0, points_view(e.1@)))
}

/// `ws` with `p` appended to the window with key `k` (a new window at the end
/// when there is none).
pub open spec fn window_push(ws: Seq<(i64, Seq<PointView>)>, k: i64, p: PointView) -> Seq<
    (i64, Seq<PointView>),
>
    decreases ws.len(),
{
    if ws.len() == 0 {
        seq![(k, seq![p])]
    } else if ws[0].0 == k {
        ws.update(0, (k, ws[0].1.push(p)))
    } else {
        seq![ws[0]] + window_push(ws.drop_first(), k, p)
    }
}

/// `ws` with every point of `points` added to its window, in order.
pub open spec fn windows_add_all(ws: Seq<(i64, Seq<PointView>)>, points: Seq<PointView>, w: u32) -> Seq<
    (i64, Seq<PointView>),
>
    decreases points.len(),
{
    if points.len() == 0 {
        ws
    } else {
        let p = points.last();
        window_push(
            windows_add_all(ws, points.drop_last(), w),
            window_start(p.timestamp.secs, w) as i64,
            p,
        )
    }
}

/// A window with key `k` has ended by second `now`.
pub open spec fn window_closed(k: i64, w: u32, now: i64) -> bool {
    k + w <= now
}

/// The windows that have not ended by `now`, in order.
pub open spec fn open_windows(ws: Seq<(i64, Seq<PointView>)>, w: u32, now: i64) -> Seq<
    (i64, Seq<PointView>),
>
    decreases ws.len(),
{
    if ws.len() == 0 {
        ws
    } else {
        let prev = open_windows(ws.drop_last(), w, now);
        if window_closed(ws.last().0, w, now) {
            prev
        } else {
            prev.push(ws.last())
        }
    }
}

/// The windows kept open at `now` are exactly those that have not ended:
/// each kept window ends after `now`, and every window that ends after `now`
/// is kept.
pub proof fn lemma_open_windows_are_unended(ws: Seq<(i64, Seq<PointView>)>, w: u32, now: i64)
    ensures
        forall|j: int|
            0 <= j < open_windows(ws, w, now).len() ==> #[trigger] open_windows(ws, w, now)[j].0 + w > now,
        forall|i: int| 0 <= i < ws.len() && ws[i].0 + w > now ==> open_windows(ws, w, now).contains(#[trigger] ws[i]),
    decreases ws.len(),
{
    if ws.len() > 0 {
        lemma_open_windows_are_unended(ws.drop_last(), w, now);
        let prev = open_windows(ws.drop_last(), w, now);
        assert forall|i: int| 0 <= i < ws.len() && ws[i].0 + w > now implies open_windows(ws, w, now).contains(
            #[trigger] ws[i],
        ) by {
            if i < ws.len() - 1 {
                assert(ws.drop_last()[i] == ws[i]);
                let k = choose|k: int| 0 <= k < prev.len() && prev[k] == ws[i];
                if !(ws.last().0 + w <= now) {
                    assert(prev.push(ws.last())[k] == ws[i]);
                }
            } else {
                assert(ws.last() == ws[i]);
                assert(prev.push(ws.last())[prev.len() as int] == ws[i]);
            }
        }
    }
}

/// The numbers found at `field` in the payloads of `points`, in order.
pub open spec fn numeric_values(points: Seq<PointView>, field: Seq<char>) -> Seq<JsonNumber>
    decreases points.len(),
{
    if points.len() == 0 {
        Seq::empty()
    } else {
        let prev = numeric_values(points.drop_last(), field);
        match at_path(points.last().payload, field) {
            Some(Json::Number(n)) => prev.push(n),
            _ => prev,
        }
    }
}

/// The JSON number serde_json makes of an integer.
pub open spec fn int_json(i: int) -> Json {
    if i < 0 {
        Json::Number(JsonNumber::NegInt(i as i64))
    } else {
        Json::Number(JsonNumber::PosInt(i as u64))
    }
}

/// The name of an aggregation function, as `Debug` writes it.
pub open spec fn function_name(f: AggregationFunction) -> Seq<char> {
    match f {
        AggregationFunction::Sum => "Sum"@,
        AggregationFunction::Average => "Average"@,
        AggregationFunction::Min => "Min"@,
        AggregationFunction::Max => "Max"@,
        AggregationFunction::Count => "Count"@,
    }
}

/// The payload of an aggregate point: the aggregate under the field's name,
/// the window's bounds and size, the function's name and the window's number
/// of points (inserted in this order into an empty object).
pub open spec fn aggregate_payload(
    k: i64,
    count: nat,
    w: u32,
    function: AggregationFunction,
    field: Seq<char>,
    value: Json,
) -> Json {
    let e0 = entries_insert(Seq::empty(), field, value);
    let e1 = entries_insert(e0, "window_start"@, int_json(k as int));
    let e2 = entries_insert(e1, "window_end"@, int_json(k + w));
    let e3 = entries_insert(e2, "window_size_seconds"@, Json::Number(JsonNumber::PosInt(w as u64)));
    let e4 = entries_insert(e3, "aggregation"@, Json::Str(function_name(function)));
    let e5 = entries_insert(e4, "count"@, Json::Number(JsonNumber::PosInt(count as u64)));
    Json::Object(e5)
}

/// The settings of an aggregate operation.
pub struct AggregateSpec {
    pub window_seconds: u32,
    pub function: AggregationFunction,
    pub field: Seq<char>,
    pub stream_id: u128,
}

/// Whether a window emits an aggregate at `now`: it has ended and some point
/// holds a number at the field.
pub open spec fn window_emits(a: AggregateSpec, e: (i64, Seq<PointView>), now: i64) -> bool {
    window_closed(e.0, a.window_seconds, now) && numeric_values(e.1, a.field).len() > 0
}

/// The number of windows of `ws` that emit at `now`.
pub open spec fn emit_count(a: AggregateSpec, ws: Seq<(i64, Seq<PointView>)>, now: i64) -> nat
    decreases ws.len(),
{
    if ws.len() == 0 {
        0
    } else {
        emit_count(a, ws.drop_last(), now) + if window_emits(a, ws.last(), now) {
            1nat
        } else {
            0nat
        }
    }
}

/// The aggregate point of window `e`, with identifier `id`.
pub open spec fn aggregate_point(
    a: AggregateSpec,
    e: (i64, Seq<PointView>),
    ans: spec_fn(QueryView) -> NumericAnswer,
    id: u128,
) -> PointView {
    let value = crate::processor::numeric::aggregate_of(
        ans(QueryView::Aggregate { function: a.function, values: numeric_values(e.1, a.field) }),
    );
    PointView {
        stream_id: a.stream_id,
        id,
        timestamp: Timestamp { secs: e.0, nanos: 0 },
        payload: aggregate_payload(e.0, e.1.len(), a.window_seconds, a.function, a.field, value),
    }
}

/// The aggregate points the windows `ws` emit at `now`, in window order, the
/// `j`-th taking identifier `ids[j]`.
pub open spec fn emitted(
    a: AggregateSpec,
    ws: Seq<(i64, Seq<PointView>)>,
    now: i64,
    ans: spec_fn(QueryView) -> NumericAnswer,
    ids: Seq<u128>,
) -> Seq<PointView>
    decreases ws.len(),
{
    if ws.len() == 0 {
        Seq::empty()
    } else {
        let c = emit_count(a, ws.drop_last(), now);
        let prev = emitted(a, ws.drop_last(), now, ans, ids.take(c as int));
        if window_emits(a, ws.last(), now) {
            prev.push(aggregate_point(a, ws.last(), ans, ids[c as int]))
        } else {
            prev
        }
    }
}

/// An aggregate is emitted only for a window that has ended: each emitted
/// point is stamped with its window's start `k`, and `k + w <= now`.
pub proof fn lemma_emitted_windows_ended(
    a: AggregateSpec,
    ws: Seq<(i64, Seq<PointView>)>,
    now: i64,
    ans: spec_fn(QueryView) -> NumericAnswer,
    ids: Seq<u128>,
)
    ensures
        forall|j: int|
            0 <= j < emitted(a, ws, now, ans, ids).len() ==> #[trigger] emitted(a, ws, now, ans, ids)[j].timestamp.secs
                + a.window_seconds <= now,
    decreases ws.len(),
{
    if ws.len() > 0 {
        let c = emit_count(a, ws.drop_last(), now);
        lemma_emitted_windows_ended(a, ws.drop_last(), now, ans, ids.take(c as int));
    }
}

/// Aggregate operation that combines data points over a time window.
pub struct AggregateOperation {
    /// Window size in seconds
    pub window_seconds: u32,
    /// Aggregation function to apply
    pub function: AggregationFunction,
    /// Field to aggregate
    pub field: String,
    /// Stream ID
    pub stream_id: u128,
    /// Aggregation window state: each window's key and points
    pub window: Vec<(i64, Vec<DataPoint>)>,
    /// Last window end time
    pub last_window_end: Timestamp,
}

impl AggregateOperation {
    /// The settings of this operation.
    pub open spec fn settings(&self) -> AggregateSpec {
        AggregateSpec {
            window_seconds: self.window_seconds,
            function: self.function,
            field: self.field@,
            stream_id: self.stream_id,
        }
    }

    /// The windows of this operation.
    pub open spec fn windows(&self) -> Seq<(i64, Seq<PointView>)> {
        windows_view(self.window@)
    }

    /// Create a new aggregate operation with no windows, its last window end
    /// being the current time.
    pub fn new(window_seconds: u32, function: AggregationFunction, field: String, stream_id: u128) -> (r:
        AggregateOperation)
        ensures
            r.window_seconds == window_seconds,
            r.function == function,
            r.field@ == field@,
            r.stream_id == stream_id,
            r.windows().len() == 0,
    {
        let r = AggregateOperation {
            window_seconds,
            function,
            field,
            stream_id,
            window: Vec::new(),
            last_window_end: current_timestamp(),
        };
        assert(r.windows() =~= Seq::empty());
        r
    }

    /// Adds a data point to the window its timestamp falls in.
    pub fn add_point(&mut self, data_point: DataPoint)
        requires
            old(self).window_seconds > 0,
        ensures
            final(self).settings() == old(self).settings(),
            final(self).last_window_end == old(self).last_window_end,
            final(self).windows() == window_push(
                old(self).windows(),
                window_start(data_point.timestamp.secs, old(self).window_seconds) as i64,
                data_point.view(),
            ),
    {
        let key = window_key(data_point.timestamp.secs, self.window_seconds);
        let ghost pv = data_point.view();
        let ghost ov = self.windows();
        let mut i: usize = 0;
        while i < self.window.len() && self.window[i].0 != key
            invariant
                i <= self.window.len(),
                ov == windows_view(self.window@),
                forall|j: int| 0 <= j < i ==> ov[j].0 != key,
            decreases self.window.len() - i,
        {
            i = i + 1;
        }
        proof {
            lemma_window_push_at(ov, key, pv, i as int);
        }
        if i < self.window.len() {
            let mut entry = self.window.remove(i);
            let ghost before = points_view(entry.1@);
            entry.1.push(data_point);
            assert(points_view(entry.1@) =~= before.push(pv));
            self.window.insert(i, entry);
        } else {
            let mut fresh: Vec<DataPoint> = Vec::new();
            fresh.push(data_point);
            assert(points_view(fresh@) =~= seq![pv]);
            self.window.push((key, fresh));
        }
        assert(self.windows() =~= window_push(ov, key, pv));
    }

    /// Closes the windows that have ended by `now`: each one in which some point
    /// holds a number at the field yields an aggregate point with a fresh
    /// identifier; the open windows stay, in order.
    pub fn process_windows<F: Fn(NumericQuery) -> NumericAnswer>(
        &mut self,
        now: Timestamp,
        eval: &F,
    ) -> (r: Vec<DataPoint>)
        requires
            consistent(*eval),
        ensures
            final(self).settings() == old(self).settings(),
            final(self).last_window_end == now,
            final(self).windows() == open_windows(
                old(self).windows(),
                old(self).window_seconds,
                now.secs,
            ),
            exists|ids: Seq<u128>|
                points_view(r@) == emitted(
                    old(self).settings(),
                    old(self).windows(),
                    now.secs,
                    oracle(*eval),
                    ids,
                ),
    {
        let ghost ov = self.windows();
        let ghost a = self.settings();
        let ghost ans = oracle(*eval);
        let mut rest: Vec<(i64, Vec<DataPoint>)> = Vec::new();
        std::mem::swap(&mut rest, &mut self.window);
        let mut kept: Vec<(i64, Vec<DataPoint>)> = Vec::new();
        let mut results: Vec<DataPoint> = Vec::new();
        let ghost mut ids: Seq<u128> = Seq::empty();
        let n = rest.len();
        let mut i: usize = 0;
        assert(ov.skip(0) =~= ov);
        assert(ov.take(0) =~= Seq::<(i64, Seq<PointView>)>::empty());
        assert(windows_view(kept@) =~= Seq::<(i64, Seq<PointView>)>::empty());
        assert(points_view(results@) =~= Seq::<PointView>::empty());
        while i < n
            invariant
                n == ov.len(),
                i <= n,
                a == self.settings(),
                ans == oracle(*eval),
                consistent(*eval),
                windows_view(rest@) == ov.skip(i as int),
                rest.len() == n - i,
                windows_view(kept@) == open_windows(ov.take(i as int), a.window_seconds, now.secs),
                ids.len() == emit_count(a, ov.take(i as int), now.secs),
                points_view(results@) == emitted(a, ov.take(i as int), now.secs, ans, ids),
            decreases n - i,
        {
            let ghost before_rest = rest@;
            let cur = rest.remove(0);
            let ghost e = ov[i as int];
            assert(windows_view(before_rest)[0] == e);
            assert(forall|j: int| 0 <= j < rest.len() ==> rest@[j] == before_rest[j + 1]);
            assert(forall|j: int| 0 <= j < rest.len() ==> windows_view(rest@)[j] == windows_view(before_rest)[j + 1]);
            assert(windows_view(rest@) =~= ov.skip(i + 1));
            assert(ov.take(i + 1).drop_last() =~= ov.take(i as int));
            assert(ov.take(i + 1).last() == e);
            let closed = (cur.0 as i128) + (self.window_seconds as i128) <= (now.secs as i128);
            if !closed {
                let ghost kb = windows_view(kept@);
                kept.push(cur);
                assert(windows_view(kept@) =~= kb.push(e));
            } else {
                let values = numeric_field_values(&cur.1, self.field.as_str());
                if values.len() > 0 {
                    let answer = ask(
                        eval,
                        NumericQuery::Aggregate { function: self.function, values },
                    );
                    let value = match answer {
                        NumericAnswer::Value(Some(x)) => JsonValue::Number(x),
                        _ => JsonValue::Null,
                    };
                    let payload = build_aggregate_payload(
                        cur.0,
                        cur.1.len(),
                        self.window_seconds,
                        self.function,
                        &self.field,
                        value,
                    );
                    let id = generate_id();
                    let ghost rb = points_view(results@);
                    results.push(
                        DataPoint {
                            stream_id: self.stream_id,
                            id,
                            timestamp: Timestamp { secs: cur.0, nanos: 0 },
                            payload,
                        },
                    );
                    proof {
                        let ghost old_ids = ids;
                        ids = ids.push(id);
                        assert(ids.take(old_ids.len() as int) =~= old_ids);
                        assert(points_view(results@) =~= rb.push(aggregate_point(a, e, ans, id)));
                    }
                } else {
                    assert(ids.take(ids.len() as int) =~= ids);
                }
            }
            proof {
                if !closed {
                    assert(ids.take(ids.len() as int) =~= ids);
                }
            }
            i = i + 1;
        }
        assert(ov.take(n as int) =~= ov);
        self.window = kept;
        self.last_window_end = now;
        results
    }

    /// Process a single data point: aggregation gathers points only in
    /// batches, so a single point yields nothing.
    pub fn process_single(&self, data_point: DataPoint) -> (r: Result<Option<DataPoint>, Error>)
        ensures
            r matches Ok(None),
    {
        Ok(None)
    }

    /// Process a batch at the instant `now`: an empty batch changes nothing;
    /// otherwise every point joins its window, then the windows that have ended
    /// by `now` are closed (see `process_windows`).
    pub fn process_batch_at<F: Fn(NumericQuery) -> NumericAnswer>(
        &mut self,
        data_points: Vec<DataPoint>,
        now: Timestamp,
        eval: &F,
    ) -> (r: Result<Vec<DataPoint>, Error>)
        requires
            consistent(*eval),
            old(self).window_seconds > 0 || data_points.len() == 0,
        ensures
            final(self).settings() == old(self).settings(),
            r matches Ok(out) && ({
                let st = aggregate_step(
                    old(self).settings(),
                    AggregateState {
                        windows: old(self).windows(),
                        last_window_end: old(self).last_window_end,
                    },
                    points_view(data_points@),
                    now,
                    oracle(*eval),
                    Seq::empty(),
                );
                &&& final(self).windows() == st.0.windows
                &&& final(self).last_window_end == st.0.last_window_end
                &&& exists|ids: Seq<u128>|
                    points_view(out@) == aggregate_step(
                        old(self).settings(),
                        AggregateState {
                            windows: old(self).windows(),
                            last_window_end: old(self).last_window_end,
                        },
                        points_view(data_points@),
                        now,
                        oracle(*eval),
                        ids,
                    ).1
            }),
    {
        if data_points.len() == 0 {
            let out: Vec<DataPoint> = Vec::new();
            assert(points_view(out@) =~= Seq::<PointView>::empty());
            assert(points_view(out@) == aggregate_step(
                self.settings(),
                AggregateState { windows: self.windows(), last_window_end: self.last_window_end },
                points_view(data_points@),
                now,
                oracle(*eval),
                Seq::empty(),
            ).1);
            return Ok(out);
        }
        let ghost pv = points_view(data_points@);
        let ghost w = self.window_seconds;
        let ghost start = self.windows();
        let mut rest = data_points;
        let n = rest.len();
        let mut i: usize = 0;
        assert(pv.take(0) =~= Seq::<PointView>::empty());
        assert(pv.skip(0) =~= pv);
        while i < n
            invariant
                n == pv.len(),
                i <= n,
                rest.len() == n - i,
                points_view(rest@) == pv.skip(i as int),
                self.window_seconds == w,
                w > 0,
                self.settings() == old(self).settings(),
                self.last_window_end == old(self).last_window_end,
                self.windows() == windows_add_all(start, pv.take(i as int), w),
            decreases n - i,
        {
            let ghost before = rest@;
            let p = rest.remove(0);
            assert(points_view(before)[0] == p.view());
            assert(forall|j: int| 0 <= j < rest.len() ==> rest@[j] == before[j + 1]);
            assert(forall|j: int| 0 <= j < rest.len() ==> points_view(rest@)[j] == points_view(before)[j + 1]);
            assert(points_view(rest@) =~= pv.skip(i + 1));
            assert(pv.take(i + 1).drop_last() =~= pv.take(i as int));
            assert(pv.take(i + 1).last() == p.view());
            self.add_point(p);
            i = i + 1;
        }
        assert(pv.take(n as int) =~= pv);
        let ghost added = self.windows();
        let out = self.process_windows(now, eval);
        proof {
            let ids = choose|ids: Seq<u128>|
                points_view(out@) == emitted(self.settings(), added, now.secs, oracle(*eval), ids);
            assert(points_view(out@) == aggregate_step(
                self.settings(),
                AggregateState { windows: start, last_window_end: old(self).last_window_end },
                pv,
                now,
                oracle(*eval),
                ids,
            ).1);
        }
        Ok(out)
    }

    /// Process a batch at the current time (see `process_batch_at`).
    pub fn process_batch<F: Fn(NumericQuery) -> NumericAnswer>(
        &mut self,
        data_points: Vec<DataPoint>,
        eval: &F,
    ) -> (r: Result<Vec<DataPoint>, Error>)
        requires
            consistent(*eval),
            old(self).window_seconds > 0 || data_points.len() == 0,
        ensures
            final(self).settings() == old(self).settings(),
            r matches Ok(out) && exists|now: Timestamp, ids: Seq<u128>|
                #[trigger] aggregate_step_yields(
                    old(self).settings(),
                    AggregateState {
                        windows: old(self).windows(),
                        last_window_end: old(self).last_window_end,
                    },
                    points_view(data_points@),
                    now,
                    oracle(*eval),
                    ids,
                    AggregateState {
                        windows: final(self).windows(),
                        last_window_end: final(self).last_window_end,
                    },
                    points_view(out@),
                ),
    {
        let now = current_timestamp();
        let ghost pv = points_view(data_points@);
        let ghost before = AggregateState {
            windows: self.windows(),
            last_window_end: self.last_window_end,
        };
        let r = self.process_batch_at(data_points, now, eval);
        proof {
            if let Ok(out) = &r {
                let ids = choose|ids: Seq<u128>|
                    points_view(out@) == aggregate_step(
                        self.settings(),
                        before,
                        pv,
                        now,
                        oracle(*eval),
                        ids,
                    ).1;
                assert(aggregate_step_yields(
                    self.settings(),
                    before,
                    pv,
                    now,
                    oracle(*eval),
                    ids,
                    AggregateState { windows: self.windows(), last_window_end: self.last_window_end },
                    points_view(out@),
                ));
            }
        }
        r
    }
}

/// The window state of an aggregate operation.
pub struct AggregateState {
    pub windows: Seq<(i64, Seq<PointView>)>,
    pub last_window_end: Timestamp,
}

/// A batch at `now`, with fresh identifiers `ids`, takes the operation from
/// window state `st` to `st2` and yields the points `out`.
pub open spec fn aggregate_step_yields(
    a: AggregateSpec,
    st: AggregateState,
    points: Seq<PointView>,
    now: Timestamp,
    ans: spec_fn(QueryView) -> NumericAnswer,
    ids: Seq<u128>,
    st2: AggregateState,
    out: Seq<PointView>,
) -> bool {
    let step = aggregate_step(a, st, points, now, ans, ids);
    step.0 == st2 && step.1 == out
}

/// What a batch does to an aggregate operation at `now`: the new window state
/// and the aggregate points, the `j`-th taking identifier `ids[j]`. An empty
/// batch changes nothing and yields nothing.
pub open spec fn aggregate_step(
    a: AggregateSpec,
    st: AggregateState,
    points: Seq<PointView>,
    now: Timestamp,
    ans: spec_fn(QueryView) -> NumericAnswer,
    ids: Seq<u128>,
) -> (AggregateState, Seq<PointView>) {
    if points.len() == 0 {
        (st, Seq::empty())
    } else {
        let added = windows_add_all(st.windows, points, a.window_seconds);
        (
            AggregateState {
                windows: open_windows(added, a.window_seconds, now.secs),
                last_window_end: now,
            },
            emitted(a, added, now.secs, ans, ids),
        )
    }
}

proof fn lemma_window_push_at(ws: Seq<(i64, Seq<PointView>)>, k: i64, p: PointView, i: int)
    requires
        0 <= i <= ws.len(),
        forall|j: int| 0 <= j < i ==> ws[j].0 != k,
    ensures
        i < ws.len() && ws[i].0 == k ==> window_push(ws, k, p) == ws.update(i, (k, ws[i].1.push(p))),
        i == ws.len() ==> window_push(ws, k, p) == ws.push((k, seq![p])),
    decreases i,
{
    if i > 0 {
        lemma_window_push_at(ws.drop_first(), k, p, i - 1);
        if i < ws.len() && ws[i].0 == k {
            assert(seq![ws[0]] + ws.drop_first().update(i - 1, (k, ws[i].1.push(p))) =~= ws.update(
                i,
                (k, ws[i].1.push(p)),
            ));
        }
        if i == ws.len() {
            assert(seq![ws[0]] + ws.drop_first().push((k, seq![p])) =~= ws.push((k, seq![p])));
        }
    } else if ws.len() == 0 {
        assert(seq![(k, seq![p])] =~= ws.push((k, seq![p])));
    }
}


/// The numbers found at `field` in the payloads of `points`.
pub fn numeric_field_values(points: &Vec<DataPoint>, field: &str) -> (r: Vec<JsonNumber>)
    ensures
        r@ == numeric_values(points_view(points@), field@),
{
    let mut out: Vec<JsonNumber> = Vec::new();
    let mut i: usize = 0;
    assert(points_view(points@).take(0) =~= Seq::<PointView>::empty());
    while i < points.len()
        invariant
            i <= points.len(),
            out@ == numeric_values(points_view(points@).take(i as int), field@),
        decreases points.len() - i,
    {
        let ghost pv = points_view(points@);
        assert(pv.take(i + 1).drop_last() =~= pv.take(i as int));
        assert(pv.take(i + 1).last() == points@[i as int].view());
        match get_nested_value(&points[i].payload, field) {
            Some(JsonValue::Number(n)) => {
                out.push(*n);
            },
            _ => {},
        }
        i = i + 1;
    }
    assert(points_view(points@).take(points.len() as int) =~= points_view(points@));
    out
}

/// The JSON number serde_json makes of an `i64`.
pub fn json_int(i: i64) -> (r: JsonValue)
    ensures
        r.json() == int_json(i as int),
{
    if i < 0 {
        JsonValue::Number(JsonNumber::NegInt(i))
    } else {
        JsonValue::Number(JsonNumber::PosInt(i as u64))
    }
}

/// The name `Debug` gives an aggregation function.
pub fn function_name_text(f: AggregationFunction) -> (r: String)
    ensures
        r@ == function_name(f),
{
    match f {
        AggregationFunction::Sum => "Sum".to_owned(),
        AggregationFunction::Average => "Average".to_owned(),
        AggregationFunction::Min => "Min".to_owned(),
        AggregationFunction::Max => "Max".to_owned(),
        AggregationFunction::Count => "Count".to_owned(),
    }
}

/// Builds the payload of an aggregate point.
pub fn build_aggregate_payload(
    k: i64,
    count: usize,
    w: u32,
    function: AggregationFunction,
    field: &String,
    value: JsonValue,
) -> (r: JsonValue)
    requires
        k + w <= i64::MAX,
    ensures
        r.json() == aggregate_payload(k, count as nat, w, function, field@, value.json()),
{
    let mut fields: Vec<(String, JsonValue)> = Vec::new();
    proof {
        crate::common::json::lemma_entries_json(fields, 0);
    }
    object_insert(&mut fields, field.clone(), value);
    object_insert(&mut fields, "window_start".to_owned(), json_int(k));
    object_insert(&mut fields, "window_end".to_owned(), json_int(k + w as i64));
    object_insert(
        &mut fields,
        "window_size_seconds".to_owned(),
        JsonValue::Number(JsonNumber::PosInt(w as u64)),
    );
    object_insert(&mut fields, "aggregation".to_owned(), JsonValue::String(function_name_text(function)));
    object_insert(&mut fields, "count".to_owned(), JsonValue::Number(JsonNumber::PosInt(count as u64)));
    JsonValue::Object(fields)
}


/// The mathematical view of an operation in a pipeline, with its state.
pub enum OpState {
    Filter { condition: Seq<char> },
    Transform { transformation: Seq<char> },
    Aggregate { settings: AggregateSpec, state: AggregateState },
    AnomalyDetection { algorithm: Seq<char>, parameters: Json },
}

/// What one operation makes of a single point; `detected_at` is the time
/// text anomaly detection writes. Aggregation yields nothing for a single point.
pub open spec fn op_single(
    op: OpState,
    p: PointView,
    detected_at: Seq<char>,
    ans: spec_fn(QueryView) -> NumericAnswer,
) -> Option<PointView> {
    match op {
        OpState::Filter { condition } => if filter_keeps(condition, p.payload, ans) {
            Some(p)
        } else {
            None
        },
        OpState::Transform { transformation } => Some(
            PointView { payload: transformed(transformation, p.payload, ans), ..p },
        ),
        OpState::Aggregate { .. } => None,
        OpState::AnomalyDetection { algorithm, parameters } => Some(
            PointView {
                payload: anomaly_result(algorithm, parameters, p.payload, detected_at, ans),
                ..p
            },
        ),
    }
}

/// What one operation makes of each point of `points` in turn, the points it
/// yields kept in order.
pub open spec fn map_single(
    op: OpState,
    points: Seq<PointView>,
    detected_at: Seq<char>,
    ans: spec_fn(QueryView) -> NumericAnswer,
) -> Seq<PointView>
    decreases points.len(),
{
    if points.len() == 0 {
        Seq::empty()
    } else {
        let prev = map_single(op, points.drop_last(), detected_at, ans);
        match op_single(op, points.last(), detected_at, ans) {
            Some(q) => prev.push(q),
            None => prev,
        }
    }
}

/// What one operation does with a batch at `now`: aggregation gathers the
/// batch into its windows (taking fresh identifiers `ids`); every other
/// operation handles the points one by one and keeps its state.
pub open spec fn op_batch(
    op: OpState,
    points: Seq<PointView>,
    now: Timestamp,
    ans: spec_fn(QueryView) -> NumericAnswer,
    ids: Seq<u128>,
) -> (OpState, Seq<PointView>) {
    match op {
        OpState::Aggregate { settings, state } => {
            let step = aggregate_step(settings, state, points, now, ans, ids);
            (OpState::Aggregate { settings, state: step.0 }, step.1)
        },
        _ => (op, map_single(op, points, rfc3339_text(now.secs, now.nanos), ans)),
    }
}

/// An operation of a pipeline, built from its configuration.
pub enum StreamOperation {
    Filter(FilterOperation),
    Transform(TransformOperation),
    Aggregate(AggregateOperation),
    AnomalyDetection(AnomalyDetectionOperation),
}

impl StreamOperation {
    /// The view of this operation and its state.
    pub open spec fn view(&self) -> OpState {
        match self {
            StreamOperation::Filter(f) => OpState::Filter { condition: f.condition@ },
            StreamOperation::Transform(t) => OpState::Transform { transformation: t.transformation@ },
            StreamOperation::Aggregate(a) => OpState::Aggregate {
                settings: a.settings(),
                state: AggregateState { windows: a.windows(), last_window_end: a.last_window_end },
            },
            StreamOperation::AnomalyDetection(d) => OpState::AnomalyDetection {
                algorithm: d.algorithm@,
                parameters: d.parameters.json(),
            },
        }
    }

    /// Whether this operation is fresh from configuration `op` for stream
    /// `stream_id` (an aggregation starts with no windows).
    pub open spec fn built_from(&self, op: OperationView, stream_id: u128) -> bool {
        match (self.view(), op) {
            (OpState::Filter { condition }, OperationView::Filter { condition: c }) => condition == c,
            (
                OpState::Transform { transformation },
                OperationView::Transform { transformation: t },
            ) => transformation == t,
            (
                OpState::Aggregate { settings, state },
                OperationView::Aggregate { window_seconds, function, field },
            ) => settings == (AggregateSpec { window_seconds, function, field, stream_id })
                && state.windows.len() == 0,
            (
                OpState::AnomalyDetection { algorithm, parameters },
                OperationView::AnomalyDetection { algorithm: al, parameters: pa },
            ) => algorithm == al && parameters == pa,
            _ => false,
        }
    }

    /// Whether a batch can reach this operation without a division by zero:
    /// an aggregation needs a window of at least one second.
    pub open spec fn batch_ready(&self) -> bool {
        match self {
            StreamOperation::Aggregate(a) => a.window_seconds > 0,
            _ => true,
        }
    }

    /// Process a single data point at the instant `now`.
    pub fn process_single_at<F: Fn(NumericQuery) -> NumericAnswer>(
        &self,
        data_point: DataPoint,
        now: Timestamp,
        eval: &F,
    ) -> (r: Result<Option<DataPoint>, Error>)
        requires
            consistent(*eval),
            representable(now),
        ensures
            r matches Ok(o) && match op_single(
                self.view(),
                data_point.view(),
                rfc3339_text(now.secs, now.nanos),
                oracle(*eval),
            ) {
                Some(q) => o matches Some(p) && p.view() == q,
                None => o is None,
            },
    {
        match self {
            StreamOperation::Filter(f) => f.process_single(data_point, eval),
            StreamOperation::Transform(t) => t.process_single(data_point, eval),
            StreamOperation::Aggregate(a) => a.process_single(data_point),
            StreamOperation::AnomalyDetection(d) => d.process_single_at(data_point, now, eval),
        }
    }

    /// Process a batch of data points at the instant `now`.
    pub fn process_batch_at<F: Fn(NumericQuery) -> NumericAnswer>(
        &mut self,
        data_points: Vec<DataPoint>,
        now: Timestamp,
        eval: &F,
    ) -> (r: Result<Vec<DataPoint>, Error>)
        requires
            consistent(*eval),
            representable(now),
            old(self).batch_ready() || data_points.len() == 0,
        ensures
            final(self).batch_ready() == old(self).batch_ready(),
            r matches Ok(out) && exists|ids: Seq<u128>|
                #[trigger] op_batch(
                    old(self).view(),
                    points_view(data_points@),
                    now,
                    oracle(*eval),
                    ids,
                ) == (final(self).view(), points_view(out@)),
    {
        match self {
            StreamOperation::Aggregate(a) => {
                let ghost pv = points_view(data_points@);
                let ghost before = AggregateState {
                    windows: a.windows(),
                    last_window_end: a.last_window_end,
                };
                let r = a.process_batch_at(data_points, now, eval);
                proof {
                    if let Ok(out) = &r {
                        let ids = choose|ids: Seq<u128>|
                            points_view(out@) == aggregate_step(
                                a.settings(),
                                before,
                                pv,
                                now,
                                oracle(*eval),
                                ids,
                            ).1;
                        assert(op_batch(
                            OpState::Aggregate { settings: a.settings(), state: before },
                            pv,
                            now,
                            oracle(*eval),
                            ids,
                        ) == (self.view(), points_view(out@)));
                    }
                }
                r
            },
            _ => {
                let r = self.process_each(data_points, now, eval);
                proof {
                    if let Ok(out) = &r {
                        assert(op_batch(
                            self.view(),
                            points_view(data_points@),
                            now,
                            oracle(*eval),
                            Seq::empty(),
                        ) == (self.view(), points_view(out@)));
                    }
                }
                r
            },
        }
    }

    /// Process a batch point by point, keeping the points each one yields.
    pub fn process_each<F: Fn(NumericQuery) -> NumericAnswer>(
        &self,
        data_points: Vec<DataPoint>,
        now: Timestamp,
        eval: &F,
    ) -> (r: Result<Vec<DataPoint>, Error>)
        requires
            consistent(*eval),
            representable(now),
        ensures
            r matches Ok(out) && points_view(out@) == map_single(
                self.view(),
                points_view(data_points@),
                rfc3339_text(now.secs, now.nanos),
                oracle(*eval),
            ),
    {
        let ghost pv = points_view(data_points@);
        let ghost text = rfc3339_text(now.secs, now.nanos);
        let mut rest = data_points;
        let mut results: Vec<DataPoint> = Vec::new();
        let n = rest.len();
        let mut i: usize = 0;
        assert(pv.take(0) =~= Seq::<PointView>::empty());
        assert(pv.skip(0) =~= pv);
        assert(points_view(results@) =~= Seq::<PointView>::empty());
        while i < n
            invariant
                n == pv.len(),
                i <= n,
                rest.len() == n - i,
                consistent(*eval),
                representable(now),
                text == rfc3339_text(now.secs, now.nanos),
                points_view(rest@) == pv.skip(i as int),
                points_view(results@) == map_single(self.view(), pv.take(i as int), text, oracle(*eval)),
            decreases n - i,
        {
            let ghost before = rest@;
            let p = rest.remove(0);
            assert(points_view(before)[0] == p.view());
            assert(forall|j: int| 0 <= j < rest.len() ==> rest@[j] == before[j + 1]);
            assert(forall|j: int| 0 <= j < rest.len() ==> points_view(rest@)[j] == points_view(before)[j + 1]);
            assert(points_view(rest@) =~= pv.skip(i + 1));
            assert(pv.take(i + 1).drop_last() =~= pv.take(i as int));
            assert(pv.take(i + 1).last() == p.view());
            let ghost rb = points_view(results@);
            let ghost ppv = p.view();
            let ghost single = op_single(self.view(), ppv, text, oracle(*eval));
            assert(map_single(self.view(), pv.take(i + 1), text, oracle(*eval)) == match single {
                Some(q) => rb.push(q),
                None => rb,
            });
            let res = self.process_single_at(p, now, eval);
            match res {
                Ok(Some(q)) => {
                    let ghost qv = q.view();
                    assert(single == Some(qv));
                    results.push(q);
                    assert(points_view(results@) =~= rb.push(qv));
                },
                Ok(None) => {
                    assert(single is None);
                },
                Err(_) => {
                    assert(false);
                },
            }
            i = i + 1;
        }
        assert(pv.take(n as int) =~= pv);
        Ok(results)
    }
}

/// Factory for creating stream operations from configuration.
pub struct OperationFactory;

impl OperationFactory {
    /// Create a new operation from the given configuration; aggregations
    /// produce points for stream `stream_id`.
    pub fn create(operation: Operation, stream_id: u128) -> (r: Result<StreamOperation, Error>)
        ensures
            r matches Ok(op) && op.built_from(operation.view(), stream_id),
    {
        match operation {
            Operation::Filter { condition } => match FilterOperation::new(condition) {
                Ok(f) => Ok(StreamOperation::Filter(f)),
                Err(e) => Err(e),
            },
            Operation::Transform { transformation } => match TransformOperation::new(transformation) {
                Ok(t) => Ok(StreamOperation::Transform(t)),
                Err(e) => Err(e),
            },
            Operation::Aggregate { window_seconds, function, field } => Ok(
                StreamOperation::Aggregate(
                    AggregateOperation::new(window_seconds, function, field, stream_id),
                ),
            ),
            Operation::AnomalyDetection { algorithm, parameters } => match AnomalyDetectionOperation::new(
                algorithm,
                parameters,
            ) {
                Ok(d) => Ok(StreamOperation::AnomalyDetection(d)),
                Err(e) => Err(e),
            },
        }
    }
}

} // verus!
