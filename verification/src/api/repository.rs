//! The SQL text of the query API's time-series queries, and the aggregation
//! functions they accept.
use vstd::prelude::*;
use crate::common::error::Error;
use crate::common::format::{dec_digits, decimal_text, uuid_string, uuid_text};
use crate::common::text::str_eq;
use crate::common::utils::generate_id;

verus! {

/// What `str::to_lowercase` gives for a text (Unicode lower-case mapping).
pub uninterp spec fn lowercase(s: Seq<char>) -> Seq<char>;

/// `str::to_lowercase`: the text with every character replaced by its
/// Unicode lower-case mapping. The result is named by `lowercase`.
#[verifier::external_body]
fn to_lowercase(s: &str) -> (r: String)
    ensures
        r@ == lowercase(s@),
{
    s.to_lowercase()
}

/// The SQL aggregate for an aggregation function name already in lower
/// case: sum, avg or average, min, max and count.
pub open spec fn sql_function(lower: Seq<char>) -> Option<Seq<char>> {
    if lower == "sum"@ {
        Some("SUM"@)
    } else if lower == "avg"@ || lower == "average"@ {
        Some("AVG"@)
    } else if lower == "min"@ {
        Some("MIN"@)
    } else if lower == "max"@ {
        Some("MAX"@)
    } else if lower == "count"@ {
        Some("COUNT"@)
    } else {
        None
    }
}

/// The SQL aggregate for `function` given its lower-case form `lower`, or the
/// validation error "Invalid aggregation function: " and the name as given.
pub fn aggregate_for(lower: &str, function: &str) -> (r: Result<String, Error>)
    ensures
        match sql_function(lower@) {
            Some(f) => r matches Ok(s) && s@ == f,
            None => r matches Err(Error::Validation(m)) && m@ == "Invalid aggregation function: "@ + function@,
        },
{
    if str_eq(lower, "sum") {
        Ok("SUM".to_owned())
    } else if str_eq(lower, "avg") || str_eq(lower, "average") {
        Ok("AVG".to_owned())
    } else if str_eq(lower, "min") {
        Ok("MIN".to_owned())
    } else if str_eq(lower, "max") {
        Ok("MAX".to_owned())
    } else if str_eq(lower, "count") {
        Ok("COUNT".to_owned())
    } else {
        let mut message = "Invalid aggregation function: ".to_owned();
        message.append(function);
        Err(Error::Validation(message))
    }
}

/// Validate an aggregation function name, in any case: the SQL aggregate it
/// stands for.
pub fn aggregate_function(function: &str) -> (r: Result<String, Error>)
    ensures
        match sql_function(lowercase(function@)) {
            Some(f) => r matches Ok(s) && s@ == f,
            None => r matches Err(Error::Validation(m)) && m@ == "Invalid aggregation function: "@ + function@,
        },
{
    let lower = to_lowercase(function);
    aggregate_for(lower.as_str(), function)
}

/// The LIMIT clause of a data query: empty without a limit.
pub open spec fn limit_clause(limit: Option<usize>) -> Seq<char> {
    match limit {
        Some(l) => "LIMIT "@ + dec_digits(l as nat),
        None => Seq::empty(),
    }
}

/// The SQL of a data query: the points of a stream in a time range, in time
/// order, at most `limit` of them.
pub open spec fn data_query_sql(limit: Option<usize>) -> Seq<char> {
    "\n            SELECT id, stream_id, timestamp, payload\n            FROM data_points\n            WHERE stream_id = $1 AND timestamp >= $2 AND timestamp <= $3\n            ORDER BY timestamp\n            "@
        + limit_clause(limit) + "\n            "@
}

/// The SQL of a data query with the given limit.
pub fn data_query(limit: Option<usize>) -> (r: String)
    ensures
        r@ == data_query_sql(limit),
{
    let mut q = "\n            SELECT id, stream_id, timestamp, payload\n            FROM data_points\n            WHERE stream_id = $1 AND timestamp >= $2 AND timestamp <= $3\n            ORDER BY timestamp\n            ".to_owned();
    let ghost head = q@;
    match limit {
        Some(l) => {
            q.append("LIMIT ");
            q.append(decimal_text(l as u64).as_str());
        },
        None => {},
    }
    q.append("\n            ");
    assert(q@ =~= data_query_sql(limit));
    q
}

/// The SQL that reads `field` of the payload.
pub open spec fn field_path(field: Seq<char>) -> Seq<char> {
    "payload->'"@ + field + "'"@
}

/// The SQL that buckets timestamps by `interval`.
pub open spec fn time_bucket(interval: Seq<char>) -> Seq<char> {
    "time_bucket('"@ + interval + "', timestamp)"@
}

/// The SQL of an aggregated query: per time bucket of `interval`, the
/// aggregate `function` of `field` and the number of points, the rows
/// carrying the identifier `id`.
pub open spec fn aggregated_query_sql(id: u128, interval: Seq<char>, function: Seq<char>, field: Seq<char>) -> Seq<
    char,
> {
    "\n            SELECT\n                '"@ + uuid_text(id) + "' AS id,\n                $1 AS stream_id,\n                "@
        + time_bucket(interval) + " AS timestamp,\n                jsonb_build_object(\n                    '"@ + field
        + "', "@ + function + "("@ + field_path(field)
        + ")::text::numeric,\n                    'count', COUNT(*)\n                ) AS payload\n            FROM data_points\n            WHERE stream_id = $1 AND timestamp >= $2 AND timestamp <= $3\n            GROUP BY "@
        + time_bucket(interval) + "\n            ORDER BY "@ + time_bucket(interval) + "\n            "@
}

/// The SQL of an aggregated query with the row identifier `id` and the SQL
/// aggregate `function`.
pub fn aggregated_query_with(id: u128, interval: &str, function: &str, field: &str) -> (r: String)
    ensures
        r@ == aggregated_query_sql(id, interval@, function@, field@),
{
    let mut bucket = "time_bucket('".to_owned();
    bucket.append(interval);
    bucket.append("', timestamp)");
    let mut path = "payload->'".to_owned();
    path.append(field);
    path.append("'");
    let mut q = "\n            SELECT\n                '".to_owned();
    q.append(uuid_string(id).as_str());
    q.append("' AS id,\n                $1 AS stream_id,\n                ");
    q.append(bucket.as_str());
    q.append(" AS timestamp,\n                jsonb_build_object(\n                    '");
    q.append(field);
    q.append("', ");
    q.append(function);
    q.append("(");
    q.append(path.as_str());
    q.append(")::text::numeric,\n                    'count', COUNT(*)\n                ) AS payload\n            FROM data_points\n            WHERE stream_id = $1 AND timestamp >= $2 AND timestamp <= $3\n            GROUP BY ");
    q.append(bucket.as_str());
    q.append("\n            ORDER BY ");
    q.append(bucket.as_str());
    q.append("\n            ");
    assert(q@ =~= aggregated_query_sql(id, interval@, function@, field@));
    q
}

/// The SQL of an aggregated query: the function name is validated first,
/// and the rows carry a fresh random identifier.
pub fn aggregated_query(interval: &str, function: &str, field: &str) -> (r: Result<String, Error>)
    ensures
        match sql_function(lowercase(function@)) {
            Some(f) => r matches Ok(q) && exists|id: u128|
                q@ == #[trigger] aggregated_query_sql(id, interval@, f, field@),
            None => r matches Err(Error::Validation(m)) && m@ == "Invalid aggregation function: "@ + function@,
        },
{
    let agg = match aggregate_function(function) {
        Ok(a) => a,
        Err(e) => return Err(e),
    };
    let id = generate_id();
    let q = aggregated_query_with(id, interval, agg.as_str(), field);
    Ok(q)
}

/// The SQL of the statistics of `field`: minimum, maximum, mean, standard
/// deviation, count and first and last timestamps over a time range.
pub open spec fn field_stats_sql(field: Seq<char>) -> Seq<char> {
    let p = field_path(field);
    "\n            SELECT\n                MIN(("@ + p + ")::text::numeric) AS min,\n                MAX(("@ + p
        + ")::text::numeric) AS max,\n                AVG(("@ + p + ")::text::numeric) AS avg,\n                STDDEV(("@
        + p
        + ")::text::numeric) AS stddev,\n                COUNT(*) AS count,\n                MIN(timestamp) AS first_timestamp,\n                MAX(timestamp) AS last_timestamp\n            FROM data_points\n            WHERE \n                stream_id = $1 AND \n                timestamp >= $2 AND \n                timestamp <= $3 AND\n                ("@
        + p + ") IS NOT NULL\n            "@
}

/// The SQL of the statistics of `field`.
pub fn field_stats_query(field: &str) -> (r: String)
    ensures
        r@ == field_stats_sql(field@),
{
    let mut p = "payload->'".to_owned();
    p.append(field);
    p.append("'");
    let mut q = "\n            SELECT\n                MIN((".to_owned();
    q.append(p.as_str());
    q.append(")::text::numeric) AS min,\n                MAX((");
    q.append(p.as_str());
    q.append(")::text::numeric) AS max,\n                AVG((");
    q.append(p.as_str());
    q.append(")::text::numeric) AS avg,\n                STDDEV((");
    q.append(p.as_str());
    q.append(")::text::numeric) AS stddev,\n                COUNT(*) AS count,\n                MIN(timestamp) AS first_timestamp,\n                MAX(timestamp) AS last_timestamp\n            FROM data_points\n            WHERE \n                stream_id = $1 AND \n                timestamp >= $2 AND \n                timestamp <= $3 AND\n                (");
    q.append(p.as_str());
    q.append(") IS NOT NULL\n            ");
    assert(q@ =~= field_stats_sql(field@));
    q
}

} // verus!
