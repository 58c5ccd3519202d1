//! Data queries of the query API service: the time range of a query and
//! the metadata of its answer.
use vstd::prelude::*;
use crate::common::error::Error;
use crate::common::models::{is_after, later_than, DataPoint, Timestamp};
use crate::common::utils::{current_timestamp, parse_rfc3339, rfc3339_parse, MAX_SECS};

verus! {

/// Query parameters for data retrieval.
#[derive(Debug)]
pub struct DataQuery {
    /// Start time for the query (ISO 8601 format)
    pub start: Option<String>,
    /// End time for the query (ISO 8601 format)
    pub end: Option<String>,
    /// Maximum number of data points to return
    pub limit: Option<usize>,
}

/// Query parameters for data aggregation.
#[derive(Debug)]
pub struct AggregationQuery {
    /// Start time for the query (ISO 8601 format)
    pub start: Option<String>,
    /// End time for the query (ISO 8601 format)
    pub end: Option<String>,
    /// Aggregation interval (e.g., '1 hour', '5 minutes')
    pub interval: String,
    /// Aggregation function (sum, avg, min, max, count)
    pub function: String,
    /// Field to aggregate
    pub field: String,
}

/// Query metadata.
#[derive(Debug)]
pub struct QueryMetadata {
    /// Stream ID
    pub stream_id: u128,
    /// Start time of the query
    pub start_time: Timestamp,
    /// End time of the query
    pub end_time: Timestamp,
    /// Number of data points returned
    pub count: usize,
}

/// Response for data query.
#[derive(Debug)]
pub struct DataQueryResponse {
    /// Array of data points
    pub data: Vec<DataPoint>,
    /// Query metadata
    pub meta: QueryMetadata,
}

/// The number of seconds in a day.
pub const SECONDS_PER_DAY: i64 = 86400;

/// The instant one day before `t` (as chrono's `t - Duration::days(1)`): a
/// leap second (nanoseconds of one second or more) is left for the second
/// after it before the day is taken off.
pub open spec fn day_before(t: Timestamp) -> Timestamp {
    if t.nanos >= 1_000_000_000 {
        Timestamp { secs: (t.secs + 1 - 86400) as i64, nanos: (t.nanos - 1_000_000_000) as u32 }
    } else {
        Timestamp { secs: (t.secs - 86400) as i64, nanos: t.nanos }
    }
}

/// The time range a query asks for, from what parsing its bounds gave (`None`
/// for a bound it leaves out) and the current time: the end defaults to now
/// and the start to one day before the end. A bound that does not parse is
/// refused, the end first; so is a start later than the end.
pub open spec fn time_range(
    start: Option<Result<(i64, u32), Seq<char>>>,
    end: Option<Result<(i64, u32), Seq<char>>>,
    now: Timestamp,
) -> Result<(Timestamp, Timestamp), Seq<char>> {
    let end_t: Result<Timestamp, Seq<char>> = match end {
        Some(Ok(t)) => Ok(Timestamp { secs: t.0, nanos: t.1 }),
        Some(Err(e)) => Err("Invalid end time format: "@ + e),
        None => Ok(now),
    };
    match end_t {
        Err(m) => Err(m),
        Ok(e) => {
            let start_t: Result<Timestamp, Seq<char>> = match start {
                Some(Ok(t)) => Ok(Timestamp { secs: t.0, nanos: t.1 }),
                Some(Err(m)) => Err("Invalid start time format: "@ + m),
                None => Ok(day_before(e)),
            };
            match start_t {
                Err(m) => Err(m),
                Ok(s) => if is_after(s, e) {
                    Err("Start time must be before end time"@)
                } else {
                    Ok((s, e))
                },
            }
        },
    }
}

/// A time range that is granted never starts after it ends.
pub proof fn lemma_time_range_ordered(
    start: Option<Result<(i64, u32), Seq<char>>>,
    end: Option<Result<(i64, u32), Seq<char>>>,
    now: Timestamp,
)
    ensures
        time_range(start, end, now) matches Ok((s, e)) ==> !is_after(s, e),
{
}

/// The instant of a parsed (seconds, nanoseconds) pair.
pub open spec fn instant(t: (i64, u32)) -> Timestamp {
    Timestamp { secs: t.0, nanos: t.1 }
}

/// The bounds given are the bounds of the range: a start that parses is its
/// start, an end that parses is its end, and without an end the range ends
/// now. A bound that does not parse refuses the range.
pub proof fn lemma_time_range_uses_given_bounds(
    start: Option<Result<(i64, u32), Seq<char>>>,
    end: Option<Result<(i64, u32), Seq<char>>>,
    now: Timestamp,
)
    ensures
        start is Some && start->Some_0 is Ok && time_range(start, end, now) is Ok ==> time_range(
            start,
            end,
            now,
        )->Ok_0.0 == instant(start->Some_0->Ok_0),
        end is Some && end->Some_0 is Ok && time_range(start, end, now) is Ok ==> time_range(
            start,
            end,
            now,
        )->Ok_0.1 == instant(end->Some_0->Ok_0),
        end is None && time_range(start, end, now) is Ok ==> time_range(start, end, now)->Ok_0.1 == now,
        start is Some && start->Some_0 is Err ==> time_range(start, end, now) is Err,
        end is Some && end->Some_0 is Err ==> time_range(start, end, now) is Err,
        start is Some && start->Some_0 is Ok && end is Some && end->Some_0 is Ok ==> (time_range(
            start,
            end,
            now,
        ) is Ok <==> !is_after(instant(start->Some_0->Ok_0), instant(end->Some_0->Ok_0))),
{
}

/// Without bounds, a query covers the day before now: it ends now and
/// starts 86400 seconds earlier (at a leap second, a day before the second
/// that follows it).
pub proof fn lemma_default_range_is_last_day(now: Timestamp)
    requires
        now.secs >= i64::MIN + 86400,
    ensures
        now.nanos < 1_000_000_000 ==> time_range(None, None, now) == Ok::<(Timestamp, Timestamp), Seq<char>>(
            (Timestamp { secs: (now.secs - 86400) as i64, nanos: now.nanos }, now),
        ),
        now.nanos >= 1_000_000_000 ==> time_range(None, None, now) == Ok::<(Timestamp, Timestamp), Seq<char>>(
            (Timestamp { secs: (now.secs + 1 - 86400) as i64, nanos: (now.nanos - 1_000_000_000) as u32 }, now),
        ),
{
}

/// The view of a parse result.
pub open spec fn parsed_view(p: Option<Result<Timestamp, String>>) -> Option<Result<(i64, u32), Seq<char>>> {
    match p {
        Some(Ok(t)) => Some(Ok((t.secs, t.nanos))),
        Some(Err(e)) => Some(Err(e@)),
        None => None,
    }
}

/// Whether a parsed bound lies where RFC 3339 parsing can put it: within a
/// day of the years 0000 to 9999.
pub open spec fn bound_in_range(p: Option<Result<Timestamp, String>>) -> bool {
    p matches Some(Ok(t)) ==> -62167219200 - 86400 <= t.secs <= 253402300799 + 86400
}

/// The time range of a query from the parsed bounds and the current time
/// (see `time_range`); every refusal is a validation error.
pub fn resolve_time_range(
    start: Option<Result<Timestamp, String>>,
    end: Option<Result<Timestamp, String>>,
    now: Timestamp,
) -> (r: Result<(Timestamp, Timestamp), Error>)
    requires
        bound_in_range(end),
        0 <= now.secs <= MAX_SECS,
    ensures
        match time_range(parsed_view(start), parsed_view(end), now) {
            Ok(range) => r == Ok::<(Timestamp, Timestamp), Error>(range),
            Err(m) => r matches Err(Error::Validation(s)) && s@ == m,
        },
{
    let end_time = match end {
        Some(Ok(t)) => t,
        Some(Err(e)) => {
            let mut message = "Invalid end time format: ".to_owned();
            message.append(e.as_str());
            return Err(Error::Validation(message));
        },
        None => now,
    };
    let start_time = match start {
        Some(Ok(t)) => t,
        Some(Err(e)) => {
            let mut message = "Invalid start time format: ".to_owned();
            message.append(e.as_str());
            return Err(Error::Validation(message));
        },
        None => if end_time.nanos >= 1_000_000_000 {
            Timestamp { secs: end_time.secs + 1 - SECONDS_PER_DAY, nanos: end_time.nanos - 1_000_000_000 }
        } else {
            Timestamp { secs: end_time.secs - SECONDS_PER_DAY, nanos: end_time.nanos }
        },
    };
    if later_than(start_time, end_time) {
        return Err(Error::Validation("Start time must be before end time".to_owned()));
    }
    Ok((start_time, end_time))
}

/// Parse an optional RFC 3339 bound.
fn parse_bound(text: &Option<String>) -> (r: Option<Result<Timestamp, String>>)
    ensures
        match *text {
            Some(s) => parsed_view(r) == Some(rfc3339_parse(s@)),
            None => r is None,
        },
        bound_in_range(r),
{
    match text {
        Some(s) => Some(parse_rfc3339(s.as_str())),
        None => None,
    }
}

/// The view of an optional text.
pub open spec fn opt_text(o: Option<String>) -> Option<Seq<char>> {
    match o {
        Some(s) => Some(s@),
        None => None,
    }
}

/// What parsing an optional text gives.
pub open spec fn parse_opt(o: Option<Seq<char>>) -> Option<Result<(i64, u32), Seq<char>>> {
    match o {
        Some(s) => Some(rfc3339_parse(s)),
        None => None,
    }
}

/// Whether `r` is what `time_range` gives for the texts `start` and `end`
/// at some reading `now` of the clock.
pub open spec fn time_range_at_some_time(
    start: Option<Seq<char>>,
    end: Option<Seq<char>>,
    r: Result<(Timestamp, Timestamp), Error>,
) -> bool {
    exists|now: Timestamp|
        0 <= now.secs <= MAX_SECS && now.nanos < 1_000_000_000 && match #[trigger] time_range(
            parse_opt(start),
            parse_opt(end),
            now,
        ) {
            Ok(range) => r == Ok::<(Timestamp, Timestamp), Error>(range),
            Err(m) => r matches Err(Error::Validation(s)) && s@ == m,
        }
}

/// Parse start and end time from query parameters: the end defaults to now
/// and the start to one day before the end.
pub fn parse_time_range(start: &Option<String>, end: &Option<String>) -> (r: Result<(Timestamp, Timestamp), Error>)
    ensures
        time_range_at_some_time(opt_text(*start), opt_text(*end), r),
{
    let end_parsed = parse_bound(end);
    let start_parsed = parse_bound(start);
    let now = current_timestamp();
    let r = resolve_time_range(start_parsed, end_parsed, now);
    assert(parsed_view(end_parsed) == parse_opt(opt_text(*end)));
    assert(parsed_view(start_parsed) == parse_opt(opt_text(*start)));
    assert(match time_range(parse_opt(opt_text(*start)), parse_opt(opt_text(*end)), now) {
        Ok(range) => r == Ok::<(Timestamp, Timestamp), Error>(range),
        Err(m) => r matches Err(Error::Validation(s)) && s@ == m,
    });
    r
}

/// The metadata of a query's answer: its stream, its time range and how many
/// points it holds.
pub fn query_metadata(stream_id: u128, start_time: Timestamp, end_time: Timestamp, data: &Vec<DataPoint>) -> (r:
    QueryMetadata)
    ensures
        r.stream_id == stream_id,
        r.start_time == start_time,
        r.end_time == end_time,
        r.count == data.len(),
{
    QueryMetadata { stream_id, start_time, end_time, count: data.len() }
}

} // verus!
