//! Stream lookups of the query API service.
use vstd::prelude::*;
use crate::common::error::Error;
use crate::common::format::{uuid_string, uuid_text};
use crate::common::json::{json_get, lemma_entries_json, object_view, Json, JsonValue};
use crate::common::models::Stream;

verus! {

/// Response for listing streams.
#[derive(Debug)]
pub struct ListStreamsResponse {
    /// Array of streams
    pub streams: Vec<Stream>,
}

/// Response for a single stream.
#[derive(Debug)]
pub struct StreamResponse {
    /// The stream object
    pub stream: Stream,
}

/// The error for a stream that is not found: "Stream not found: " and the
/// stream's hyphenated ID.
pub open spec fn stream_not_found(id: u128, e: Error) -> bool {
    e matches Error::NotFound(m) && m@ == "Stream not found: "@ + uuid_text(id)
}

/// The stream a lookup of `id` found, or the not-found error when there was
/// none.
pub fn require_stream(found: Option<Stream>, id: u128) -> (r: Result<Stream, Error>)
    ensures
        match found {
            Some(s) => r == Ok::<Stream, Error>(s),
            None => r matches Err(e) && stream_not_found(id, e),
        },
{
    match found {
        Some(s) => Ok(s),
        None => {
            let mut message = "Stream not found: ".to_owned();
            message.append(uuid_string(id).as_str());
            Err(Error::NotFound(message))
        },
    }
}

/// The field names a schema declares: the keys of its "properties" object,
/// in order, or none when it has no such object.
pub open spec fn schema_fields(schema: Json) -> Seq<Seq<char>> {
    match json_get(schema, "properties"@) {
        Some(Json::Object(entries)) => entries.map_values(|e: (Seq<char>, Json)| e.0),
        _ => Seq::empty(),
    }
}

/// The views of a list of strings.
pub open spec fn texts(v: Seq<String>) -> Seq<Seq<char>> {
    v.map_values(|s: String| s@)
}

/// Extract field names from a JSON schema: the keys of its "properties"
/// object (a flat schema is assumed).
pub fn extract_fields_from_schema(schema: &JsonValue) -> (r: Vec<String>)
    ensures
        texts(r@) == schema_fields(schema.json()),
{
    proof {
        reveal_strlit("properties");
    }
    let mut fields: Vec<String> = Vec::new();
    match schema.get("properties") {
        Some(JsonValue::Object(entries)) => {
            let ghost view = object_view(*entries);
            proof {
                lemma_entries_json(*entries, entries.len() as nat);
            }
            let mut i: usize = 0;
            while i < entries.len()
                invariant
                    i <= entries.len(),
                    view == object_view(*entries),
                    view.len() == entries.len(),
                    forall|k: int| 0 <= k < entries.len() ==> #[trigger] view[k] == (entries[k].0@, entries[k].1.json()),
                    texts(fields@) =~= view.take(i as int).map_values(|e: (Seq<char>, Json)| e.0),
                decreases entries.len() - i,
            {
                let ghost before = fields@;
                fields.push(entries[i].0.clone());
                assert(texts(fields@) =~= texts(before).push(entries[i as int].0@));
                assert(view.take(i + 1) =~= view.take(i as int).push(view[i as int]));
                i = i + 1;
            }
            assert(view.take(i as int) =~= view);
            assert(JsonValue::Object(*entries).json() == Json::Object(view));
            fields
        },
        _ => {
            assert(texts(fields@) =~= Seq::<Seq<char>>::empty());
            fields
        },
    }
}

} // verus!
