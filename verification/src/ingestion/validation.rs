//! Validation of incoming data and of stream configurations.
use vstd::prelude::*;
use crate::common::error::Error;
use crate::common::format::{dec_digits, decimal_text};
use crate::common::json::{Json, JsonValue};
use crate::common::models::Stream;
use crate::common::text::{trim, trim_str};
use crate::common::utils::{schema_error, validate_json};

verus! {

/// Validates incoming data against a stream's schema.
pub struct DataValidator;

impl DataValidator {
    /// Validate a single data point against a stream's schema: a value that
    /// breaks the schema is refused with "Data validation failed: " and the
    /// description of how it breaks it (see `schema_error`).
    pub fn validate(data: &JsonValue, stream: &Stream) -> (r: Result<(), Error>)
        ensures
            match schema_error(data.json(), stream.schema.json()) {
                None => r is Ok,
                Some(m) => r matches Err(Error::Validation(s)) && s@ == "Data validation failed: "@ + m,
            },
    {
        match validate_json(data, &stream.schema) {
            Ok(()) => Ok(()),
            Err(e) => {
                let mut message = "Data validation failed: ".to_owned();
                message.append(e.as_str());
                Err(Error::Validation(message))
            },
        }
    }

    /// Validate a batch of data points against a stream's schema, stopping at
    /// the first failure: all valid gives `Ok`; otherwise the error names the
    /// first invalid item (see `batch_failure`).
    pub fn validate_batch(data_batch: &[JsonValue], stream: &Stream) -> (r: Result<(), Error>)
        ensures
            match r {
                Ok(()) => forall|j: int|
                    0 <= j < data_batch@.len() ==> #[trigger] schema_error(
                        data_batch@[j].json(),
                        stream.schema.json(),
                    ) is None,
                Err(e) => batch_refused(data_batch@, stream.schema.json(), e),
            },
    {
        let ghost schema = stream.schema.json();
        let mut index: usize = 0;
        while index < data_batch.len()
            invariant
                index <= data_batch.len(),
                schema == stream.schema.json(),
                forall|j: int| 0 <= j < index ==> #[trigger] schema_error(data_batch@[j].json(), schema) is None,
            decreases data_batch.len() - index,
        {
            if let Err(e) = Self::validate(&data_batch[index], stream) {
                let mut message = "Validation failed for item ".to_owned();
                message.append(decimal_text(index as u64).as_str());
                message.append(" in batch: ");
                message.append(e.message().as_str());
                proof {
                    let m = schema_error(data_batch@[index as int].json(), schema)->Some_0;
                    assert(message@ =~= "Validation failed for item "@ + dec_digits(index as nat) + " in batch: "@
                        + "Validation error: "@ + "Data validation failed: "@ + m);
                }
                let err = Error::Validation(message);
                assert(batch_failure(data_batch@, schema, index as int, err));
                return Err(err);
            }
            index = index + 1;
        }
        Ok(())
    }
}

/// The batch `items` is refused with `e` because item `i` is its first
/// invalid item: every item before it meets the schema, and `e` is "Validation
/// failed for item ", the index, " in batch: " and the text of the item's own
/// error ("Validation error: Data validation failed: " and the description).
pub open spec fn batch_failure(items: Seq<JsonValue>, schema: Json, i: int, e: Error) -> bool {
    &&& 0 <= i < items.len()
    &&& forall|j: int| 0 <= j < i ==> #[trigger] schema_error(items[j].json(), schema) is None
    &&& schema_error(items[i].json(), schema) matches Some(m) && e matches Error::Validation(s) && s@
        == "Validation failed for item "@ + dec_digits(i as nat) + " in batch: "@
        + "Validation error: "@ + "Data validation failed: "@ + m
}

/// The batch `items` is refused with `e` at its first invalid item.
pub open spec fn batch_refused(items: Seq<JsonValue>, schema: Json, e: Error) -> bool {
    exists|i: int| #[trigger] batch_failure(items, schema, i, e)
}

/// The first rule a stream configuration breaks, as the message it is
/// refused with, or `None` when it is valid: the name must not be blank, the
/// schema must be a JSON object and data must be kept at least one day.
pub open spec fn stream_problem(name: Seq<char>, schema: Json, days: u32) -> Option<Seq<char>> {
    if trim(name).len() == 0 {
        Some("Stream name cannot be empty"@)
    } else if !(schema is Object) {
        Some("Stream schema must be a JSON object"@)
    } else if days == 0 {
        Some("Retention days must be greater than 0"@)
    } else {
        None
    }
}

/// Validates stream configurations.
pub struct StreamValidator;

impl StreamValidator {
    /// Validate a stream configuration: a validation error names the first
    /// rule it breaks.
    pub fn validate(stream: &Stream) -> (r: Result<(), Error>)
        ensures
            match stream_problem(stream.name@, stream.schema.json(), stream.retention.days) {
                None => r is Ok,
                Some(m) => r matches Err(Error::Validation(s)) && s@ == m,
            },
    {
        let trimmed = trim_str(stream.name.as_str());
        if trimmed.as_str().unicode_len() == 0 {
            return Err(Error::Validation("Stream name cannot be empty".to_owned()));
        }
        if !stream.schema.is_object() {
            return Err(Error::Validation("Stream schema must be a JSON object".to_owned()));
        }
        if stream.retention.days == 0 {
            return Err(Error::Validation("Retention days must be greater than 0".to_owned()));
        }
        Ok(())
    }
}

} // verus!
