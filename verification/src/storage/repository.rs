//! The storage service's repository decisions: how stream metadata is
//! stored, and the pipeline repository that is not provided.
use vstd::prelude::*;
use crate::common::error::Error;
use crate::common::models::Pipeline;

verus! {

/// How a stream's metadata is stored.
#[derive(Clone, Copy, Debug, PartialEq, Eq, Structural)]
pub enum StoreAction {
    /// The stream exists: update it.
    Update,
    /// The stream is new: create it.
    Create,
}

/// How to store a stream's metadata, given whether a stream with its ID
/// exists: update an existing stream, create a new one.
pub fn metadata_action(exists: bool) -> (r: StoreAction)
    ensures
        r == (if exists {
            StoreAction::Update
        } else {
            StoreAction::Create
        }),
{
    if exists {
        StoreAction::Update
    } else {
        StoreAction::Create
    }
}

/// The error of every pipeline repository operation that is not provided.
pub open spec fn not_provided(e: Error) -> bool {
    e matches Error::Unexpected(m) && m@ == "Pipeline repository not implemented for MVP"@
}

fn not_provided_error() -> (r: Error)
    ensures
        not_provided(r),
{
    Error::Unexpected("Pipeline repository not implemented for MVP".to_owned())
}

/// The pipeline repository: pipelines are not stored, so listing finds none
/// and every other operation fails.
pub struct DummyPipelineRepository;

impl DummyPipelineRepository {
    /// Create a new pipeline: not provided.
    pub fn create(&self, pipeline: &Pipeline) -> (r: Result<(), Error>)
        ensures
            r matches Err(e) && not_provided(e),
    {
        Err(not_provided_error())
    }

    /// Get a pipeline by ID: not provided.
    pub fn get(&self, id: u128) -> (r: Result<Option<Pipeline>, Error>)
        ensures
            r matches Err(e) && not_provided(e),
    {
        Err(not_provided_error())
    }

    /// List all pipelines: there are none.
    pub fn list(&self) -> (r: Result<Vec<Pipeline>, Error>)
        ensures
            r matches Ok(v) && v.len() == 0,
    {
        Ok(Vec::new())
    }

    /// List the pipelines of a stream: there are none.
    pub fn list_for_stream(&self, stream_id: u128) -> (r: Result<Vec<Pipeline>, Error>)
        ensures
            r matches Ok(v) && v.len() == 0,
    {
        Ok(Vec::new())
    }

    /// Update a pipeline: not provided.
    pub fn update(&self, pipeline: &Pipeline) -> (r: Result<(), Error>)
        ensures
            r matches Err(e) && not_provided(e),
    {
        Err(not_provided_error())
    }

    /// Delete a pipeline: not provided.
    pub fn delete(&self, id: u128) -> (r: Result<(), Error>)
        ensures
            r matches Err(e) && not_provided(e),
    {
        Err(not_provided_error())
    }
}

} // verus!
