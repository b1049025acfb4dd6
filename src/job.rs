use vstd::prelude::*;
use crate::error::DdlError;

verus! {

/// The version handed to a caller that must not wait for the change.
pub const IGNORED_NOTIFICATION_VERSION: u64 = 0;

/// Whether the caller waits for the job to be activated and committed.
#[derive(Clone, Copy, Debug, PartialEq, Eq, Structural)]
pub enum CreateType {
    /// Treated as `Foreground`.
    Unspecified,
    Foreground,
    Background,
}

/// How a table job is fed.
#[derive(Clone, Copy, Debug, PartialEq, Eq, Structural)]
pub enum TableJobType {
    General,
    SharedCdcSource,
}

/// The kinds of streaming job, each with the ids it carries.
#[derive(Clone, Copy, Debug, PartialEq, Eq, Structural)]
pub enum StreamingJob {
    /// A table, with the id of its ingestion source when it has one.
    Table { source_id: Option<u32>, table_id: u32, job_type: TableJobType },
    Source { source_id: u32 },
    /// A sink, with the table it writes into when it has one.
    Sink { sink_id: u32, target_table: Option<u32> },
    MaterializedView { table_id: u32 },
    Index { index_id: u32 },
}

/// The validation or registration that a built job needs before it is prepared.
#[derive(Clone, Copy, Debug, PartialEq, Eq, Structural)]
pub enum Validation {
    /// Check the table's shape against the shared CDC source.
    CdcTable,
    /// Register the source with the connector node.
    RegisterSource { source_id: u32 },
    /// Validate the sink against the connector node.
    Sink,
    /// Nothing to check.
    Nothing,
}

/// The source that the job registers with the connector node, if any.
pub open spec fn spec_registered_source(job: StreamingJob) -> Option<u32> {
    match job {
        StreamingJob::Table { source_id: Some(s), .. } => Some(s),
        StreamingJob::Source { source_id } => Some(source_id),
        _ => None,
    }
}

/// What a built job must pass before it is prepared.
pub open spec fn spec_validation(job: StreamingJob) -> Result<Validation, DdlError> {
    match job {
        StreamingJob::Table { source_id: None, job_type: TableJobType::SharedCdcSource, .. } => Ok(
            Validation::CdcTable,
        ),
        StreamingJob::Table { source_id: Some(s), .. } => Ok(Validation::RegisterSource { source_id: s }),
        StreamingJob::Sink { target_table: Some(_), .. } => Err(DdlError::Unsupported),
        StreamingJob::Sink { target_table: None, .. } => Ok(Validation::Sink),
        StreamingJob::Source { source_id } => Ok(Validation::RegisterSource { source_id }),
        _ => Ok(Validation::Nothing),
    }
}

pub open spec fn is_background(t: CreateType) -> bool {
    t == CreateType::Background
}

impl StreamingJob {
    /// The source registered for this job, which an aborted creation unregisters.
    pub fn registered_source(&self) -> (r: Option<u32>)
        ensures
            r == spec_registered_source(*self),
    {
        match self {
            StreamingJob::Table { source_id: Some(s), .. } => Some(*s),
            StreamingJob::Source { source_id } => Some(*source_id),
            _ => None,
        }
    }

    /// The validation this job needs once built; a sink into a table is not
    /// supported.
    pub fn validation(&self) -> (r: Result<Validation, DdlError>)
        ensures
            r == spec_validation(*self),
    {
        match self {
            StreamingJob::Table { source_id: None, job_type: TableJobType::SharedCdcSource, .. } => Ok(
                Validation::CdcTable,
            ),
            StreamingJob::Table { source_id: Some(s), .. } => Ok(Validation::RegisterSource { source_id: *s }),
            StreamingJob::Sink { target_table: Some(_), .. } => Err(DdlError::Unsupported),
            StreamingJob::Sink { target_table: None, .. } => Ok(Validation::Sink),
            StreamingJob::Source { source_id } => Ok(Validation::RegisterSource { source_id: *source_id }),
            _ => Ok(Validation::Nothing),
        }
    }
}

} // verus!
