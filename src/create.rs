use vstd::prelude::*;
use crate::error::DdlError;
use crate::graph::{covers, covers_list, lookup, placeholders_declared, refilled, with_source, StreamFragmentGraph};
use crate::job::{
    is_background, spec_registered_source, spec_validation, CreateType, StreamingJob, Validation,
    IGNORED_NOTIFICATION_VERSION,
};

verus! {

/// Where a create request stands.
#[derive(Clone, Copy, Debug, PartialEq, Eq)]
pub enum CreatePhase {
    /// The job id and placeholder row are to be allocated.
    Requested,
    /// The fragment graph is to be built and the source id propagated.
    BuildingGraph,
    /// A creation permit and a shared hold on the reschedule lock are to be taken.
    Admitting,
    /// The internal tables are to be cataloged and their ids refilled.
    CreatingInternalTables,
    /// Fragments and actors are to be planned.
    Building,
    /// The built job is to be validated or registered.
    Validating(Validation),
    /// The fragment and actor rows are to be marked as being created.
    Preparing,
    /// The actors are to be activated while the caller waits.
    Activating,
    /// The job is to be committed.
    Finishing,
    /// Activation and commit are to be handed to a detached unit of work.
    Detaching,
    /// The creation is to be aborted; the error is what the caller gets.
    Aborting(DdlError),
    /// The source registered for the aborted job is to be unregistered.
    Unregistering { source_id: u32, error: DdlError },
    /// The request is over with this result.
    Done(Result<u64, DdlError>),
}

/// The next piece of outside work the caller must perform.
#[derive(Clone, Copy, Debug, PartialEq, Eq)]
pub enum CreateAction {
    CreateJobCatalog,
    BuildGraph,
    Admit,
    CreateInternalTables { job_id: u32 },
    BuildFragments,
    Validate(Validation),
    Prepare { job_id: u32 },
    Activate,
    Finish { job_id: u32 },
    SpawnBackground { job_id: u32 },
    AbortCreating { job_id: u32 },
    UnregisterSource { source_id: u32 },
    Return(Result<u64, DdlError>),
}

/// What came of the last action.
pub enum CreateEvent {
    Succeeded,
    JobCreated(u32),
    GraphBuilt(StreamFragmentGraph),
    InternalTablesCreated(Vec<(u32, u32)>),
    Committed(u64),
    AbortReported(bool),
    Failed(DdlError),
}

/// The action that a phase calls for.
pub open spec fn spec_create_action(phase: CreatePhase, job_id: u32) -> CreateAction {
    match phase {
        CreatePhase::Requested => CreateAction::CreateJobCatalog,
        CreatePhase::BuildingGraph => CreateAction::BuildGraph,
        CreatePhase::Admitting => CreateAction::Admit,
        CreatePhase::CreatingInternalTables => CreateAction::CreateInternalTables { job_id },
        CreatePhase::Building => CreateAction::BuildFragments,
        CreatePhase::Validating(v) => CreateAction::Validate(v),
        CreatePhase::Preparing => CreateAction::Prepare { job_id },
        CreatePhase::Activating => CreateAction::Activate,
        CreatePhase::Finishing => CreateAction::Finish { job_id },
        CreatePhase::Detaching => CreateAction::SpawnBackground { job_id },
        CreatePhase::Aborting(_) => CreateAction::AbortCreating { job_id },
        CreatePhase::Unregistering { source_id, .. } => CreateAction::UnregisterSource { source_id },
        CreatePhase::Done(r) => CreateAction::Return(r),
    }
}

/// The phase after the fragments are built: validation when the job needs
/// one, an abort when its kind is not supported.
pub open spec fn after_build(job: StreamingJob) -> CreatePhase {
    match spec_validation(job) {
        Ok(Validation::Nothing) => CreatePhase::Preparing,
        Ok(v) => CreatePhase::Validating(v),
        Err(e) => CreatePhase::Aborting(e),
    }
}

/// The phase after the rows are prepared: a foreground job is activated
/// while the caller waits, a background one is detached.
pub open spec fn after_prepare(create_type: CreateType) -> CreatePhase {
    if is_background(create_type) {
        CreatePhase::Detaching
    } else {
        CreatePhase::Activating
    }
}

/// The phase after an abort has been attempted.
pub open spec fn after_abort(job: StreamingJob, aborted: bool, error: DdlError) -> CreatePhase {
    match spec_registered_source(job) {
        Some(s) if aborted => CreatePhase::Unregistering { source_id: s, error },
        _ => CreatePhase::Done(Err(error)),
    }
}

/// How an event moves a create request on. A failure before the job id
/// exists ends the request; a later one aborts the job and keeps the error.
/// A built graph with a dangling placeholder is a graph error.
/// An event that does not answer the phase's action leaves it where it is.
pub open spec fn spec_create_next(
    phase: CreatePhase,
    job: StreamingJob,
    create_type: CreateType,
    ev: CreateEvent,
) -> CreatePhase {
    match (phase, ev) {
        (CreatePhase::Done(r), _) => CreatePhase::Done(r),
        (CreatePhase::Requested, CreateEvent::JobCreated(_)) => CreatePhase::BuildingGraph,
        (CreatePhase::Requested, CreateEvent::Failed(e)) => CreatePhase::Done(Err(e)),
        (CreatePhase::Aborting(e), CreateEvent::AbortReported(b)) => after_abort(job, b, e),
        (CreatePhase::Aborting(e), CreateEvent::Failed(_)) => CreatePhase::Done(Err(e)),
        (CreatePhase::Unregistering { error, .. }, _) => CreatePhase::Done(Err(error)),
        (_, CreateEvent::Failed(e)) => CreatePhase::Aborting(e),
        (CreatePhase::BuildingGraph, CreateEvent::GraphBuilt(g)) => if placeholders_declared(
            g.nodes@,
            g.internal_tables@,
        ) {
            CreatePhase::Admitting
        } else {
            CreatePhase::Aborting(DdlError::Graph)
        },
        (CreatePhase::Admitting, CreateEvent::Succeeded) => CreatePhase::CreatingInternalTables,
        (CreatePhase::CreatingInternalTables, CreateEvent::InternalTablesCreated(_)) => CreatePhase::Building,
        (CreatePhase::Building, CreateEvent::Succeeded) => after_build(job),
        (CreatePhase::Validating(_), CreateEvent::Succeeded) => CreatePhase::Preparing,
        (CreatePhase::Preparing, CreateEvent::Succeeded) => after_prepare(create_type),
        (CreatePhase::Activating, CreateEvent::Succeeded) => CreatePhase::Finishing,
        (CreatePhase::Finishing, CreateEvent::Committed(v)) => CreatePhase::Done(Ok(v)),
        (CreatePhase::Detaching, CreateEvent::Succeeded) => CreatePhase::Done(Ok(IGNORED_NOTIFICATION_VERSION)),
        (p, _) => p,
    }
}

/// The decisions of one create request, from the job description to the
/// result handed back; the caller performs each action and reports how it went.
pub struct CreateDriver {
    pub job: StreamingJob,
    pub create_type: CreateType,
    pub job_id: u32,
    /// The fragment of the job's table, set once the graph is built.
    pub table_fragment_id: Option<u32>,
    /// The fragment that takes DML, set once the graph is built.
    pub dml_fragment_id: Option<u32>,
    pub graph: StreamFragmentGraph,
    pub phase: CreatePhase,
}

impl CreateDriver {
    pub fn new(job: StreamingJob, create_type: CreateType) -> (r: CreateDriver)
        ensures
            r.job == job,
            r.create_type == create_type,
            r.phase == CreatePhase::Requested,
            r.table_fragment_id is None,
            r.dml_fragment_id is None,
            r.graph.nodes@.len() == 0,
            r.graph.internal_tables@.len() == 0,
    {
        CreateDriver {
            job,
            create_type,
            job_id: 0,
            table_fragment_id: None,
            dml_fragment_id: None,
            graph: StreamFragmentGraph {
                nodes: Vec::new(),
                internal_tables: Vec::new(),
                table_fragment_id: None,
                dml_fragment_id: None,
            },
            phase: CreatePhase::Requested,
        }
    }

    /// The outside work to perform next.
    pub fn action(&self) -> (r: CreateAction)
        ensures
            r == spec_create_action(self.phase, self.job_id),
    {
        match self.phase {
            CreatePhase::Requested => CreateAction::CreateJobCatalog,
            CreatePhase::BuildingGraph => CreateAction::BuildGraph,
            CreatePhase::Admitting => CreateAction::Admit,
            CreatePhase::CreatingInternalTables => CreateAction::CreateInternalTables { job_id: self.job_id },
            CreatePhase::Building => CreateAction::BuildFragments,
            CreatePhase::Validating(v) => CreateAction::Validate(v),
            CreatePhase::Preparing => CreateAction::Prepare { job_id: self.job_id },
            CreatePhase::Activating => CreateAction::Activate,
            CreatePhase::Finishing => CreateAction::Finish { job_id: self.job_id },
            CreatePhase::Detaching => CreateAction::SpawnBackground { job_id: self.job_id },
            CreatePhase::Aborting(_) => CreateAction::AbortCreating { job_id: self.job_id },
            CreatePhase::Unregistering { source_id, .. } => CreateAction::UnregisterSource { source_id },
            CreatePhase::Done(r) => CreateAction::Return(r),
        }
    }

    /// Moves the request on by the outcome of the last action. The graph
    /// that is built gets the job's source id; the internal-table ids that
    /// come back replace its placeholders.
    pub fn on_event(&mut self, ev: CreateEvent)
        requires
            (old(self).phase, ev) matches (CreatePhase::CreatingInternalTables, CreateEvent::InternalTablesCreated(ids))
                ==> covers(old(self).graph.nodes@, ids@) && covers_list(old(self).graph.internal_tables@, ids@),
        ensures
            final(self).phase == spec_create_next(old(self).phase, old(self).job, old(self).create_type, ev),
            final(self).job == old(self).job,
            final(self).create_type == old(self).create_type,
            (old(self).phase, ev) matches (CreatePhase::Requested, CreateEvent::JobCreated(id))
                ==> final(self).job_id == id,
            !((old(self).phase, ev) matches (CreatePhase::Requested, CreateEvent::JobCreated(_)))
                ==> final(self).job_id == old(self).job_id,
            (old(self).phase, ev) matches (CreatePhase::BuildingGraph, CreateEvent::GraphBuilt(g)) ==> {
                &&& final(self).graph.nodes@.len() == g.nodes@.len()
                &&& forall|i: int| 0 <= i < g.nodes@.len() ==> #[trigger] final(self).graph.nodes@[i] == match spec_registered_source(old(self).job) {
                    Some(s) => with_source(g.nodes@[i], s),
                    None => g.nodes@[i],
                }
                &&& final(self).graph.internal_tables@ == g.internal_tables@
                &&& final(self).graph.table_fragment_id == g.table_fragment_id
                &&& final(self).graph.dml_fragment_id == g.dml_fragment_id
                &&& final(self).table_fragment_id == g.table_fragment_id
                &&& final(self).dml_fragment_id == g.dml_fragment_id
            },
            !((old(self).phase, ev) matches (CreatePhase::BuildingGraph, CreateEvent::GraphBuilt(_)))
                ==> final(self).table_fragment_id == old(self).table_fragment_id
                && final(self).dml_fragment_id == old(self).dml_fragment_id,
            (old(self).phase, ev) matches (CreatePhase::CreatingInternalTables, CreateEvent::InternalTablesCreated(ids))
                ==> {
                &&& final(self).graph.nodes@.len() == old(self).graph.nodes@.len()
                &&& forall|i: int| 0 <= i < old(self).graph.nodes@.len() ==> #[trigger] final(self).graph.nodes@[i]
                    == refilled(old(self).graph.nodes@[i], ids@)
                &&& final(self).graph.internal_tables@.len() == old(self).graph.internal_tables@.len()
                &&& forall|k: int| 0 <= k < old(self).graph.internal_tables@.len() ==> Some(
                    #[trigger] final(self).graph.internal_tables@[k],
                ) == lookup(ids@, old(self).graph.internal_tables@[k])
                &&& final(self).graph.table_fragment_id == old(self).graph.table_fragment_id
                &&& final(self).graph.dml_fragment_id == old(self).graph.dml_fragment_id
            },
            !((old(self).phase, ev) matches (CreatePhase::BuildingGraph, CreateEvent::GraphBuilt(_)))
                && !((old(self).phase, ev) matches (CreatePhase::CreatingInternalTables, CreateEvent::InternalTablesCreated(_)))
                ==> final(self).graph == old(self).graph,
    {
        let next = match (self.phase, ev) {
            (CreatePhase::Done(r), _) => CreatePhase::Done(r),
            (CreatePhase::Requested, CreateEvent::JobCreated(id)) => {
                self.job_id = id;
                CreatePhase::BuildingGraph
            },
            (CreatePhase::Requested, CreateEvent::Failed(e)) => CreatePhase::Done(Err(e)),
            (CreatePhase::Aborting(e), CreateEvent::AbortReported(b)) => {
                match self.job.registered_source() {
                    Some(s) if b => CreatePhase::Unregistering { source_id: s, error: e },
                    _ => CreatePhase::Done(Err(e)),
                }
            },
            (CreatePhase::Aborting(e), CreateEvent::Failed(_)) => CreatePhase::Done(Err(e)),
            (CreatePhase::Unregistering { error, .. }, _) => CreatePhase::Done(Err(error)),
            (_, CreateEvent::Failed(e)) => CreatePhase::Aborting(e),
            (CreatePhase::BuildingGraph, CreateEvent::GraphBuilt(g)) => {
                let declared = g.placeholders_are_declared();
                self.table_fragment_id = g.table_fragment_id;
                self.dml_fragment_id = g.dml_fragment_id;
                self.graph = g;
                match self.job.registered_source() {
                    Some(s) => self.graph.fill_source_id(s),
                    None => {},
                }
                if declared {
                    CreatePhase::Admitting
                } else {
                    CreatePhase::Aborting(DdlError::Graph)
                }
            },
            (CreatePhase::Admitting, CreateEvent::Succeeded) => CreatePhase::CreatingInternalTables,
            (CreatePhase::CreatingInternalTables, CreateEvent::InternalTablesCreated(ids)) => {
                self.graph.refill_internal_table_ids(&ids);
                CreatePhase::Building
            },
            (CreatePhase::Building, CreateEvent::Succeeded) => match self.job.validation() {
                Ok(Validation::Nothing) => CreatePhase::Preparing,
                Ok(v) => CreatePhase::Validating(v),
                Err(e) => CreatePhase::Aborting(e),
            },
            (CreatePhase::Validating(_), CreateEvent::Succeeded) => CreatePhase::Preparing,
            (CreatePhase::Preparing, CreateEvent::Succeeded) => {
                if let CreateType::Background = self.create_type {
                    CreatePhase::Detaching
                } else {
                    CreatePhase::Activating
                }
            },
            (CreatePhase::Activating, CreateEvent::Succeeded) => CreatePhase::Finishing,
            (CreatePhase::Finishing, CreateEvent::Committed(v)) => CreatePhase::Done(Ok(v)),
            (CreatePhase::Detaching, CreateEvent::Succeeded) => CreatePhase::Done(Ok(IGNORED_NOTIFICATION_VERSION)),
            (p, _) => p,
        };
        self.phase = next;
    }
}

/// Whether the job id and its placeholder row exist and the request has not ended.
pub open spec fn holds_job(phase: CreatePhase) -> bool {
    !(phase matches CreatePhase::Requested) && !(phase matches CreatePhase::Aborting(_))
        && !(phase matches CreatePhase::Unregistering { .. }) && !(phase matches CreatePhase::Done(_))
}

/// A failure before the job id exists ends the request with that error and
/// nothing to undo; a failure at any later step aborts the job, carrying the
/// error; the abort's own outcome never replaces it, and a job whose abort
/// removed something has its registered source unregistered before the
/// error is returned.
pub proof fn lemma_failure_compensated(
    phase: CreatePhase,
    job: StreamingJob,
    create_type: CreateType,
    e: DdlError,
    ev: CreateEvent,
)
    ensures
        phase == CreatePhase::Requested ==> spec_create_next(phase, job, create_type, CreateEvent::Failed(e))
            == CreatePhase::Done(Err(e)),
        holds_job(phase) ==> spec_create_next(phase, job, create_type, CreateEvent::Failed(e))
            == CreatePhase::Aborting(e),
        spec_create_next(CreatePhase::Aborting(e), job, create_type, CreateEvent::AbortReported(true))
            == match spec_registered_source(job) {
            Some(s) => CreatePhase::Unregistering { source_id: s, error: e },
            None => CreatePhase::Done(Err(e)),
        },
        spec_create_next(CreatePhase::Aborting(e), job, create_type, CreateEvent::AbortReported(false))
            == CreatePhase::Done(Err(e)),
        ev is Failed ==> spec_create_next(CreatePhase::Aborting(e), job, create_type, ev) == CreatePhase::Done(
            Err(e),
        ),
        forall|s: u32| spec_create_next(CreatePhase::Unregistering { source_id: s, error: e }, job, create_type, ev)
            == CreatePhase::Done(Err(e)),
{
}

/// A background request never waits for activation: no step leads it to
/// the activating phase, a successful prepare detaches the work, and the
/// detached request returns the version that asks the caller not to wait.
pub proof fn lemma_background_non_blocking(
    phase: CreatePhase,
    job: StreamingJob,
    create_type: CreateType,
    ev: CreateEvent,
)
    requires
        is_background(create_type),
    ensures
        phase != CreatePhase::Activating ==> spec_create_next(phase, job, create_type, ev)
            != CreatePhase::Activating,
        spec_create_next(CreatePhase::Preparing, job, create_type, CreateEvent::Succeeded)
            == CreatePhase::Detaching,
        spec_create_next(CreatePhase::Detaching, job, create_type, CreateEvent::Succeeded)
            == CreatePhase::Done(Ok(IGNORED_NOTIFICATION_VERSION)),
{
}

/// A foreground request is never detached, and returns the version of its
/// commit, only once the actors are active and the job is committed.
pub proof fn lemma_foreground_waits(
    phase: CreatePhase,
    job: StreamingJob,
    create_type: CreateType,
    ev: CreateEvent,
    v: u64,
)
    requires
        !is_background(create_type),
    ensures
        spec_create_next(CreatePhase::Preparing, job, create_type, CreateEvent::Succeeded)
            == CreatePhase::Activating,
        spec_create_next(CreatePhase::Finishing, job, create_type, CreateEvent::Committed(v))
            == CreatePhase::Done(Ok(v)),
        phase != CreatePhase::Detaching ==> spec_create_next(phase, job, create_type, ev)
            != CreatePhase::Detaching,
        (!(phase matches CreatePhase::Done(_)) && phase != CreatePhase::Detaching && (spec_create_next(
            phase,
            job,
            create_type,
            ev,
        ) matches CreatePhase::Done(Ok(_)))) ==> phase == CreatePhase::Finishing,
{
}

} // verus!
