use streamjob::admission::{AdmissionState, CreationPermits, RescheduleLock};
use streamjob::catalog::{build_merge_updates, Consumer, JobStatus, MemCatalog};
use streamjob::create::{CreateAction, CreateDriver, CreateEvent, CreatePhase};
use streamjob::error::DdlError;
use streamjob::graph::{find_real_id, GraphNode, NodeBody, StreamFragmentGraph, TableRef};
use streamjob::job::{CreateType, StreamingJob, TableJobType, Validation, IGNORED_NOTIFICATION_VERSION};
use streamjob::replace::{ReplaceAction, ReplaceDriver, ReplaceEvent, ReplacePhase};

fn node(fragment_id: u32, body: NodeBody) -> GraphNode {
    GraphNode { fragment_id, body }
}

fn sample_graph() -> StreamFragmentGraph {
    StreamFragmentGraph {
        nodes: vec![
            node(1, NodeBody::Source { source_id: 0 }),
            node(1, NodeBody::StateTable { table: TableRef::Placeholder(0) }),
            node(2, NodeBody::StateTable { table: TableRef::Placeholder(1) }),
            node(2, NodeBody::Other),
        ],
        internal_tables: vec![0, 1],
        table_fragment_id: Some(2),
        dml_fragment_id: Some(1),
    }
}

/// Drives a create request against the catalog; `fail` makes the action
/// it matches fail with the given error. Returns the result and the actions taken.
fn run_create(
    catalog: &mut MemCatalog,
    job: StreamingJob,
    create_type: CreateType,
    fail: Option<(fn(&CreateAction) -> bool, DdlError)>,
) -> (Result<u64, DdlError>, Vec<CreateAction>, CreateDriver) {
    let mut d = CreateDriver::new(job, create_type);
    let mut log = Vec::new();
    loop {
        let action = d.action();
        log.push(action);
        if let Some((pred, e)) = fail {
            if pred(&action) {
                d.on_event(CreateEvent::Failed(e));
                continue;
            }
        }
        let ev = match action {
            CreateAction::CreateJobCatalog => match catalog.create_job_catalog() {
                Ok(id) => CreateEvent::JobCreated(id),
                Err(e) => CreateEvent::Failed(e),
            },
            CreateAction::BuildGraph => CreateEvent::GraphBuilt(sample_graph()),
            CreateAction::CreateInternalTables { job_id } => {
                match catalog.create_internal_table_catalog(job_id, &d.graph.internal_tables) {
                    Ok(ids) => CreateEvent::InternalTablesCreated(ids),
                    Err(e) => CreateEvent::Failed(e),
                }
            }
            CreateAction::Prepare { job_id } => match catalog.prepare_streaming_job(job_id) {
                Ok(()) => CreateEvent::Succeeded,
                Err(e) => CreateEvent::Failed(e),
            },
            CreateAction::Finish { job_id } => match catalog.finish_streaming_job(job_id) {
                Ok(v) => CreateEvent::Committed(v),
                Err(e) => CreateEvent::Failed(e),
            },
            CreateAction::AbortCreating { job_id } => {
                CreateEvent::AbortReported(catalog.try_abort_creating_streaming_job(job_id))
            }
            CreateAction::Return(r) => return (r, log, d),
            _ => CreateEvent::Succeeded,
        };
        d.on_event(ev);
    }
}

fn table_with_source() -> StreamingJob {
    StreamingJob::Table { source_id: Some(77), table_id: 5, job_type: TableJobType::General }
}

#[test]
fn foreground_create_commits_and_refills_ids() {
    let mut c = MemCatalog::new();
    let (r, log, d) = run_create(&mut c, table_with_source(), CreateType::Foreground, None);
    assert_eq!(r, Ok(2));
    assert_eq!(c.job_status(d.job_id), Some(JobStatus::Created));
    assert!(log.contains(&CreateAction::Validate(Validation::RegisterSource { source_id: 77 })));
    assert!(log.contains(&CreateAction::Activate));
    assert_eq!(d.graph.nodes[0].body, NodeBody::Source { source_id: 77 });
    let real: Vec<TableRef> = d
        .graph
        .nodes
        .iter()
        .filter_map(|n| match n.body {
            NodeBody::StateTable { table } => Some(table),
            _ => None,
        })
        .collect();
    assert_eq!(real, vec![TableRef::Real(2), TableRef::Real(3)]);
    assert_eq!(d.graph.internal_tables, vec![2, 3]);
    assert_eq!(d.table_fragment_id, Some(2));
    assert_eq!(d.dml_fragment_id, Some(1));
}

#[test]
fn connector_failure_aborts_and_unregisters() {
    let mut c = MemCatalog::new();
    let fail: fn(&CreateAction) -> bool = |a| matches!(a, CreateAction::Validate(_));
    let (r, log, d) = run_create(&mut c, table_with_source(), CreateType::Foreground, Some((fail, DdlError::Connector)));
    assert_eq!(r, Err(DdlError::Connector));
    assert_eq!(c.job_status(d.job_id), None);
    assert!(log.contains(&CreateAction::AbortCreating { job_id: d.job_id }));
    assert!(log.contains(&CreateAction::UnregisterSource { source_id: 77 }));
    assert!(!log.contains(&CreateAction::Prepare { job_id: d.job_id }));
}

#[test]
fn background_create_returns_sentinel_before_activation() {
    let mut c = MemCatalog::new();
    let (r, log, d) = run_create(&mut c, table_with_source(), CreateType::Background, None);
    assert_eq!(r, Ok(IGNORED_NOTIFICATION_VERSION));
    assert!(!log.contains(&CreateAction::Activate));
    assert!(log.contains(&CreateAction::SpawnBackground { job_id: d.job_id }));
    // The detached work has not run yet: the job is still being created.
    assert_eq!(c.job_status(d.job_id), Some(JobStatus::Creating));
    // The detached work then commits it.
    assert_eq!(c.finish_streaming_job(d.job_id), Ok(2));
    assert_eq!(c.job_status(d.job_id), Some(JobStatus::Created));
}

#[test]
fn background_activation_failure_leaves_creating_row() {
    let mut c = MemCatalog::new();
    let (r, _, d) = run_create(&mut c, table_with_source(), CreateType::Background, None);
    assert_eq!(r, Ok(IGNORED_NOTIFICATION_VERSION));
    // Activation failed in the detached work: nothing commits, nothing aborts.
    assert_eq!(c.job_status(d.job_id), Some(JobStatus::Creating));
    assert_eq!(c.current_version(), 1);
}

#[test]
fn activation_failure_after_prepare_is_not_committed() {
    let mut c = MemCatalog::new();
    let fail: fn(&CreateAction) -> bool = |a| matches!(a, CreateAction::Activate);
    let (r, log, d) = run_create(
        &mut c,
        StreamingJob::MaterializedView { table_id: 3 },
        CreateType::Foreground,
        Some((fail, DdlError::Activation)),
    );
    assert_eq!(r, Err(DdlError::Activation));
    assert_eq!(c.job_status(d.job_id), None);
    assert!(!log.iter().any(|a| matches!(a, CreateAction::UnregisterSource { .. })));
}

#[test]
fn pending_catalog_failure_needs_no_abort() {
    let mut c = MemCatalog::new();
    let fail: fn(&CreateAction) -> bool = |a| matches!(a, CreateAction::CreateJobCatalog);
    let (r, log, _) = run_create(&mut c, table_with_source(), CreateType::Foreground, Some((fail, DdlError::Catalog)));
    assert_eq!(r, Err(DdlError::Catalog));
    assert_eq!(log.len(), 2);
}

#[test]
fn sink_into_table_is_unsupported() {
    let mut c = MemCatalog::new();
    let job = StreamingJob::Sink { sink_id: 9, target_table: Some(4) };
    let (r, _, d) = run_create(&mut c, job, CreateType::Foreground, None);
    assert_eq!(r, Err(DdlError::Unsupported));
    assert_eq!(c.job_status(d.job_id), None);
}

#[test]
fn cdc_table_is_validated() {
    let mut c = MemCatalog::new();
    let job = StreamingJob::Table { source_id: None, table_id: 1, job_type: TableJobType::SharedCdcSource };
    let fail: fn(&CreateAction) -> bool = |a| matches!(a, CreateAction::Validate(Validation::CdcTable));
    let (r, log, _) = run_create(&mut c, job, CreateType::Foreground, Some((fail, DdlError::Validation)));
    assert_eq!(r, Err(DdlError::Validation));
    assert!(!log.iter().any(|a| matches!(a, CreateAction::UnregisterSource { .. })));
}

#[test]
fn abort_creating_twice_is_safe() {
    let mut c = MemCatalog::new();
    let id = c.create_job_catalog().unwrap();
    assert!(c.try_abort_creating_streaming_job(id));
    assert!(!c.try_abort_creating_streaming_job(id));
    assert_eq!(c.job_status(id), None);
}

#[test]
fn abort_does_not_touch_committed_job() {
    let mut c = MemCatalog::new();
    let id = c.create_job_catalog().unwrap();
    c.prepare_streaming_job(id).unwrap();
    assert_eq!(c.finish_streaming_job(id), Ok(2));
    assert!(!c.try_abort_creating_streaming_job(id));
    assert_eq!(c.job_status(id), Some(JobStatus::Created));
}

#[test]
fn refill_leaves_no_placeholder() {
    let mut g = sample_graph();
    let ids = vec![(0u32, 40u32), (1, 41)];
    g.refill_internal_table_ids(&ids);
    assert_eq!(g.nodes[1].body, NodeBody::StateTable { table: TableRef::Real(40) });
    assert_eq!(g.nodes[2].body, NodeBody::StateTable { table: TableRef::Real(41) });
    assert_eq!(g.nodes[3].body, NodeBody::Other);
    assert_eq!(g.internal_tables, vec![40, 41]);
    assert_eq!(find_real_id(&ids, 1), Some(41));
    assert_eq!(find_real_id(&ids, 2), None);
}

#[test]
fn internal_table_ids_are_distinct() {
    let mut c = MemCatalog::new();
    let id = c.create_job_catalog().unwrap();
    let ids = c.create_internal_table_catalog(id, &vec![0, 1, 2]).unwrap();
    assert_eq!(ids, vec![(0, 2), (1, 3), (2, 4)]);
    assert_eq!(c.create_internal_table_catalog(99, &vec![0]), Err(DdlError::Catalog));
}

#[test]
fn dangling_placeholder_is_a_graph_error() {
    let mut d = CreateDriver::new(StreamingJob::Index { index_id: 1 }, CreateType::Foreground);
    d.on_event(CreateEvent::JobCreated(8));
    let mut g = sample_graph();
    g.internal_tables = vec![0];
    d.on_event(CreateEvent::GraphBuilt(g));
    assert_eq!(d.phase, CreatePhase::Aborting(DdlError::Graph));
    assert_eq!(d.action(), CreateAction::AbortCreating { job_id: 8 });
}

#[test]
fn catalog_ids_cover_the_graph() {
    let g = sample_graph();
    assert!(g.placeholders_are_declared());
    assert!(g.ids_cover(&vec![(0, 9), (1, 10)]));
    assert!(g.ids_cover(&vec![(1, 9), (0, 10), (7, 11)]));
    assert!(!g.ids_cover(&vec![(0, 9)]));
}

#[test]
fn admission_bound_blocks_beyond_permits() {
    let mut p = CreationPermits::new(2);
    assert!(p.try_acquire());
    assert!(p.try_acquire());
    assert!(!p.try_acquire());
    assert_eq!(p.in_flight(), 2);
    p.release();
    assert_eq!(p.available(), 1);
    assert!(p.try_acquire());
}

#[test]
fn reschedule_lock_excludes_creation() {
    let mut l = RescheduleLock::new();
    assert!(l.try_read());
    assert!(!l.try_write());
    assert!(l.request_write());
    assert!(!l.try_write());
    l.release_read();
    assert!(l.try_write());
    assert!(!l.try_read());
    l.release_write();
    assert!(l.try_read());
}

fn replace_setup() -> (MemCatalog, u32) {
    let mut c = MemCatalog::new();
    let t = c.create_table(3, 10).unwrap();
    c.add_consumer(Consumer { actor_id: 100, upstream_fragment_id: 10 });
    c.add_consumer(Consumer { actor_id: 101, upstream_fragment_id: 11 });
    c.add_consumer(Consumer { actor_id: 102, upstream_fragment_id: 10 });
    (c, t)
}

fn run_replace(c: &mut MemCatalog, table_id: u32, version: u64, fail_replace: bool) -> Result<u64, DdlError> {
    let mut d = ReplaceDriver::new(table_id, version);
    loop {
        let ev = match d.action() {
            ReplaceAction::CreateDummy { table_id, declared_version } => {
                match c.create_job_catalog_for_replace(table_id, declared_version) {
                    Ok(id) => ReplaceEvent::DummyCreated(id),
                    Err(e) => ReplaceEvent::Failed(e),
                }
            }
            ReplaceAction::BuildReplacement { .. } => ReplaceEvent::ReplacementBuilt {
                fragment_id: 20,
                merge_updates: build_merge_updates(c.consumers(), 10, 20),
            },
            ReplaceAction::PrepareReplace { dummy_id, fragment_id } => match c.prepare_replace(dummy_id, fragment_id) {
                Ok(()) => ReplaceEvent::Succeeded,
                Err(e) => ReplaceEvent::Failed(e),
            },
            ReplaceAction::ReplaceTable if fail_replace => ReplaceEvent::Failed(DdlError::Activation),
            ReplaceAction::FinishReplace { dummy_id } => {
                match c.finish_replace_streaming_job(dummy_id, &d.merge_updates) {
                    Ok(v) => ReplaceEvent::Committed(v),
                    Err(e) => ReplaceEvent::Failed(e),
                }
            }
            ReplaceAction::AbortReplacing { dummy_id } => {
                c.try_abort_replacing_streaming_job(dummy_id);
                ReplaceEvent::Succeeded
            }
            ReplaceAction::Return(r) => return r,
            ReplaceAction::BuildGraph => ReplaceEvent::GraphBuilt(sample_graph()),
            _ => ReplaceEvent::Succeeded,
        };
        d.on_event(ev);
    }
}

#[test]
fn stale_version_conflicts_before_dummy() {
    let (mut c, t) = replace_setup();
    let mut d = ReplaceDriver::new(t, 2);
    d.on_event(ReplaceEvent::Succeeded);
    d.on_event(ReplaceEvent::GraphBuilt(sample_graph()));
    assert_eq!(d.table_fragment_id, Some(2));
    assert_eq!(d.dml_fragment_id, Some(1));
    assert_eq!(d.action(), ReplaceAction::CreateDummy { table_id: t, declared_version: 2 });
    assert_eq!(c.create_job_catalog_for_replace(t, 2), Err(DdlError::VersionConflict));
    assert_eq!(run_replace(&mut c, t, 2, false), Err(DdlError::VersionConflict));
    assert!(!c.has_replacement(t + 1));
    assert_eq!(c.table(t).unwrap().version, 3);
}

#[test]
fn successful_replace_repoints_old_consumers() {
    let (mut c, t) = replace_setup();
    assert_eq!(run_replace(&mut c, t, 3, false), Ok(2));
    let live = c.table(t).unwrap();
    assert_eq!(live.version, 4);
    assert_eq!(live.fragment_id, 20);
    let ups: Vec<u32> = c.consumers().iter().map(|x| x.upstream_fragment_id).collect();
    assert_eq!(ups, vec![20, 11, 20]);
}

#[test]
fn failed_replace_keeps_live_table() {
    let (mut c, t) = replace_setup();
    assert_eq!(run_replace(&mut c, t, 3, true), Err(DdlError::Activation));
    let live = c.table(t).unwrap();
    assert_eq!(live.version, 3);
    assert_eq!(live.fragment_id, 10);
    let ups: Vec<u32> = c.consumers().iter().map(|x| x.upstream_fragment_id).collect();
    assert_eq!(ups, vec![10, 11, 10]);
    assert!(!c.has_replacement(t + 1));
}

#[test]
fn finished_replace_cannot_apply_twice() {
    let (mut c, t) = replace_setup();
    let dummy = c.create_job_catalog_for_replace(t, 3).unwrap();
    c.prepare_replace(dummy, 20).unwrap();
    let ups = build_merge_updates(c.consumers(), 10, 20);
    assert_eq!(ups.len(), 2);
    assert_eq!(c.finish_replace_streaming_job(dummy, &ups), Ok(2));
    assert_eq!(c.finish_replace_streaming_job(dummy, &ups), Err(DdlError::Catalog));
    assert_eq!(c.table(t).unwrap().version, 4);
}

#[test]
fn replace_failure_before_dummy_needs_no_abort() {
    let mut d = ReplaceDriver::new(1, 1);
    d.on_event(ReplaceEvent::Succeeded);
    d.on_event(ReplaceEvent::Failed(DdlError::Graph));
    assert_eq!(d.phase, ReplacePhase::Done(Err(DdlError::Graph)));
}

#[test]
fn job_ids_are_fresh() {
    let mut c = MemCatalog::new();
    let a = c.create_job_catalog().unwrap();
    let b = c.create_job_catalog().unwrap();
    assert_ne!(a, b);
    assert_eq!(c.job_status(a), Some(JobStatus::Initial));
    let t = c.create_table(1, 7).unwrap();
    assert_ne!(t, b);
}

#[test]
fn admission_takes_all_or_nothing() {
    let mut a = AdmissionState::new(1);
    assert!(a.try_enter(true));
    assert!(!a.try_enter(true));
    assert!(a.try_enter(false));
    assert!(a.lock.request_write());
    assert!(!a.lock.try_write());
    a.leave(false);
    a.leave(true);
    assert!(a.lock.try_write());
    assert!(!a.try_enter(true));
    assert_eq!(a.permits.in_flight(), 0);
    a.lock.release_write();
    assert!(a.try_enter(true));
}

#[test]
fn merge_updates_follow_current_fragment() {
    let (c, t) = replace_setup();
    let ups = c.merge_updates_for_table(t, 20).unwrap();
    assert_eq!(ups.len(), 2);
    assert_eq!(ups[0].actor_id, 100);
    assert_eq!(ups[1].actor_id, 102);
    assert!(c.merge_updates_for_table(t + 5, 20).is_none());
}

#[test]
fn waiting_reschedule_is_not_starved() {
    let mut l = RescheduleLock::new();
    assert!(l.try_read());
    assert!(l.request_write());
    // Creations keep arriving, but none is let in while the reschedule waits.
    assert!(!l.try_read());
    assert!(!l.try_read());
    assert!(!l.try_write());
    l.release_read();
    assert!(l.try_write());
    l.release_write();
    assert!(l.try_read());
}
