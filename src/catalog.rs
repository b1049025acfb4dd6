use vstd::prelude::*;
use vstd::hash_map::HashMapWithView;
use crate::error::DdlError;

verus! {

broadcast use vstd::std_specs::hash::group_hash_axioms;

/// The lifecycle of a job's catalog rows.
#[derive(Clone, Copy, Debug, PartialEq, Eq, Structural)]
pub enum JobStatus {
    /// A placeholder row only: no fragment or actor rows exist.
    Initial,
    /// Fragment and actor rows exist, marked as being created.
    Creating,
    /// Committed and visible.
    Created,
}

/// The served version of a table: its schema version and the fragment that
/// produces it.
#[derive(Clone, Copy, Debug, PartialEq, Eq, Structural)]
pub struct LiveTable {
    pub version: u64,
    pub fragment_id: u32,
}

/// A downstream actor and the fragment it reads from.
#[derive(Clone, Copy, Debug, PartialEq, Eq, Structural)]
pub struct Consumer {
    pub actor_id: u32,
    pub upstream_fragment_id: u32,
}

/// Tells one downstream actor to re-point from one upstream fragment to another.
#[derive(Clone, Copy, Debug, PartialEq, Eq, Structural)]
pub struct MergeUpdate {
    pub actor_id: u32,
    pub upstream_fragment_id: u32,
    pub new_upstream_fragment_id: u32,
}

/// The shadow entry of a table's replacement, under a temporary id.
#[derive(Clone, Copy, Debug, PartialEq, Eq, Structural)]
pub struct Replacement {
    pub table_id: u32,
    pub fragment_id: u32,
    pub prepared: bool,
}

/// The upstream a consumer reads from once `ups` are applied: the first
/// update addressed to it and to its current upstream decides.
pub open spec fn merged_upstream(c: Consumer, ups: Seq<MergeUpdate>) -> u32
    decreases ups.len(),
{
    if ups.len() == 0 {
        c.upstream_fragment_id
    } else if ups[0].actor_id == c.actor_id && ups[0].upstream_fragment_id == c.upstream_fragment_id {
        ups[0].new_upstream_fragment_id
    } else {
        merged_upstream(c, ups.drop_first())
    }
}

pub open spec fn merged(c: Consumer, ups: Seq<MergeUpdate>) -> Consumer {
    Consumer { actor_id: c.actor_id, upstream_fragment_id: merged_upstream(c, ups) }
}

/// The updates that move every consumer of fragment `old` to fragment `new`.
pub open spec fn merge_updates_for(consumers: Seq<Consumer>, old_fragment: u32, new_fragment: u32) -> Seq<MergeUpdate>
    decreases consumers.len(),
{
    if consumers.len() == 0 {
        Seq::empty()
    } else {
        let rest = merge_updates_for(consumers.drop_last(), old_fragment, new_fragment);
        let c = consumers.last();
        if c.upstream_fragment_id == old_fragment {
            rest.push(MergeUpdate { actor_id: c.actor_id, upstream_fragment_id: old_fragment, new_upstream_fragment_id: new_fragment })
        } else {
            rest
        }
    }
}

/// Whether aborting the creation of `job_id` finds something to remove.
pub open spec fn abortable(jobs: Map<u32, JobStatus>, job_id: u32) -> bool {
    jobs.contains_key(job_id) && jobs[job_id] != JobStatus::Created
}

/// The jobs after aborting the creation of `job_id`.
pub open spec fn after_abort_creating(jobs: Map<u32, JobStatus>, job_id: u32) -> Map<u32, JobStatus> {
    if abortable(jobs, job_id) {
        jobs.remove(job_id)
    } else {
        jobs
    }
}

/// Whether the replacement under `dummy_id` can be committed.
pub open spec fn can_finish_replace(
    reps: Map<u32, Replacement>,
    tables: Map<u32, LiveTable>,
    version: u64,
    dummy_id: u32,
) -> bool {
    reps.contains_key(dummy_id) && reps[dummy_id].prepared && tables.contains_key(reps[dummy_id].table_id)
        && tables[reps[dummy_id].table_id].version < u64::MAX && version < u64::MAX
}

/// An in-memory catalog: the job-lifecycle operations that the create and
/// replace workflows call, with the notification version they hand out.
pub struct MemCatalog {
    jobs: HashMapWithView<u32, JobStatus>,
    tables: HashMapWithView<u32, LiveTable>,
    replacements: HashMapWithView<u32, Replacement>,
    consumers: Vec<Consumer>,
    next_id: u32,
    version: u64,
}

impl MemCatalog {
    pub closed spec fn jobs_view(&self) -> Map<u32, JobStatus> {
        self.jobs@
    }

    pub closed spec fn tables_view(&self) -> Map<u32, LiveTable> {
        self.tables@
    }

    pub closed spec fn replacements_view(&self) -> Map<u32, Replacement> {
        self.replacements@
    }

    pub closed spec fn consumers_view(&self) -> Seq<Consumer> {
        self.consumers@
    }

    pub closed spec fn version_view(&self) -> u64 {
        self.version
    }

    /// Every id handed out so far is below the next one.
    pub closed spec fn wf(&self) -> bool {
        &&& self.next_id >= 1
        &&& forall|k: u32| #[trigger] self.jobs@.contains_key(k) ==> k < self.next_id
        &&& forall|k: u32| #[trigger] self.replacements@.contains_key(k) ==> k < self.next_id
        &&& forall|k: u32| #[trigger] self.tables@.contains_key(k) ==> k < self.next_id
    }

    pub fn new() -> (r: MemCatalog)
        ensures
            r.wf(),
            r.jobs_view() == Map::<u32, JobStatus>::empty(),
            r.tables_view() == Map::<u32, LiveTable>::empty(),
            r.replacements_view() == Map::<u32, Replacement>::empty(),
            r.consumers_view() == Seq::<Consumer>::empty(),
            r.version_view() == 1,
    {
        MemCatalog {
            jobs: HashMapWithView::new(),
            tables: HashMapWithView::new(),
            replacements: HashMapWithView::new(),
            consumers: Vec::new(),
            next_id: 1,
            version: 1,
        }
    }

    /// The notification version of the latest committed change.
    pub fn current_version(&self) -> (r: u64)
        ensures
            r == self.version_view(),
    {
        self.version
    }

    /// The lifecycle state of a job, `None` when the catalog holds no row for it.
    pub fn job_status(&self, job_id: u32) -> (r: Option<JobStatus>)
        ensures
            r == (if self.jobs_view().contains_key(job_id) {
                Some(self.jobs_view()[job_id])
            } else {
                None
            }),
    {
        match self.jobs.get(&job_id) {
            Some(s) => Some(*s),
            None => None,
        }
    }

    /// The served version of a table.
    pub fn table(&self, table_id: u32) -> (r: Option<LiveTable>)
        ensures
            r == (if self.tables_view().contains_key(table_id) {
                Some(self.tables_view()[table_id])
            } else {
                None
            }),
    {
        match self.tables.get(&table_id) {
            Some(t) => Some(*t),
            None => None,
        }
    }

    /// Whether a replacement is pending under `dummy_id`.
    pub fn has_replacement(&self, dummy_id: u32) -> (r: bool)
        ensures
            r == self.replacements_view().contains_key(dummy_id),
    {
        self.replacements.contains_key(&dummy_id)
    }

    /// The downstream consumers, in order.
    pub fn consumers(&self) -> (r: &Vec<Consumer>)
        ensures
            r@ == self.consumers_view(),
    {
        &self.consumers
    }

    fn allocate_id(&mut self) -> (r: Result<u32, DdlError>)
        requires
            old(self).wf(),
        ensures
            final(self).wf(),
            final(self).jobs@ == old(self).jobs@,
            final(self).tables@ == old(self).tables@,
            final(self).replacements@ == old(self).replacements@,
            final(self).consumers@ == old(self).consumers@,
            final(self).version == old(self).version,
            match r {
                Ok(id) => id == old(self).next_id && final(self).next_id == id + 1,
                Err(e) => e == DdlError::Catalog && old(self).next_id == u32::MAX && final(self).next_id == old(self).next_id,
            },
    {
        if self.next_id == u32::MAX {
            return Err(DdlError::Catalog);
        }
        let id = self.next_id;
        self.next_id = id + 1;
        Ok(id)
    }

    /// Allocates the id of a new job and its placeholder row.
    pub fn create_job_catalog(&mut self) -> (r: Result<u32, DdlError>)
        requires
            old(self).wf(),
        ensures
            final(self).wf(),
            final(self).tables_view() == old(self).tables_view(),
            final(self).replacements_view() == old(self).replacements_view(),
            final(self).consumers_view() == old(self).consumers_view(),
            final(self).version_view() == old(self).version_view(),
            r is Ok <==> old(self).next_id_view() < u32::MAX,
            match r {
                Ok(id) => !old(self).jobs_view().contains_key(id)
                    && final(self).jobs_view() == old(self).jobs_view().insert(id, JobStatus::Initial),
                Err(e) => e == DdlError::Catalog && final(self).jobs_view() == old(self).jobs_view(),
            },
    {
        let id = self.allocate_id()?;
        self.jobs.insert(id, JobStatus::Initial);
        Ok(id)
    }

    /// Registers a committed table, for the replace workflow to act on.
    pub fn create_table(&mut self, version: u64, fragment_id: u32) -> (r: Result<u32, DdlError>)
        requires
            old(self).wf(),
        ensures
            final(self).wf(),
            final(self).jobs_view() == old(self).jobs_view(),
            final(self).replacements_view() == old(self).replacements_view(),
            final(self).consumers_view() == old(self).consumers_view(),
            final(self).version_view() == old(self).version_view(),
            r is Ok <==> old(self).next_id_view() < u32::MAX,
            match r {
                Ok(id) => !old(self).tables_view().contains_key(id) && final(self).tables_view()
                    == old(self).tables_view().insert(id, LiveTable { version, fragment_id }),
                Err(e) => e == DdlError::Catalog && final(self).tables_view() == old(self).tables_view(),
            },
    {
        let id = self.allocate_id()?;
        self.tables.insert(id, LiveTable { version, fragment_id });
        Ok(id)
    }

    /// Adds a downstream consumer.
    pub fn add_consumer(&mut self, c: Consumer)
        requires
            old(self).wf(),
        ensures
            final(self).wf(),
            final(self).jobs_view() == old(self).jobs_view(),
            final(self).tables_view() == old(self).tables_view(),
            final(self).replacements_view() == old(self).replacements_view(),
            final(self).consumers_view() == old(self).consumers_view().push(c),
            final(self).version_view() == old(self).version_view(),
    {
        self.consumers.push(c);
    }

    pub closed spec fn next_id_view(&self) -> u32 {
        self.next_id
    }

    /// Catalogs the internal tables of a job in its `Initial` state and
    /// assigns them real ids, one after another; the pairs map each
    /// placeholder, in order, to its real id.
    pub fn create_internal_table_catalog(&mut self, job_id: u32, placeholders: &Vec<u32>) -> (r: Result<Vec<(u32, u32)>, DdlError>)
        requires
            old(self).wf(),
        ensures
            final(self).wf(),
            final(self).jobs_view() == old(self).jobs_view(),
            final(self).tables_view() == old(self).tables_view(),
            final(self).replacements_view() == old(self).replacements_view(),
            final(self).consumers_view() == old(self).consumers_view(),
            final(self).version_view() == old(self).version_view(),
            (old(self).jobs_view().get(job_id) == Some(JobStatus::Initial)
                && old(self).next_id_view() + placeholders@.len() < u32::MAX) <==> r is Ok,
            r matches Err(e) ==> e == DdlError::Catalog,
            r matches Ok(ids) ==> ids@.len() == placeholders@.len() && forall|i: int|
                0 <= i < ids@.len() ==> (#[trigger] ids@[i]) == (placeholders@[i], (old(self).next_id_view() + i) as u32),
    {
        match self.jobs.get(&job_id) {
            Some(JobStatus::Initial) => {},
            _ => {
                return Err(DdlError::Catalog);
            },
        }
        let n = placeholders.len();
        if n >= (u32::MAX - self.next_id) as usize {
            return Err(DdlError::Catalog);
        }
        let base = self.next_id;
        let mut ids: Vec<(u32, u32)> = Vec::with_capacity(n);
        let mut i: usize = 0;
        while i < n
            invariant
                n == placeholders@.len(),
                base as int + n < u32::MAX,
                i <= n,
                ids@.len() == i,
                forall|k: int| 0 <= k < i ==> (#[trigger] ids@[k]) == (placeholders@[k], (base + k) as u32),
            decreases n - i,
        {
            ids.push((placeholders[i], base + i as u32));
            i = i + 1;
        }
        self.next_id = base + n as u32;
        Ok(ids)
    }

    /// Marks the fragment and actor rows of a job as being created.
    pub fn prepare_streaming_job(&mut self, job_id: u32) -> (r: Result<(), DdlError>)
        requires
            old(self).wf(),
        ensures
            final(self).wf(),
            final(self).tables_view() == old(self).tables_view(),
            final(self).replacements_view() == old(self).replacements_view(),
            final(self).consumers_view() == old(self).consumers_view(),
            final(self).version_view() == old(self).version_view(),
            r is Ok <==> old(self).jobs_view().get(job_id) == Some(JobStatus::Initial),
            r matches Err(e) ==> e == DdlError::Catalog && final(self).jobs_view() == old(self).jobs_view(),
            r is Ok ==> final(self).jobs_view() == old(self).jobs_view().insert(job_id, JobStatus::Creating),
    {
        match self.jobs.get(&job_id) {
            Some(JobStatus::Initial) => {
                self.jobs.insert(job_id, JobStatus::Creating);
                Ok(())
            },
            _ => Err(DdlError::Catalog),
        }
    }

    /// Commits a job whose rows are being created and hands out the
    /// notification version of the commit.
    pub fn finish_streaming_job(&mut self, job_id: u32) -> (r: Result<u64, DdlError>)
        requires
            old(self).wf(),
        ensures
            final(self).wf(),
            final(self).tables_view() == old(self).tables_view(),
            final(self).replacements_view() == old(self).replacements_view(),
            final(self).consumers_view() == old(self).consumers_view(),
            r is Ok <==> old(self).jobs_view().get(job_id) == Some(JobStatus::Creating)
                && old(self).version_view() < u64::MAX,
            r matches Err(e) ==> e == DdlError::Catalog && final(self).jobs_view() == old(self).jobs_view()
                && final(self).version_view() == old(self).version_view(),
            r matches Ok(v) ==> v == old(self).version_view() + 1 && final(self).version_view() == v
                && final(self).jobs_view() == old(self).jobs_view().insert(job_id, JobStatus::Created),
    {
        match self.jobs.get(&job_id) {
            Some(JobStatus::Creating) => {},
            _ => {
                return Err(DdlError::Catalog);
            },
        }
        if self.version == u64::MAX {
            return Err(DdlError::Catalog);
        }
        self.jobs.insert(job_id, JobStatus::Created);
        self.version = self.version + 1;
        Ok(self.version)
    }

    /// Removes a job that has not been committed, with all its rows. Reports
    /// whether there was anything to remove; a committed or unknown job is
    /// left as it is.
    pub fn try_abort_creating_streaming_job(&mut self, job_id: u32) -> (r: bool)
        requires
            old(self).wf(),
        ensures
            final(self).wf(),
            final(self).tables_view() == old(self).tables_view(),
            final(self).replacements_view() == old(self).replacements_view(),
            final(self).consumers_view() == old(self).consumers_view(),
            final(self).version_view() == old(self).version_view(),
            r == abortable(old(self).jobs_view(), job_id),
            final(self).jobs_view() == after_abort_creating(old(self).jobs_view(), job_id),
    {
        match self.jobs.get(&job_id) {
            Some(JobStatus::Created) => false,
            None => false,
            Some(_) => {
                self.jobs.remove(&job_id);
                true
            },
        }
    }

    /// Creates the shadow entry of a table's new version under a temporary
    /// id, provided the declared version is the table's current one.
    pub fn create_job_catalog_for_replace(&mut self, table_id: u32, declared_version: u64) -> (r: Result<u32, DdlError>)
        requires
            old(self).wf(),
        ensures
            final(self).wf(),
            final(self).jobs_view() == old(self).jobs_view(),
            final(self).tables_view() == old(self).tables_view(),
            final(self).consumers_view() == old(self).consumers_view(),
            final(self).version_view() == old(self).version_view(),
            !old(self).tables_view().contains_key(table_id) ==> r == Err::<u32, DdlError>(DdlError::Catalog),
            old(self).tables_view().contains_key(table_id) && old(self).tables_view()[table_id].version != declared_version
                ==> r == Err::<u32, DdlError>(DdlError::VersionConflict),
            r is Ok <==> old(self).tables_view().contains_key(table_id)
                && old(self).tables_view()[table_id].version == declared_version
                && old(self).next_id_view() < u32::MAX,
            r is Err ==> final(self).replacements_view() == old(self).replacements_view(),
            r matches Ok(d) ==> !old(self).replacements_view().contains_key(d)
                && final(self).replacements_view() == old(self).replacements_view().insert(
                d,
                Replacement { table_id, fragment_id: old(self).tables_view()[table_id].fragment_id, prepared: false },
            ),
    {
        let live = match self.tables.get(&table_id) {
            Some(t) => *t,
            None => {
                return Err(DdlError::Catalog);
            },
        };
        if live.version != declared_version {
            return Err(DdlError::VersionConflict);
        }
        let d = self.allocate_id()?;
        self.replacements.insert(d, Replacement { table_id, fragment_id: live.fragment_id, prepared: false });
        Ok(d)
    }

    /// Records the fragment that the replacement will serve from, without
    /// touching the live table.
    pub fn prepare_replace(&mut self, dummy_id: u32, fragment_id: u32) -> (r: Result<(), DdlError>)
        requires
            old(self).wf(),
        ensures
            final(self).wf(),
            final(self).jobs_view() == old(self).jobs_view(),
            final(self).tables_view() == old(self).tables_view(),
            final(self).consumers_view() == old(self).consumers_view(),
            final(self).version_view() == old(self).version_view(),
            r is Ok <==> old(self).replacements_view().contains_key(dummy_id) && !old(self).replacements_view()[dummy_id].prepared,
            r matches Err(e) ==> e == DdlError::Catalog && final(self).replacements_view() == old(self).replacements_view(),
            r is Ok ==> final(self).replacements_view() == old(self).replacements_view().insert(
                dummy_id,
                Replacement { table_id: old(self).replacements_view()[dummy_id].table_id, fragment_id, prepared: true },
            ),
    {
        let rep = match self.replacements.get(&dummy_id) {
            Some(rep) => *rep,
            None => {
                return Err(DdlError::Catalog);
            },
        };
        if rep.prepared {
            return Err(DdlError::Catalog);
        }
        self.replacements.insert(dummy_id, Replacement { table_id: rep.table_id, fragment_id, prepared: true });
        Ok(())
    }

    /// Drops the shadow entry of a replacement; the live table and its
    /// consumers are left as they are. Reports whether there was one.
    pub fn try_abort_replacing_streaming_job(&mut self, dummy_id: u32) -> (r: bool)
        requires
            old(self).wf(),
        ensures
            final(self).wf(),
            final(self).jobs_view() == old(self).jobs_view(),
            final(self).tables_view() == old(self).tables_view(),
            final(self).consumers_view() == old(self).consumers_view(),
            final(self).version_view() == old(self).version_view(),
            r == old(self).replacements_view().contains_key(dummy_id),
            final(self).replacements_view() == old(self).replacements_view().remove(dummy_id),
    {
        let r = self.replacements.contains_key(&dummy_id);
        if r {
            self.replacements.remove(&dummy_id);
        } else {
            assert(self.replacements@ =~= old(self).replacements@.remove(dummy_id));
        }
        r
    }

    /// Commits a prepared replacement: the table is served from the new
    /// fragment under the next schema version, the merge updates re-point
    /// the consumers, the shadow entry is dropped, and the notification
    /// version of the commit is handed out.
    pub fn finish_replace_streaming_job(&mut self, dummy_id: u32, merge_updates: &Vec<MergeUpdate>) -> (r: Result<u64, DdlError>)
        requires
            old(self).wf(),
        ensures
            final(self).wf(),
            final(self).jobs_view() == old(self).jobs_view(),
            ({
                let reps = old(self).replacements_view();
                let tables = old(self).tables_view();
                let ok = can_finish_replace(reps, tables, old(self).version_view(), dummy_id);
                &&& (r is Ok <==> ok)
                &&& r matches Err(e) ==> e == DdlError::Catalog && final(self).tables_view() == tables
                    && final(self).replacements_view() == reps
                    && final(self).consumers_view() == old(self).consumers_view()
                    && final(self).version_view() == old(self).version_view()
                &&& r matches Ok(v) ==> {
                    let rep = reps[dummy_id];
                    &&& v == old(self).version_view() + 1
                    &&& final(self).version_view() == v
                    &&& final(self).replacements_view() == reps.remove(dummy_id)
                    &&& final(self).tables_view() == tables.insert(
                        rep.table_id,
                        LiveTable { version: (tables[rep.table_id].version + 1) as u64, fragment_id: rep.fragment_id },
                    )
                    &&& final(self).consumers_view().len() == old(self).consumers_view().len()
                    &&& forall|i: int| 0 <= i < old(self).consumers_view().len() ==>
                        (#[trigger] final(self).consumers_view()[i]) == merged(old(self).consumers_view()[i], merge_updates@)
                }
            }),
    {
        let rep = match self.replacements.get(&dummy_id) {
            Some(rep) => *rep,
            None => {
                return Err(DdlError::Catalog);
            },
        };
        if !rep.prepared {
            return Err(DdlError::Catalog);
        }
        let live = match self.tables.get(&rep.table_id) {
            Some(t) => *t,
            None => {
                return Err(DdlError::Catalog);
            },
        };
        if live.version == u64::MAX || self.version == u64::MAX {
            return Err(DdlError::Catalog);
        }
        let n = self.consumers.len();
        let mut i: usize = 0;
        while i < n
            invariant
                n == old(self).consumers@.len(),
                self.consumers@.len() == n,
                i <= n,
                forall|k: int| 0 <= k < i ==> (#[trigger] self.consumers@[k]) == merged(old(self).consumers@[k], merge_updates@),
                forall|k: int| i <= k < n ==> (#[trigger] self.consumers@[k]) == old(self).consumers@[k],
                self.jobs@ == old(self).jobs@,
                self.tables@ == old(self).tables@,
                self.replacements@ == old(self).replacements@,
                self.next_id == old(self).next_id,
                self.version == old(self).version,
            decreases n - i,
        {
            let c = self.consumers[i];
            let up = merged_upstream_of(c, merge_updates);
            self.consumers.set(i, Consumer { actor_id: c.actor_id, upstream_fragment_id: up });
            i = i + 1;
        }
        self.tables.insert(rep.table_id, LiveTable { version: live.version + 1, fragment_id: rep.fragment_id });
        self.replacements.remove(&dummy_id);
        self.version = self.version + 1;
        Ok(self.version)
    }
}

impl MemCatalog {
    /// The merge updates that move the consumers of a table's current
    /// fragment to `new_fragment`; `None` when the table is unknown.
    pub fn merge_updates_for_table(&self, table_id: u32, new_fragment: u32) -> (r: Option<Vec<MergeUpdate>>)
        ensures
            !self.tables_view().contains_key(table_id) ==> r is None,
            self.tables_view().contains_key(table_id) ==> r is Some && r->0@ == merge_updates_for(
                self.consumers_view(),
                self.tables_view()[table_id].fragment_id,
                new_fragment,
            ),
    {
        match self.tables.get(&table_id) {
            Some(t) => Some(build_merge_updates(&self.consumers, t.fragment_id, new_fragment)),
            None => None,
        }
    }
}

/// The upstream fragment `c` reads from once `ups` are applied.
pub fn merged_upstream_of(c: Consumer, ups: &Vec<MergeUpdate>) -> (r: u32)
    ensures
        r == merged_upstream(c, ups@),
{
    let mut i: usize = 0;
    assert(ups@.subrange(0, ups@.len() as int) =~= ups@);
    while i < ups.len()
        invariant
            i <= ups@.len(),
            merged_upstream(c, ups@) == merged_upstream(c, ups@.subrange(i as int, ups@.len() as int)),
        decreases ups@.len() - i,
    {
        let u = ups[i];
        assert(ups@.subrange(i as int, ups@.len() as int).drop_first() =~= ups@.subrange(i + 1, ups@.len() as int));
        if u.actor_id == c.actor_id && u.upstream_fragment_id == c.upstream_fragment_id {
            return u.new_upstream_fragment_id;
        }
        i = i + 1;
    }
    c.upstream_fragment_id
}

/// The merge updates that move every consumer of `old_fragment` to
/// `new_fragment`, one per such consumer, in the consumers' order.
pub fn build_merge_updates(consumers: &Vec<Consumer>, old_fragment: u32, new_fragment: u32) -> (r: Vec<MergeUpdate>)
    ensures
        r@ == merge_updates_for(consumers@, old_fragment, new_fragment),
{
    let mut r: Vec<MergeUpdate> = Vec::new();
    let mut i: usize = 0;
    while i < consumers.len()
        invariant
            i <= consumers@.len(),
            r@ == merge_updates_for(consumers@.subrange(0, i as int), old_fragment, new_fragment),
        decreases consumers@.len() - i,
    {
        let c = consumers[i];
        assert(consumers@.subrange(0, i + 1).drop_last() =~= consumers@.subrange(0, i as int));
        if c.upstream_fragment_id == old_fragment {
            r.push(MergeUpdate { actor_id: c.actor_id, upstream_fragment_id: old_fragment, new_upstream_fragment_id: new_fragment });
        }
        i = i + 1;
    }
    assert(consumers@.subrange(0, consumers@.len() as int) =~= consumers@);
    r
}

/// Aborting the creation of a job twice is safe: the second abort finds
/// nothing to remove and changes nothing.
pub proof fn lemma_abort_creating_idempotent(jobs: Map<u32, JobStatus>, job_id: u32)
    ensures
        !abortable(after_abort_creating(jobs, job_id), job_id),
        after_abort_creating(after_abort_creating(jobs, job_id), job_id) == after_abort_creating(jobs, job_id),
{
}

/// A job that fails before it is committed leaves no rows behind once its
/// creation is aborted: it is neither committed nor being created.
pub proof fn lemma_abort_leaves_no_rows(jobs: Map<u32, JobStatus>, job_id: u32)
    requires
        jobs.contains_key(job_id),
        jobs[job_id] != JobStatus::Created,
    ensures
        !after_abort_creating(jobs, job_id).contains_key(job_id),
        forall|k: u32| k != job_id ==> after_abort_creating(jobs, job_id).get(k) == #[trigger] jobs.get(k),
{
}

proof fn lemma_merged_uniform(c: Consumer, ups: Seq<MergeUpdate>, old_fragment: u32, new_fragment: u32)
    requires
        forall|k: int| 0 <= k < ups.len() ==> (#[trigger] ups[k]).upstream_fragment_id == old_fragment
            && ups[k].new_upstream_fragment_id == new_fragment,
    ensures
        c.upstream_fragment_id != old_fragment ==> merged_upstream(c, ups) == c.upstream_fragment_id,
        (exists|k: int| 0 <= k < ups.len() && (#[trigger] ups[k]).actor_id == c.actor_id
            && ups[k].upstream_fragment_id == c.upstream_fragment_id) ==> merged_upstream(c, ups) == new_fragment,
    decreases ups.len(),
{
    if ups.len() > 0 {
        let rest = ups.drop_first();
        assert forall|k: int| 0 <= k < rest.len() implies (#[trigger] rest[k]).upstream_fragment_id == old_fragment
            && rest[k].new_upstream_fragment_id == new_fragment by {
            assert(rest[k] == ups[k + 1]);
        }
        lemma_merged_uniform(c, rest, old_fragment, new_fragment);
        if exists|k: int| 0 <= k < ups.len() && (#[trigger] ups[k]).actor_id == c.actor_id
            && ups[k].upstream_fragment_id == c.upstream_fragment_id {
            let k = choose|k: int| 0 <= k < ups.len() && (#[trigger] ups[k]).actor_id == c.actor_id
                && ups[k].upstream_fragment_id == c.upstream_fragment_id;
            if k > 0 && !(ups[0].actor_id == c.actor_id && ups[0].upstream_fragment_id == c.upstream_fragment_id) {
                assert(rest[k - 1] == ups[k]);
            }
        }
    }
}

proof fn lemma_merge_updates_shape(cs: Seq<Consumer>, old_fragment: u32, new_fragment: u32)
    ensures
        ({
            let ups = merge_updates_for(cs, old_fragment, new_fragment);
            &&& forall|k: int| 0 <= k < ups.len() ==> (#[trigger] ups[k]).upstream_fragment_id == old_fragment
                && ups[k].new_upstream_fragment_id == new_fragment
            &&& forall|i: int| 0 <= i < cs.len() && (#[trigger] cs[i]).upstream_fragment_id == old_fragment
                ==> exists|k: int| 0 <= k < ups.len() && (#[trigger] ups[k]).actor_id == cs[i].actor_id
                && ups[k].upstream_fragment_id == old_fragment
        }),
    decreases cs.len(),
{
    if cs.len() > 0 {
        let init = cs.drop_last();
        lemma_merge_updates_shape(init, old_fragment, new_fragment);
        let rest = merge_updates_for(init, old_fragment, new_fragment);
        let ups = merge_updates_for(cs, old_fragment, new_fragment);
        assert forall|i: int| 0 <= i < cs.len() && (#[trigger] cs[i]).upstream_fragment_id == old_fragment
            implies exists|k: int| 0 <= k < ups.len() && (#[trigger] ups[k]).actor_id == cs[i].actor_id
            && ups[k].upstream_fragment_id == old_fragment by {
            if i < cs.len() - 1 {
                assert(init[i] == cs[i]);
                let k = choose|k: int| 0 <= k < rest.len() && (#[trigger] rest[k]).actor_id == init[i].actor_id
                    && rest[k].upstream_fragment_id == old_fragment;
                assert(ups[k] == rest[k]);
            } else {
                assert(ups[ups.len() - 1].actor_id == cs[i].actor_id);
            }
        }
    }
}

/// The merge updates built for a replacement re-point exactly the consumers
/// of the old fragment to the new one, and leave every other consumer alone.
pub proof fn lemma_merge_updates_exact(cs: Seq<Consumer>, old_fragment: u32, new_fragment: u32)
    ensures
        forall|i: int| 0 <= i < cs.len() ==> (#[trigger] merged(cs[i], merge_updates_for(cs, old_fragment, new_fragment)))
            == (if cs[i].upstream_fragment_id == old_fragment {
                Consumer { actor_id: cs[i].actor_id, upstream_fragment_id: new_fragment }
            } else {
                cs[i]
            }),
{
    let ups = merge_updates_for(cs, old_fragment, new_fragment);
    lemma_merge_updates_shape(cs, old_fragment, new_fragment);
    assert forall|i: int| 0 <= i < cs.len() implies (#[trigger] merged(cs[i], ups)) == (if cs[i].upstream_fragment_id
        == old_fragment {
        Consumer { actor_id: cs[i].actor_id, upstream_fragment_id: new_fragment }
    } else {
        cs[i]
    }) by {
        lemma_merged_uniform(cs[i], ups, old_fragment, new_fragment);
    }
}

/// A committed replacement cannot be committed again: its merge updates are
/// applied once, whatever the tables and version have become.
pub proof fn lemma_finish_replace_once(
    reps: Map<u32, Replacement>,
    tables: Map<u32, LiveTable>,
    version: u64,
    dummy_id: u32,
)
    ensures
        !can_finish_replace(reps.remove(dummy_id), tables, version, dummy_id),
{
}

} // verus!
