use vstd::prelude::*;
use crate::catalog::MergeUpdate;
use crate::error::DdlError;
use crate::graph::StreamFragmentGraph;

verus! {

/// Where a replace (schema-change) request stands.
#[derive(Clone, Copy, Debug, PartialEq, Eq)]
pub enum ReplacePhase {
    /// A shared hold on the reschedule lock is to be taken.
    Admitting,
    /// The new fragment graph is to be built against the current table.
    BuildingGraph,
    /// The shadow entry is to be created, checking the declared version.
    CreatingDummy,
    /// The replacement fragments and the merge updates are to be built.
    BuildingReplacement,
    /// The replacement is to be prepared without touching the live table.
    Preparing,
    /// The actors are to be swapped online.
    Replacing,
    /// The replacement is to be committed with its merge updates.
    Finishing,
    /// The replacement is to be dropped; the error is what the caller gets.
    Aborting(DdlError),
    /// The request is over with this result.
    Done(Result<u64, DdlError>),
}

/// The next piece of outside work the caller must perform.
#[derive(Clone, Copy, Debug, PartialEq, Eq)]
pub enum ReplaceAction {
    Admit,
    BuildGraph,
    CreateDummy { table_id: u32, declared_version: u64 },
    BuildReplacement { dummy_id: u32 },
    PrepareReplace { dummy_id: u32, fragment_id: u32 },
    ReplaceTable,
    FinishReplace { dummy_id: u32 },
    AbortReplacing { dummy_id: u32 },
    Return(Result<u64, DdlError>),
}

/// What came of the last action.
pub enum ReplaceEvent {
    Succeeded,
    GraphBuilt(StreamFragmentGraph),
    DummyCreated(u32),
    ReplacementBuilt { fragment_id: u32, merge_updates: Vec<MergeUpdate> },
    Committed(u64),
    Failed(DdlError),
}

/// Whether the shadow entry exists and the request has not ended.
pub open spec fn holds_dummy(phase: ReplacePhase) -> bool {
    phase == ReplacePhase::BuildingReplacement || phase == ReplacePhase::Preparing
        || phase == ReplacePhase::Replacing || phase == ReplacePhase::Finishing
}

pub open spec fn spec_replace_action(
    phase: ReplacePhase,
    table_id: u32,
    declared_version: u64,
    dummy_id: u32,
    fragment_id: u32,
) -> ReplaceAction {
    match phase {
        ReplacePhase::Admitting => ReplaceAction::Admit,
        ReplacePhase::BuildingGraph => ReplaceAction::BuildGraph,
        ReplacePhase::CreatingDummy => ReplaceAction::CreateDummy { table_id, declared_version },
        ReplacePhase::BuildingReplacement => ReplaceAction::BuildReplacement { dummy_id },
        ReplacePhase::Preparing => ReplaceAction::PrepareReplace { dummy_id, fragment_id },
        ReplacePhase::Replacing => ReplaceAction::ReplaceTable,
        ReplacePhase::Finishing => ReplaceAction::FinishReplace { dummy_id },
        ReplacePhase::Aborting(_) => ReplaceAction::AbortReplacing { dummy_id },
        ReplacePhase::Done(r) => ReplaceAction::Return(r),
    }
}

/// How an event moves a replace request on. A failure before the shadow
/// entry exists ends the request; a later one drops the shadow entry and
/// keeps the error, whatever the drop itself reports. An event that does
/// not answer the phase's action leaves it where it is.
pub open spec fn spec_replace_next(phase: ReplacePhase, ev: ReplaceEvent) -> ReplacePhase {
    match (phase, ev) {
        (ReplacePhase::Done(r), _) => ReplacePhase::Done(r),
        (ReplacePhase::Aborting(e), _) => ReplacePhase::Done(Err(e)),
        (p, ReplaceEvent::Failed(e)) => if holds_dummy(p) {
            ReplacePhase::Aborting(e)
        } else {
            ReplacePhase::Done(Err(e))
        },
        (ReplacePhase::Admitting, ReplaceEvent::Succeeded) => ReplacePhase::BuildingGraph,
        (ReplacePhase::BuildingGraph, ReplaceEvent::GraphBuilt(_)) => ReplacePhase::CreatingDummy,
        (ReplacePhase::CreatingDummy, ReplaceEvent::DummyCreated(_)) => ReplacePhase::BuildingReplacement,
        (ReplacePhase::BuildingReplacement, ReplaceEvent::ReplacementBuilt { .. }) => ReplacePhase::Preparing,
        (ReplacePhase::Preparing, ReplaceEvent::Succeeded) => ReplacePhase::Replacing,
        (ReplacePhase::Replacing, ReplaceEvent::Succeeded) => ReplacePhase::Finishing,
        (ReplacePhase::Finishing, ReplaceEvent::Committed(v)) => ReplacePhase::Done(Ok(v)),
        (p, _) => p,
    }
}

/// The decisions of one replace request; the caller performs each action
/// and reports how it went.
pub struct ReplaceDriver {
    pub table_id: u32,
    pub declared_version: u64,
    /// The new version's table fragment, set once its graph is built.
    pub table_fragment_id: Option<u32>,
    /// The new version's DML fragment, set once its graph is built.
    pub dml_fragment_id: Option<u32>,
    pub dummy_id: u32,
    pub fragment_id: u32,
    pub merge_updates: Vec<MergeUpdate>,
    pub phase: ReplacePhase,
}

impl ReplaceDriver {
    pub fn new(table_id: u32, declared_version: u64) -> (r: ReplaceDriver)
        ensures
            r.table_id == table_id,
            r.declared_version == declared_version,
            r.merge_updates@.len() == 0,
            r.table_fragment_id is None,
            r.dml_fragment_id is None,
            r.phase == ReplacePhase::Admitting,
    {
        ReplaceDriver {
            table_id,
            declared_version,
            table_fragment_id: None,
            dml_fragment_id: None,
            dummy_id: 0,
            fragment_id: 0,
            merge_updates: Vec::new(),
            phase: ReplacePhase::Admitting,
        }
    }

    /// The outside work to perform next.
    pub fn action(&self) -> (r: ReplaceAction)
        ensures
            r == spec_replace_action(self.phase, self.table_id, self.declared_version, self.dummy_id, self.fragment_id),
    {
        match self.phase {
            ReplacePhase::Admitting => ReplaceAction::Admit,
            ReplacePhase::BuildingGraph => ReplaceAction::BuildGraph,
            ReplacePhase::CreatingDummy => ReplaceAction::CreateDummy {
                table_id: self.table_id,
                declared_version: self.declared_version,
            },
            ReplacePhase::BuildingReplacement => ReplaceAction::BuildReplacement { dummy_id: self.dummy_id },
            ReplacePhase::Preparing => ReplaceAction::PrepareReplace {
                dummy_id: self.dummy_id,
                fragment_id: self.fragment_id,
            },
            ReplacePhase::Replacing => ReplaceAction::ReplaceTable,
            ReplacePhase::Finishing => ReplaceAction::FinishReplace { dummy_id: self.dummy_id },
            ReplacePhase::Aborting(_) => ReplaceAction::AbortReplacing { dummy_id: self.dummy_id },
            ReplacePhase::Done(r) => ReplaceAction::Return(r),
        }
    }

    /// Moves the request on by the outcome of the last action, keeping the
    /// shadow entry's id and the replacement's fragment and merge updates.
    pub fn on_event(&mut self, ev: ReplaceEvent)
        ensures
            final(self).phase == spec_replace_next(old(self).phase, ev),
            final(self).table_id == old(self).table_id,
            final(self).declared_version == old(self).declared_version,
            (old(self).phase, ev) matches (ReplacePhase::BuildingGraph, ReplaceEvent::GraphBuilt(g))
                ==> final(self).table_fragment_id == g.table_fragment_id && final(self).dml_fragment_id
                == g.dml_fragment_id,
            !((old(self).phase, ev) matches (ReplacePhase::BuildingGraph, ReplaceEvent::GraphBuilt(_)))
                ==> final(self).table_fragment_id == old(self).table_fragment_id && final(self).dml_fragment_id
                == old(self).dml_fragment_id,
            (old(self).phase, ev) matches (ReplacePhase::CreatingDummy, ReplaceEvent::DummyCreated(d))
                ==> final(self).dummy_id == d,
            !((old(self).phase, ev) matches (ReplacePhase::CreatingDummy, ReplaceEvent::DummyCreated(_)))
                ==> final(self).dummy_id == old(self).dummy_id,
            (old(self).phase, ev) matches (ReplacePhase::BuildingReplacement, ReplaceEvent::ReplacementBuilt { fragment_id, merge_updates })
                ==> final(self).fragment_id == fragment_id && final(self).merge_updates@ == merge_updates@,
            !((old(self).phase, ev) matches (ReplacePhase::BuildingReplacement, ReplaceEvent::ReplacementBuilt { .. }))
                ==> final(self).fragment_id == old(self).fragment_id && final(self).merge_updates@ == old(self).merge_updates@,
    {
        let next = match (self.phase, ev) {
            (ReplacePhase::Done(r), _) => ReplacePhase::Done(r),
            (ReplacePhase::Aborting(e), _) => ReplacePhase::Done(Err(e)),
            (p, ReplaceEvent::Failed(e)) => match p {
                ReplacePhase::BuildingReplacement | ReplacePhase::Preparing | ReplacePhase::Replacing
                | ReplacePhase::Finishing => ReplacePhase::Aborting(e),
                _ => ReplacePhase::Done(Err(e)),
            },
            (ReplacePhase::Admitting, ReplaceEvent::Succeeded) => ReplacePhase::BuildingGraph,
            (ReplacePhase::BuildingGraph, ReplaceEvent::GraphBuilt(g)) => {
                self.table_fragment_id = g.table_fragment_id;
                self.dml_fragment_id = g.dml_fragment_id;
                ReplacePhase::CreatingDummy
            },
            (ReplacePhase::CreatingDummy, ReplaceEvent::DummyCreated(d)) => {
                self.dummy_id = d;
                ReplacePhase::BuildingReplacement
            },
            (ReplacePhase::BuildingReplacement, ReplaceEvent::ReplacementBuilt { fragment_id, merge_updates }) => {
                self.fragment_id = fragment_id;
                self.merge_updates = merge_updates;
                ReplacePhase::Preparing
            },
            (ReplacePhase::Preparing, ReplaceEvent::Succeeded) => ReplacePhase::Replacing,
            (ReplacePhase::Replacing, ReplaceEvent::Succeeded) => ReplacePhase::Finishing,
            (ReplacePhase::Finishing, ReplaceEvent::Committed(v)) => ReplacePhase::Done(Ok(v)),
            (p, _) => p,
        };
        self.phase = next;
    }
}

/// A replace request succeeds only through the commit of its replacement;
/// any failure once the shadow entry exists drops it, and the error that
/// ended the request is the one returned, whatever the drop reports.
pub proof fn lemma_replace_commit_or_drop(phase: ReplacePhase, ev: ReplaceEvent, e: DdlError)
    ensures
        (!(phase matches ReplacePhase::Done(_)) && (spec_replace_next(phase, ev) matches ReplacePhase::Done(Ok(_))))
            ==> phase == ReplacePhase::Finishing && ev is Committed,
        holds_dummy(phase) ==> spec_replace_next(phase, ReplaceEvent::Failed(e)) == ReplacePhase::Aborting(e),
        !holds_dummy(phase) && !(phase matches ReplacePhase::Done(_)) && !(phase matches ReplacePhase::Aborting(_))
            ==> spec_replace_next(phase, ReplaceEvent::Failed(e)) == ReplacePhase::Done(Err(e)),
        spec_replace_next(ReplacePhase::Aborting(e), ev) == ReplacePhase::Done(Err(e)),
{
}

} // verus!
