//! The migration runner: orchestrates one version-to-version step.  It asks
//! the version gate for a verdict, runs the store translator when the step
//! is due, persists the new on-chain version, and accounts the cost as one
//! read and one write per entry touched plus one of each for the version
//! itself.  A skipped or invalid run mutates nothing and charges a single
//! read.

use vstd::prelude::*;
use crate::gate::{Decision, decide, spec_decide};
use crate::store::{EntryView, Store};
use crate::translate::{
    Step, decodable, lemma_count_preservation, lemma_status_defaulting, migrated_shape,
    step_target, translate_all, translate_seq,
};

verus! {

/// The outcome of one runner invocation: the version gate's verdict, the on-chain
/// version after the run, the resources charged, and how many entries were
/// rewritten or dropped.
#[derive(Clone, Copy, Debug, PartialEq, Eq, Structural)]
pub struct CostReport {
    /// What the version gate decided for this step.
    pub decision: Decision,
    /// The on-chain version once the run is over.
    pub version: u32,
    /// Store reads charged: entries touched plus the version read.
    pub reads: u64,
    /// Store writes charged: entries touched plus the version write, or
    /// none at all when nothing ran.
    pub writes: u64,
    /// Entries decoded and rewritten.
    pub migrated: u64,
    /// Entries that failed to decode and were dropped by the rewrite.
    pub dropped: u64,
}

/// Mathematical model of one runner invocation.
#[verifier::ext_equal]
pub ghost struct RunModel {
    pub store: Seq<EntryView>,
    pub version: u32,
    pub decision: Decision,
    pub reads: int,
    pub writes: int,
    pub migrated: int,
    pub dropped: int,
}

/// The version gate's verdict as one concrete step sees it: a step only ever runs
/// when the software's current version is the very version the step
/// produces; under any other current version the step is not the pending
/// one and is skipped.
pub open spec fn gate_for(step: Step, onchain: u32, current: u32) -> Decision {
    if current != step_target(step) {
        Decision::Skip
    } else {
        spec_decide(onchain, current)
    }
}

/// What one runner invocation does: on Run, the store is translated and the
/// current version is persisted, with one read and one write charged per
/// rewritten entry plus one of each for the version; on Skip or Invalid,
/// nothing is mutated and a single read is charged.
pub open spec fn run_model(step: Step, s: Seq<EntryView>, onchain: u32, current: u32) -> RunModel {
    if gate_for(step, onchain, current) == Decision::Run {
        let t = translate_seq(step, s);
        RunModel {
            store: t,
            version: current,
            decision: Decision::Run,
            reads: t.len() as int + 1,
            writes: t.len() as int + 1,
            migrated: t.len() as int,
            dropped: s.len() - t.len(),
        }
    } else {
        RunModel {
            store: s,
            version: onchain,
            decision: gate_for(step, onchain, current),
            reads: 1,
            writes: 0,
            migrated: 0,
            dropped: 0,
        }
    }
}

/// The runner's outcome agrees with its model in every component.
pub open spec fn run_matches(m: RunModel, new_store: Seq<EntryView>, r: CostReport) -> bool {
    &&& new_store == m.store
    &&& r.version == m.version
    &&& r.decision == m.decision
    &&& r.reads == m.reads
    &&& r.writes == m.writes
    &&& r.migrated == m.migrated
    &&& r.dropped == m.dropped
}

/// Run one migration step against the store.
///
/// `onchain` is the persisted on-chain version, `current` the version the
/// running software expects; the returned report carries the version to
/// persist, which advances to `current` exactly when the step ran.
pub fn run_step(step: Step, store: &mut Store, onchain: u32, current: u32) -> (r: CostReport)
    requires
        old(store).wf(),
        old(store)@.len() < u64::MAX,
    ensures
        run_matches(run_model(step, old(store)@, onchain, current), final(store)@, r),
        final(store).wf(),
        final(store).max_len == old(store).max_len,
{
    let target: u32 = match step {
        Step::ToV1 => 1,
        Step::ToV2 => 2,
    };
    let d = decide(onchain, current);
    if current == target && d == Decision::Run {
        let (migrated, dropped) = translate_all(step, store);
        CostReport {
            decision: Decision::Run,
            version: current,
            reads: migrated + 1,
            writes: migrated + 1,
            migrated,
            dropped,
        }
    } else {
        let g = if current != target {
            Decision::Skip
        } else {
            d
        };
        CostReport { decision: g, version: onchain, reads: 1, writes: 0, migrated: 0, dropped: 0 }
    }
}

/// The step that splits every raw byte-string name into first and optional
/// last segments, taking the store from schema 0 to schema 1.
pub struct MigrateToV1;

/// The step that adds the default `Active` status to every split name,
/// taking the store from schema 1 to schema 2.
pub struct MigrateToV2;

impl MigrateToV1 {
    /// Run the 0-to-1 step: gate, translate, persist, account.
    pub fn on_runtime_upgrade(store: &mut Store, onchain: u32, current: u32) -> (r: CostReport)
        requires
            old(store).wf(),
            old(store)@.len() < u64::MAX,
        ensures
            run_matches(run_model(Step::ToV1, old(store)@, onchain, current), final(store)@, r),
            final(store).wf(),
            final(store).max_len == old(store).max_len,
    {
        run_step(Step::ToV1, store, onchain, current)
    }
}

impl MigrateToV2 {
    /// Run the 1-to-2 step: gate, translate, persist, account.
    pub fn on_runtime_upgrade(store: &mut Store, onchain: u32, current: u32) -> (r: CostReport)
        requires
            old(store).wf(),
            old(store)@.len() < u64::MAX,
        ensures
            run_matches(run_model(Step::ToV2, old(store)@, onchain, current), final(store)@, r),
            final(store).wf(),
            final(store).max_len == old(store).max_len,
    {
        run_step(Step::ToV2, store, onchain, current)
    }
}

/// The canonical entry point for the 1-to-2 transition: gates on the version
/// pair and rewrites the store when the step is due.
pub fn migrate_to_v2(store: &mut Store, onchain: u32, current: u32) -> (r: CostReport)
    requires
        old(store).wf(),
        old(store)@.len() < u64::MAX,
    ensures
        run_matches(run_model(Step::ToV2, old(store)@, onchain, current), final(store)@, r),
        final(store).wf(),
        final(store).max_len == old(store).max_len,
{
    MigrateToV2::on_runtime_upgrade(store, onchain, current)
}

/// Idempotence: a successful run leaves the on-chain version at the step's
/// target, so invoking the same step again decides Skip, rewrites nothing,
/// and charges only the single version read.
pub proof fn lemma_idempotence(step: Step, s: Seq<EntryView>, onchain: u32, current: u32)
    requires
        gate_for(step, onchain, current) == Decision::Run,
    ensures
        ({
            let first_run = run_model(step, s, onchain, current);
            let second_run = run_model(step, first_run.store, first_run.version, current);
            &&& second_run.decision == Decision::Skip
            &&& second_run.store == first_run.store
            &&& second_run.version == first_run.version
            &&& second_run.reads == 1
            &&& second_run.writes == 0
            &&& second_run.migrated == 0
        }),
{
}

/// Count preservation: across a successful run of a step on a store whose
/// every entry decodes, the store holds exactly as many entries afterwards
/// as before, each at its old position with its old key and old deposit.
pub proof fn lemma_count_preservation_run(step: Step, s: Seq<EntryView>, onchain: u32, current: u32)
    requires
        forall|i: int| 0 <= i < s.len() ==> decodable(step, #[trigger] s[i].record),
    ensures
        run_model(step, s, onchain, current).store.len() == s.len(),
        forall|i: int|
            0 <= i < s.len() ==> (#[trigger] run_model(step, s, onchain, current).store[i].key)
                == s[i].key,
        forall|i: int|
            0 <= i < s.len() ==> (#[trigger] run_model(step, s, onchain, current).store[i].deposit)
                == s[i].deposit,
{
    lemma_count_preservation(step, s);
}

/// Status defaulting across a run: after a step has run, every record left
/// in the store is in the shape that step produces — after the 1-to-2
/// migration, every record's status holds `Active` and no record holds any
/// other member of the enumeration.
pub proof fn lemma_status_defaulting_run(step: Step, s: Seq<EntryView>, onchain: u32, current: u32)
    requires
        gate_for(step, onchain, current) == Decision::Run,
    ensures
        forall|j: int|
            0 <= j < run_model(step, s, onchain, current).store.len() ==> migrated_shape(
                step,
                #[trigger] run_model(step, s, onchain, current).store[j].record,
            ),
{
    lemma_status_defaulting(step, s);
}

/// Version monotonicity: a successful run advances the on-chain version
/// from strictly below the target to exactly the target, and any further
/// invocation of the step leaves it there.
pub proof fn lemma_version_monotonicity(step: Step, s: Seq<EntryView>, onchain: u32, current: u32)
    requires
        gate_for(step, onchain, current) == Decision::Run,
    ensures
        onchain < current,
        run_model(step, s, onchain, current).version == current,
        ({
            let first_run = run_model(step, s, onchain, current);
            run_model(step, first_run.store, first_run.version, current).version == current
        }),
{
}

} // verus!
