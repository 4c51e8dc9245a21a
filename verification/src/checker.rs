//! The integrity checker that brackets a migration in diagnostic runs.  The
//! pre-flight check asserts the version pair is exactly the (predecessor,
//! successor) pair of the step, verifies every stored value decodes, and
//! captures the entry count as a checkpoint.  The post-flight check asserts
//! the count is unchanged, the on-chain version reached the target, and
//! every record holds only the shape and status the step is permitted to
//! produce.  Unlike the production path, these checks fail loudly and say
//! which invariant broke.

use vstd::prelude::*;
use crate::record::{AccountStatus, Record};
use crate::store::{EntryView, Store};
use crate::translate::{Step, decodable, migrated_shape, step_target};
use crate::runner::{MigrateToV1, MigrateToV2};

verus! {

/// Which invariant a diagnostic check found broken.
#[derive(Clone, Copy, Debug, PartialEq, Eq, Structural)]
pub enum CheckError {
    /// The version pair is not the exact (predecessor, successor) pair this
    /// step expects, or the on-chain version did not reach the target.
    VersionMismatch,
    /// Some stored value is not decodable at the legacy schema.
    Undecodable,
    /// The entry count changed across the migration.
    CountMismatch,
    /// Some migrated record holds a status no migration may produce.
    StatusViolation,
}

/// Every entry of the store decodes at the legacy schema of the step.
pub open spec fn all_decodable(step: Step, s: Seq<EntryView>) -> bool {
    forall|i: int| 0 <= i < s.len() ==> decodable(step, #[trigger] s[i].record)
}

/// Every entry of the store is in the shape the step leaves behind.
pub open spec fn all_migrated_shape(step: Step, s: Seq<EntryView>) -> bool {
    forall|i: int| 0 <= i < s.len() ==> migrated_shape(step, #[trigger] s[i].record)
}

/// Whether a record decodes at the legacy schema of the step.
pub fn record_decodable(step: Step, r: &Record) -> (b: bool)
    ensures
        b == decodable(step, r@),
{
    match step {
        Step::ToV1 => match r {
            Record::Raw(_) => true,
            _ => false,
        },
        Step::ToV2 => match r {
            Record::Named(_) => true,
            _ => false,
        },
    }
}

/// Whether a record is in the shape the step leaves behind.
pub fn record_migrated_shape(step: Step, r: &Record) -> (b: bool)
    ensures
        b == migrated_shape(step, r@),
{
    match step {
        Step::ToV1 => match r {
            Record::Named(_) => true,
            _ => false,
        },
        Step::ToV2 => match r {
            Record::Current(n) => n.third == AccountStatus::Active,
            _ => false,
        },
    }
}

/// The pre-flight check of one step: the on-chain version must be the
/// step's predecessor and the software's current version the step's target,
/// every stored value must decode, and the entry count is returned as the
/// checkpoint for the post-flight check.
pub fn pre_check(step: Step, store: &Store, onchain: u32, current: u32) -> (r: Result<
    u64,
    CheckError,
>)
    ensures
        match r {
            Ok(c) => onchain + 1 == step_target(step) && current == step_target(step)
                && all_decodable(step, store@) && c == store@.len(),
            Err(e) => match e {
                CheckError::VersionMismatch => !(onchain + 1 == step_target(step) && current
                    == step_target(step)),
                CheckError::Undecodable => onchain + 1 == step_target(step) && current
                    == step_target(step) && !all_decodable(step, store@),
                _ => false,
            },
        },
{
    let target: u32 = match step {
        Step::ToV1 => 1,
        Step::ToV2 => 2,
    };
    if !(onchain == target - 1 && current == target) {
        return Err(CheckError::VersionMismatch);
    }
    let n = store.entries.len();
    let mut i: usize = 0;
    while i < n
        invariant
            i <= n,
            n == store@.len(),
            onchain + 1 == step_target(step),
            current == step_target(step),
            forall|j: int| 0 <= j < i ==> decodable(step, #[trigger] store@[j].record),
        decreases n - i,
    {
        proof {
            assert(store@[i as int] == store.entries@[i as int]@);
        }
        if !record_decodable(step, &store.entries[i].record) {
            proof {
                assert(!decodable(step, store@[i as int].record));
                assert(!all_decodable(step, store@));
            }
            return Err(CheckError::Undecodable);
        }
        i = i + 1;
    }
    Ok(store.count())
}

/// The post-flight check of one step: the entry count must equal the
/// checkpoint, the on-chain version must have reached the target the
/// software expects, and every record must be in the shape the step is
/// permitted to produce — under schema 2, a status of `Active` and nothing
/// else.
pub fn post_check(step: Step, store: &Store, prev_count: u64, onchain: u32, current: u32) -> (r:
    Result<(), CheckError>)
    ensures
        match r {
            Ok(_) => prev_count == store@.len() && current == step_target(step) && onchain
                == current && all_migrated_shape(step, store@),
            Err(e) => match e {
                CheckError::CountMismatch => prev_count != store@.len(),
                CheckError::VersionMismatch => prev_count == store@.len() && !(current
                    == step_target(step) && onchain == current),
                CheckError::StatusViolation => prev_count == store@.len() && current
                    == step_target(step) && onchain == current && !all_migrated_shape(
                    step,
                    store@,
                ),
                _ => false,
            },
        },
{
    let target: u32 = match step {
        Step::ToV1 => 1,
        Step::ToV2 => 2,
    };
    if store.count() != prev_count {
        return Err(CheckError::CountMismatch);
    }
    if !(current == target && onchain == current) {
        return Err(CheckError::VersionMismatch);
    }
    let n = store.entries.len();
    let mut i: usize = 0;
    while i < n
        invariant
            i <= n,
            n == store@.len(),
            prev_count == store@.len(),
            current == step_target(step),
            onchain == current,
            forall|j: int| 0 <= j < i ==> migrated_shape(step, #[trigger] store@[j].record),
        decreases n - i,
    {
        proof {
            assert(store@[i as int] == store.entries@[i as int]@);
        }
        if !record_migrated_shape(step, &store.entries[i].record) {
            proof {
                assert(!migrated_shape(step, store@[i as int].record));
                assert(!all_migrated_shape(step, store@));
            }
            return Err(CheckError::StatusViolation);
        }
        i = i + 1;
    }
    Ok(())
}

impl MigrateToV1 {
    /// Pre-flight check of the 0-to-1 step.
    pub fn pre_upgrade(store: &Store, onchain: u32, current: u32) -> (r: Result<u64, CheckError>)
        ensures
            match r {
                Ok(c) => onchain + 1 == 1 && current == 1 && all_decodable(Step::ToV1, store@) && c
                    == store@.len(),
                Err(e) => match e {
                    CheckError::VersionMismatch => !(onchain + 1 == 1 && current == 1),
                    CheckError::Undecodable => onchain + 1 == 1 && current == 1 && !all_decodable(
                        Step::ToV1,
                        store@,
                    ),
                    _ => false,
                },
            },
    {
        pre_check(Step::ToV1, store, onchain, current)
    }

    /// Post-flight check of the 0-to-1 step.
    pub fn post_upgrade(store: &Store, prev_count: u64, onchain: u32, current: u32) -> (r: Result<
        (),
        CheckError,
    >)
        ensures
            match r {
                Ok(_) => prev_count == store@.len() && current == 1 && onchain == 1
                    && all_migrated_shape(Step::ToV1, store@),
                Err(e) => match e {
                    CheckError::CountMismatch => prev_count != store@.len(),
                    CheckError::VersionMismatch => prev_count == store@.len() && !(current == 1
                        && onchain == 1),
                    CheckError::StatusViolation => prev_count == store@.len() && current == 1
                        && onchain == 1 && !all_migrated_shape(Step::ToV1, store@),
                    _ => false,
                },
            },
    {
        post_check(Step::ToV1, store, prev_count, onchain, current)
    }
}

impl MigrateToV2 {
    /// Pre-flight check of the 1-to-2 step.
    pub fn pre_upgrade(store: &Store, onchain: u32, current: u32) -> (r: Result<u64, CheckError>)
        ensures
            match r {
                Ok(c) => onchain + 1 == 2 && current == 2 && all_decodable(Step::ToV2, store@) && c
                    == store@.len(),
                Err(e) => match e {
                    CheckError::VersionMismatch => !(onchain + 1 == 2 && current == 2),
                    CheckError::Undecodable => onchain + 1 == 2 && current == 2 && !all_decodable(
                        Step::ToV2,
                        store@,
                    ),
                    _ => false,
                },
            },
    {
        pre_check(Step::ToV2, store, onchain, current)
    }

    /// Post-flight check of the 1-to-2 step.
    pub fn post_upgrade(store: &Store, prev_count: u64, onchain: u32, current: u32) -> (r: Result<
        (),
        CheckError,
    >)
        ensures
            match r {
                Ok(_) => prev_count == store@.len() && current == 2 && onchain == 2
                    && all_migrated_shape(Step::ToV2, store@),
                Err(e) => match e {
                    CheckError::CountMismatch => prev_count != store@.len(),
                    CheckError::VersionMismatch => prev_count == store@.len() && !(current == 2
                        && onchain == 2),
                    CheckError::StatusViolation => prev_count == store@.len() && current == 2
                        && onchain == 2 && !all_migrated_shape(Step::ToV2, store@),
                    _ => false,
                },
            },
    {
        post_check(Step::ToV2, store, prev_count, onchain, current)
    }
}

} // verus!
