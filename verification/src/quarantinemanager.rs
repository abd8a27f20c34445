//! The quarantine state machine and its outcome classification.
//!
//! A quarantine attempt proceeds in two stages. First the quarantine
//! directory is checked and, if missing, its creation is attempted; the
//! result decides whether the flagged file is relocated into the directory
//! or, as a destructive fallback, deleted outright. Second, the outcome of
//! that single filesystem operation is folded into one of exactly four
//! terminal classifications, so a caller can always tell what happened to
//! the hazardous file. The decisions are made here, over plain boolean
//! observations; the embedding program performs the filesystem operations
//! themselves and reports their results back.

use vstd::prelude::*;

verus! {

/// The closed, exhaustive classification of one quarantine attempt.
/// Exactly one variant is produced per attempt; there is no partial or
/// ambiguous state.
#[derive(Clone, Copy, Debug, PartialEq, Eq, Structural)]
pub enum QuarantineResult {
    /// The directory existed or was created, and relocation succeeded:
    /// the file resides in the quarantine store under a randomized name.
    Quarantined,
    /// The directory could not be created; the fallback destructive delete
    /// succeeded: the file is permanently removed, no quarantine copy exists.
    QuarantinedWithSourceDeleted,
    /// The directory could not be created and the fallback delete also
    /// failed: the file remains in place, unmodified and still hazardous.
    DeleteFailed,
    /// The directory was available but the relocation itself failed:
    /// the file remains at its original location, unmodified.
    TotalFailure,
}

/// The action that a quarantine attempt performs after the directory stage.
#[derive(Clone, Copy, Debug, PartialEq, Eq, Structural)]
pub enum QuarantineStep {
    /// The quarantine directory is usable: rename the file into it.
    Relocate,
    /// The quarantine directory is unusable: delete the file outright.
    DeleteSource,
}

/// Which action follows the directory stage: relocation whenever the
/// directory exists or could be created, destructive deletion otherwise.
pub open spec fn step_spec(dir_exists: bool, create_ok: bool) -> QuarantineStep {
    if dir_exists || create_ok {
        QuarantineStep::Relocate
    } else {
        QuarantineStep::DeleteSource
    }
}

/// The terminal classification, given the chosen action and whether that
/// action's filesystem operation succeeded.
pub open spec fn outcome_spec(step: QuarantineStep, op_ok: bool) -> QuarantineResult {
    match step {
        QuarantineStep::Relocate => if op_ok {
            QuarantineResult::Quarantined
        } else {
            QuarantineResult::TotalFailure
        },
        QuarantineStep::DeleteSource => if op_ok {
            QuarantineResult::QuarantinedWithSourceDeleted
        } else {
            QuarantineResult::DeleteFailed
        },
    }
}

/// Owns the quarantine directory concept: the configured subfolder name
/// under which the embedding program resolves the quarantine root, plus the
/// decision logic of the quarantine protocol. Stateless between calls apart
/// from this configuration.
pub struct QuarantineManager {
    quarantine_file_name: String,
}

impl QuarantineManager {
    /// The configured quarantine subfolder name.
    pub closed spec fn name_spec(&self) -> Seq<char> {
        self.quarantine_file_name@
    }

    /// Creates a new `QuarantineManager` with the specified quarantine
    /// directory name.
    pub fn new(quarantine_file_name: String) -> (m: QuarantineManager)
        ensures
            m.name_spec() == quarantine_file_name@,
    {
        QuarantineManager { quarantine_file_name }
    }

    /// The configured quarantine directory name, for resolving the
    /// quarantine root under the system data directory.
    pub fn quarantine_file_name(&self) -> (r: &str)
        ensures
            r@ == self.name_spec(),
    {
        self.quarantine_file_name.as_str()
    }

    /// Decides the action that follows the directory stage: the file is
    /// relocated when the quarantine directory pre-exists (`create_ok` is
    /// then irrelevant) or when it was created on demand; only when the
    /// directory is unusable is the destructive fallback taken.
    pub fn next_step(&self, dir_exists: bool, create_ok: bool) -> (s: QuarantineStep)
        ensures
            s == step_spec(dir_exists, create_ok),
    {
        if dir_exists || create_ok {
            QuarantineStep::Relocate
        } else {
            QuarantineStep::DeleteSource
        }
    }

    /// Folds the result of the chosen action's filesystem operation into the
    /// terminal outcome classification.
    pub fn classify(&self, step: QuarantineStep, op_ok: bool) -> (r: QuarantineResult)
        ensures
            r == outcome_spec(step, op_ok),
    {
        match step {
            QuarantineStep::Relocate => if op_ok {
                QuarantineResult::Quarantined
            } else {
                QuarantineResult::TotalFailure
            },
            QuarantineStep::DeleteSource => if op_ok {
                QuarantineResult::QuarantinedWithSourceDeleted
            } else {
                QuarantineResult::DeleteFailed
            },
        }
    }
}

/// The quarantine protocol is total and unambiguous: for every combination
/// of observations, exactly one outcome is produced, and each of the four
/// outcomes is produced exactly on the stated combination. In particular a
/// failed relocation (including one whose source path vanished because the
/// file was already quarantined) always classifies as `TotalFailure`, never
/// as a silent success.
pub proof fn lemma_outcome_characterization(dir_exists: bool, create_ok: bool, op_ok: bool)
    ensures
        outcome_spec(step_spec(dir_exists, create_ok), op_ok) == QuarantineResult::Quarantined
            <==> ((dir_exists || create_ok) && op_ok),
        outcome_spec(step_spec(dir_exists, create_ok), op_ok) == QuarantineResult::TotalFailure
            <==> ((dir_exists || create_ok) && !op_ok),
        outcome_spec(step_spec(dir_exists, create_ok), op_ok)
            == QuarantineResult::QuarantinedWithSourceDeleted
            <==> (!(dir_exists || create_ok) && op_ok),
        outcome_spec(step_spec(dir_exists, create_ok), op_ok) == QuarantineResult::DeleteFailed
            <==> (!(dir_exists || create_ok) && !op_ok),
{
}

} // verus!
