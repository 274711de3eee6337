//! Maintenance decisions for typed query index archives.
use vstd::prelude::*;
use vstd::std_specs::convert::FromSpecImpl;

use super::footprint::{footprint_error_message, FSETypedQueryIndexArchiveFootprint, FSETypedQueryIndexArchiveFootprintError};
use super::operations::{
    input_error, maintenance_error_message, maintenance_evaluation, FSEArchiveMaintenanceAction,
    FSEArchiveMaintenanceDecision, FSEArchiveMaintenanceError, FSEArchiveMaintenanceInput,
    FSEArchiveMaintenancePolicy,
};
use super::query_index_file::{query_index_archive_error_message, FSETypedQueryIndexArchiveError};
use super::record_batch_file::{record_batch_archive_error_message, FSERecordBatchArchiveError};
use super::tombstone_file::{tombstone_archive_error_message, FSETypedRowTombstoneArchiveError};

use super::footprint::footprint_error_text;
use super::query_index_file::query_index_archive_error_text;
use crate::text::owned_text;

verus! {

/// Error returned when typed query index archive maintenance fails.
#[derive(Clone, Debug, PartialEq, Eq)]
pub enum FSETypedQueryIndexArchiveMaintenanceError {
    /// Loading the typed query index archive failed.
    LoadIndex(FSETypedQueryIndexArchiveError),
    /// Loading the typed row tombstone archive failed.
    LoadTombstones(FSETypedRowTombstoneArchiveError),
    /// Archive maintenance policy evaluation failed.
    Policy(FSEArchiveMaintenanceError),
    /// Reading logical archive footprint metadata failed.
    Footprint(FSETypedQueryIndexArchiveFootprintError),
    /// Applying appended typed records failed.
    Append(FSETypedQueryIndexArchiveError),
}

/// Diagnostic text of an error of type `FSETypedQueryIndexArchiveMaintenanceError`.
pub open spec fn query_index_maintenance_error_message(error: FSETypedQueryIndexArchiveMaintenanceError) -> &'static str {
    match error {
        FSETypedQueryIndexArchiveMaintenanceError::LoadIndex(error) => { query_index_archive_error_message(error) },
        FSETypedQueryIndexArchiveMaintenanceError::LoadTombstones(error) => { tombstone_archive_error_message(error) },
        FSETypedQueryIndexArchiveMaintenanceError::Policy(error) => { maintenance_error_message(error) },
        FSETypedQueryIndexArchiveMaintenanceError::Footprint(error) => { footprint_error_message(error) },
        FSETypedQueryIndexArchiveMaintenanceError::Append(error) => { query_index_archive_error_message(error) },
    }
}

impl FSETypedQueryIndexArchiveMaintenanceError {
    /// Returns the diagnostic message for the error.
    pub fn message(&self) -> (message: &'static str)
        ensures
            message == query_index_maintenance_error_message(*self),
    {
        match self {
            FSETypedQueryIndexArchiveMaintenanceError::LoadIndex(error) => { error.message() },
            FSETypedQueryIndexArchiveMaintenanceError::LoadTombstones(error) => { error.message() },
            FSETypedQueryIndexArchiveMaintenanceError::Policy(error) => { error.message() },
            FSETypedQueryIndexArchiveMaintenanceError::Footprint(error) => { error.message() },
            FSETypedQueryIndexArchiveMaintenanceError::Append(error) => { error.message() },
        }
    }
}

/// Diagnostic text of an error of type `FSETypedQueryIndexArchiveMaintenanceError`, carrying the values that the
/// wrapped errors name.
pub open spec fn query_index_maintenance_error_text(error: FSETypedQueryIndexArchiveMaintenanceError) -> Seq<char> {
    match error {
        FSETypedQueryIndexArchiveMaintenanceError::LoadIndex(error) => query_index_archive_error_text(error),
        FSETypedQueryIndexArchiveMaintenanceError::Footprint(error) => footprint_error_text(error),
        FSETypedQueryIndexArchiveMaintenanceError::Append(error) => query_index_archive_error_text(error),
        _ => query_index_maintenance_error_message(error)@,
    }
}

impl FSETypedQueryIndexArchiveMaintenanceError {
    /// Returns the diagnostic text for the error, carrying the values that the
    /// wrapped errors name.
    pub fn description(&self) -> (text: String)
        ensures
            text@ == query_index_maintenance_error_text(*self),
    {
        match self {
            FSETypedQueryIndexArchiveMaintenanceError::LoadIndex(error) => error.description(),
            FSETypedQueryIndexArchiveMaintenanceError::Footprint(error) => error.description(),
            FSETypedQueryIndexArchiveMaintenanceError::Append(error) => error.description(),
            _ => owned_text(self.message()),
        }
    }
}

/// Error returned when append-delta archive maintenance fails.
#[derive(Clone, Debug, PartialEq, Eq)]
pub enum FSETypedQueryIndexAppendDeltaArchiveMaintenanceError {
    /// Loading the typed record batch append archive failed.
    LoadAppendBatch(FSERecordBatchArchiveError),
    /// Typed query index archive maintenance failed.
    Maintenance(FSETypedQueryIndexArchiveMaintenanceError),
    /// Reading logical archive footprint metadata failed.
    Footprint(FSETypedQueryIndexArchiveFootprintError),
    /// Saving the cleared append archive failed.
    SaveAppendBatch(FSERecordBatchArchiveError),
}

/// Diagnostic text of an error of type `FSETypedQueryIndexAppendDeltaArchiveMaintenanceError`.
pub open spec fn append_delta_maintenance_error_message(error: FSETypedQueryIndexAppendDeltaArchiveMaintenanceError) -> &'static str {
    match error {
        FSETypedQueryIndexAppendDeltaArchiveMaintenanceError::LoadAppendBatch(error) => { record_batch_archive_error_message(error) },
        FSETypedQueryIndexAppendDeltaArchiveMaintenanceError::Maintenance(error) => { query_index_maintenance_error_message(error) },
        FSETypedQueryIndexAppendDeltaArchiveMaintenanceError::Footprint(error) => { footprint_error_message(error) },
        FSETypedQueryIndexAppendDeltaArchiveMaintenanceError::SaveAppendBatch(error) => { record_batch_archive_error_message(error) },
    }
}

impl FSETypedQueryIndexAppendDeltaArchiveMaintenanceError {
    /// Returns the diagnostic message for the error.
    pub fn message(&self) -> (message: &'static str)
        ensures
            message == append_delta_maintenance_error_message(*self),
    {
        match self {
            FSETypedQueryIndexAppendDeltaArchiveMaintenanceError::LoadAppendBatch(error) => { error.message() },
            FSETypedQueryIndexAppendDeltaArchiveMaintenanceError::Maintenance(error) => { error.message() },
            FSETypedQueryIndexAppendDeltaArchiveMaintenanceError::Footprint(error) => { error.message() },
            FSETypedQueryIndexAppendDeltaArchiveMaintenanceError::SaveAppendBatch(error) => { error.message() },
        }
    }
}

/// Diagnostic text of an error of type `FSETypedQueryIndexAppendDeltaArchiveMaintenanceError`, carrying the values that the
/// wrapped errors name.
pub open spec fn append_delta_maintenance_error_text(error: FSETypedQueryIndexAppendDeltaArchiveMaintenanceError) -> Seq<char> {
    match error {
        FSETypedQueryIndexAppendDeltaArchiveMaintenanceError::Maintenance(error) => query_index_maintenance_error_text(error),
        FSETypedQueryIndexAppendDeltaArchiveMaintenanceError::Footprint(error) => footprint_error_text(error),
        _ => append_delta_maintenance_error_message(error)@,
    }
}

impl FSETypedQueryIndexAppendDeltaArchiveMaintenanceError {
    /// Returns the diagnostic text for the error, carrying the values that the
    /// wrapped errors name.
    pub fn description(&self) -> (text: String)
        ensures
            text@ == append_delta_maintenance_error_text(*self),
    {
        match self {
            FSETypedQueryIndexAppendDeltaArchiveMaintenanceError::Maintenance(error) => error.description(),
            FSETypedQueryIndexAppendDeltaArchiveMaintenanceError::Footprint(error) => error.description(),
            _ => owned_text(self.message()),
        }
    }
}

impl From<FSETypedQueryIndexArchiveMaintenanceError> for FSETypedQueryIndexAppendDeltaArchiveMaintenanceError {
    fn from(error: FSETypedQueryIndexArchiveMaintenanceError) -> (converted: Self) {
        FSETypedQueryIndexAppendDeltaArchiveMaintenanceError::Maintenance(error)
    }
}

impl FromSpecImpl<FSETypedQueryIndexArchiveMaintenanceError> for FSETypedQueryIndexAppendDeltaArchiveMaintenanceError {
    open spec fn obeys_from_spec() -> bool {
        true
    }

    open spec fn from_spec(error: FSETypedQueryIndexArchiveMaintenanceError) -> Self {
        FSETypedQueryIndexAppendDeltaArchiveMaintenanceError::Maintenance(error)
    }
}


/// Read-only maintenance status for a typed query index archive.
#[derive(Clone, Copy, Debug, PartialEq, Eq, Structural)]
pub struct FSETypedQueryIndexArchiveMaintenanceStatus {
    /// Maintenance decision selected for the current archive state.
    pub decision: FSEArchiveMaintenanceDecision,
    /// Logical footprint for the archive files included in the decision.
    pub footprint: FSETypedQueryIndexArchiveFootprint,
}

impl FSETypedQueryIndexArchiveMaintenanceStatus {
    /// Returns whether the selected decision would write archive files.
    pub fn requires_archive_write(&self) -> (writes: bool)
        ensures
            writes == (self.decision.action != FSEArchiveMaintenanceAction::NoMaintenance),
    {
        self.decision.requires_archive_write()
    }
}

/// What evaluating maintenance for the given counts under `policy` yields.
pub open spec fn typed_query_index_maintenance_evaluation(
    base_record_count: u64,
    pending_append_record_count: u64,
    tombstone_count: u64,
    policy: FSEArchiveMaintenancePolicy,
) -> Result<FSEArchiveMaintenanceDecision, FSETypedQueryIndexArchiveMaintenanceError> {
    let input = FSEArchiveMaintenanceInput {
        base_record_count,
        pending_append_record_count,
        tombstone_count,
    };
    match input_error(input) {
        Some(error) => Err(FSETypedQueryIndexArchiveMaintenanceError::Policy(error)),
        None => match maintenance_evaluation(policy, input) {
            Ok(decision) => Ok(decision),
            Err(error) => Err(FSETypedQueryIndexArchiveMaintenanceError::Policy(error)),
        },
    }
}

/// Evaluates archive maintenance policy for the record counts of a typed query
/// index archive, its pending appended records and its tombstones.
pub fn evaluate_typed_query_index_archive_maintenance(
    base_record_count: u64,
    pending_append_record_count: u64,
    tombstone_count: u64,
    policy: &FSEArchiveMaintenancePolicy,
) -> (result: Result<FSEArchiveMaintenanceDecision, FSETypedQueryIndexArchiveMaintenanceError>)
    ensures
        result == typed_query_index_maintenance_evaluation(
            base_record_count,
            pending_append_record_count,
            tombstone_count,
            *policy,
        ),
{
    let input = match FSEArchiveMaintenanceInput::try_new(
        base_record_count,
        pending_append_record_count,
        tombstone_count,
    ) {
        Ok(input) => input,
        Err(error) => return Err(FSETypedQueryIndexArchiveMaintenanceError::Policy(error)),
    };
    match policy.evaluate(input) {
        Ok(decision) => Ok(decision),
        Err(error) => Err(FSETypedQueryIndexArchiveMaintenanceError::Policy(error)),
    }
}

/// Archive work that maintenance carries out for a selected action.
#[derive(Clone, Copy, Debug, PartialEq, Eq, Structural)]
pub enum FSETypedQueryIndexArchiveMaintenanceStep {
    /// No archive file is written.
    Nothing,
    /// The pending appended records are applied to the query index archive.
    Append,
    /// The tombstoned records are compacted out of the query index archive.
    Compact,
    /// The appended records are applied and the tombstoned records compacted in
    /// one rebuild, after which the tombstone archive is cleared.
    AppendAndCompact,
}

/// The work for `action`, given whether appended records are pending and
/// whether the tombstone archive holds any tombstone: an append runs only with
/// pending records; a compaction runs whatever the tombstones; a rebuild runs
/// the work that is due, both in one pass when both are.
pub open spec fn maintenance_step_of(
    action: FSEArchiveMaintenanceAction,
    has_append: bool,
    has_tombstones: bool,
) -> FSETypedQueryIndexArchiveMaintenanceStep {
    match action {
        FSEArchiveMaintenanceAction::NoMaintenance => FSETypedQueryIndexArchiveMaintenanceStep::Nothing,
        FSEArchiveMaintenanceAction::Append => if has_append {
            FSETypedQueryIndexArchiveMaintenanceStep::Append
        } else {
            FSETypedQueryIndexArchiveMaintenanceStep::Nothing
        },
        FSEArchiveMaintenanceAction::Compact => FSETypedQueryIndexArchiveMaintenanceStep::Compact,
        FSEArchiveMaintenanceAction::Rebuild => if has_append && has_tombstones {
            FSETypedQueryIndexArchiveMaintenanceStep::AppendAndCompact
        } else if has_append {
            FSETypedQueryIndexArchiveMaintenanceStep::Append
        } else if has_tombstones {
            FSETypedQueryIndexArchiveMaintenanceStep::Compact
        } else {
            FSETypedQueryIndexArchiveMaintenanceStep::Nothing
        },
    }
}

/// Selects the archive work that maintenance carries out for `action`.
pub fn typed_query_index_archive_maintenance_step(
    action: FSEArchiveMaintenanceAction,
    has_append: bool,
    has_tombstones: bool,
) -> (step: FSETypedQueryIndexArchiveMaintenanceStep)
    ensures
        step == maintenance_step_of(action, has_append, has_tombstones),
{
    match action {
        FSEArchiveMaintenanceAction::NoMaintenance => FSETypedQueryIndexArchiveMaintenanceStep::Nothing,
        FSEArchiveMaintenanceAction::Append => {
            if has_append {
                FSETypedQueryIndexArchiveMaintenanceStep::Append
            } else {
                FSETypedQueryIndexArchiveMaintenanceStep::Nothing
            }
        },
        FSEArchiveMaintenanceAction::Compact => FSETypedQueryIndexArchiveMaintenanceStep::Compact,
        FSEArchiveMaintenanceAction::Rebuild => {
            if has_append && has_tombstones {
                FSETypedQueryIndexArchiveMaintenanceStep::AppendAndCompact
            } else if has_append {
                FSETypedQueryIndexArchiveMaintenanceStep::Append
            } else if has_tombstones {
                FSETypedQueryIndexArchiveMaintenanceStep::Compact
            } else {
                FSETypedQueryIndexArchiveMaintenanceStep::Nothing
            }
        },
    }
}

impl FSETypedQueryIndexArchiveMaintenanceStep {
    /// Returns whether the step applies appended records, after which the
    /// append archive is cleared.
    pub fn applies_append(self) -> (applies: bool)
        ensures
            applies == (self == FSETypedQueryIndexArchiveMaintenanceStep::Append || self
                == FSETypedQueryIndexArchiveMaintenanceStep::AppendAndCompact),
    {
        match self {
            FSETypedQueryIndexArchiveMaintenanceStep::Append
            | FSETypedQueryIndexArchiveMaintenanceStep::AppendAndCompact => true,
            _ => false,
        }
    }

    /// Returns whether the step compacts tombstoned records.
    pub fn applies_compaction(self) -> (applies: bool)
        ensures
            applies == (self == FSETypedQueryIndexArchiveMaintenanceStep::Compact || self
                == FSETypedQueryIndexArchiveMaintenanceStep::AppendAndCompact),
    {
        match self {
            FSETypedQueryIndexArchiveMaintenanceStep::Compact
            | FSETypedQueryIndexArchiveMaintenanceStep::AppendAndCompact => true,
            _ => false,
        }
    }
}

/// Maintenance writes no archive file exactly when the decision selects no
/// maintenance, or an append with no pending records, or a rebuild with no
/// pending records and no tombstones.
pub proof fn lemma_maintenance_step_writes(
    action: FSEArchiveMaintenanceAction,
    has_append: bool,
    has_tombstones: bool,
)
    ensures
        (maintenance_step_of(action, has_append, has_tombstones)
            == FSETypedQueryIndexArchiveMaintenanceStep::Nothing) <==> (action
            == FSEArchiveMaintenanceAction::NoMaintenance || (action == FSEArchiveMaintenanceAction::Append
            && !has_append) || (action == FSEArchiveMaintenanceAction::Rebuild && !has_append
            && !has_tombstones)),
        maintenance_step_of(action, has_append, has_tombstones)
            == FSETypedQueryIndexArchiveMaintenanceStep::Append ==> has_append,
        maintenance_step_of(action, has_append, has_tombstones)
            == FSETypedQueryIndexArchiveMaintenanceStep::AppendAndCompact ==> has_append
            && has_tombstones,
{
}

/// What each maintenance action carries out: an append action applies the
/// pending records exactly when there are some, and does nothing otherwise,
/// whatever the tombstones; a compact action always compacts; a rebuild applies
/// the pending records exactly when there are some and compacts exactly when
/// there are tombstones; no other action compacts, and no step applies records
/// that are not pending.
pub proof fn lemma_maintenance_step_follows_the_action(
    action: FSEArchiveMaintenanceAction,
    has_append: bool,
    has_tombstones: bool,
)
    ensures
        ({
            let step = maintenance_step_of(action, has_append, has_tombstones);
            let appends = step == FSETypedQueryIndexArchiveMaintenanceStep::Append || step
                == FSETypedQueryIndexArchiveMaintenanceStep::AppendAndCompact;
            let compacts = step == FSETypedQueryIndexArchiveMaintenanceStep::Compact || step
                == FSETypedQueryIndexArchiveMaintenanceStep::AppendAndCompact;
            &&& action == FSEArchiveMaintenanceAction::Append ==> (step
                == FSETypedQueryIndexArchiveMaintenanceStep::Append <==> has_append)
            &&& action == FSEArchiveMaintenanceAction::Append ==> (step
                == FSETypedQueryIndexArchiveMaintenanceStep::Nothing <==> !has_append)
            &&& action == FSEArchiveMaintenanceAction::Append ==> step == maintenance_step_of(
                action,
                has_append,
                !has_tombstones,
            )
            &&& action == FSEArchiveMaintenanceAction::Compact ==> step
                == FSETypedQueryIndexArchiveMaintenanceStep::Compact
            &&& action == FSEArchiveMaintenanceAction::NoMaintenance ==> step
                == FSETypedQueryIndexArchiveMaintenanceStep::Nothing
            &&& action == FSEArchiveMaintenanceAction::Rebuild ==> (appends <==> has_append)
            &&& action == FSEArchiveMaintenanceAction::Rebuild ==> (compacts <==> has_tombstones)
            &&& compacts ==> (action == FSEArchiveMaintenanceAction::Compact || action
                == FSEArchiveMaintenanceAction::Rebuild)
            &&& appends ==> has_append && (action == FSEArchiveMaintenanceAction::Append || action
                == FSEArchiveMaintenanceAction::Rebuild)
        }),
{
}

} // verus!
