//! What is to be done at ClickHouse for a table: creation, recovery, schema changes, cleanup.
use vstd::prelude::*;

use crate::clickhouse::config::ClickHouseEngine;
use crate::clickhouse::rows::{
    identity_error, keeps_key, key_alter_error, reject_pk_alters_under_replacing_merge_tree,
    trailing_columns, validate_replica_identity_for_clickhouse,
};
use crate::error::{error_of, ErrorKind, ErrorModel, EtlError, EtlResult};
use crate::schema::{
    is_up_to_date, up_to_date, DestinationTableMetadata, ReplicatedTableSchema, SchemaDiff,
    SnapshotId, TableId,
};
use crate::table_name::{stringified, try_stringify_table_name};
use crate::steps::{
    failed, is_plan_run, law_failed_step_ends_the_plan, lemma_recorded, recorded_after, succeeded,
    PlanRun, PlanStep, RecordStatus,
};
use crate::text::{cat3, cat4, cat7, decimal, decimal_of, str_eq};

verus! {

/// Checks that a table can take rows, and returns its name at the destination.
pub fn destination_table(
    schema: &ReplicatedTableSchema,
    engine: ClickHouseEngine,
) -> (r: EtlResult<String>)
    ensures
        match identity_error(*schema, engine) {
            Some(e) => r matches Err(f) && f@ == e,
            None => r matches Ok(name) && name@ == stringified(
                schema.name.schema@,
                schema.name.name@,
            ),
        },
{
    match validate_replica_identity_for_clickhouse(schema, engine) {
        Ok(_) => try_stringify_table_name(&schema.name),
        Err(e) => Err(e),
    }
}

/// A table is there under another engine.
pub open spec fn engine_error(
    table: Seq<char>,
    existing: Seq<char>,
    configured: Seq<char>,
) -> ErrorModel {
    error_of(
        ErrorKind::ConfigError,
        "ClickHouse table engine mismatch"@,
        "Table '"@ + table + "' was previously created with engine '"@ + existing
            + "', but the pipeline is configured for engine '"@ + configured
            + "'. Either drop the destination table and re-sync, or reconfigure the pipeline's `engine` to match the existing table."@,
    )
}

/// Refuses a table that is already there under another engine.
pub fn ensure_engine_matches(
    clickhouse_table_name: &str,
    existing: Option<&str>,
    engine: ClickHouseEngine,
) -> (r: EtlResult<()>)
    ensures
        r is Ok <==> (existing matches Some(x) ==> x@ == engine.text()),
        r matches Err(e) ==> existing is Some && e@ == engine_error(
            clickhouse_table_name@,
            existing->Some_0@,
            engine.text(),
        ),
{
    match existing {
        None => Ok(()),
        Some(existing) => {
            let configured = engine.as_clickhouse_str();
            if str_eq(existing, configured) {
                return Ok(());
            }
            Err(
                EtlError::new(
                    ErrorKind::ConfigError,
                    "ClickHouse table engine mismatch",
                    cat7(
                        "Table '",
                        clickhouse_table_name,
                        "' was previously created with engine '",
                        existing,
                        "', but the pipeline is configured for engine '",
                        configured,
                        "'. Either drop the destination table and re-sync, or reconfigure the pipeline's `engine` to match the existing table.",
                    ),
                ),
            )
        },
    }
}

/// What is recorded about a table.
#[derive(Debug)]
pub enum TableState {
    /// Nothing: the table is new.
    Unknown,
    /// An operation on the table was begun; the version before it, if it was a schema change.
    Applying { previous_snapshot_id: Option<SnapshotId> },
    /// The table has its recorded schema.
    Applied,
}

/// The state of a table by its record, if it has one, and whether that is applied.
pub open spec fn state_of(record: Option<DestinationTableMetadata>, applied: bool) -> TableState {
    match record {
        None => TableState::Unknown,
        Some(metadata) => if applied {
            TableState::Applied
        } else {
            TableState::Applying { previous_snapshot_id: metadata.previous_snapshot_id }
        },
    }
}

/// Returns the state of a table by its record, if it has one, and whether that is applied.
pub fn recorded_state(record: Option<&DestinationTableMetadata>, applied: bool) -> (r: TableState)
    ensures
        match (
            r,
            state_of(
                match record {
                    Some(m) => Some(*m),
                    None => None,
                },
                applied,
            ),
        ) {
            (TableState::Unknown, TableState::Unknown) => true,
            (TableState::Applied, TableState::Applied) => true,
            (
                TableState::Applying { previous_snapshot_id: a },
                TableState::Applying { previous_snapshot_id: b },
            ) => match (a, b) {
                (Some(a), Some(b)) => a@ == b@,
                (None, None) => true,
                _ => false,
            },
            _ => false,
        },
{
    match record {
        None => TableState::Unknown,
        Some(metadata) => if applied {
            TableState::Applied
        } else {
            let previous_snapshot_id = match &metadata.previous_snapshot_id {
                Some(id) => Some(id.clone()),
                None => None,
            };
            TableState::Applying { previous_snapshot_id }
        },
    }
}

/// A step towards a table that rows can be written to.
#[derive(Clone, Copy, Debug, PartialEq, Eq, Structural)]
pub enum EnsureAction {
    /// Record that the table is being created.
    StoreApplying,
    /// Create the table unless it is there.
    CreateTable,
    /// Create the view of current rows unless it is there.
    CreateView,
    /// Make the interrupted schema change again.
    ReplaySchemaChange,
    /// Record that the table has its schema.
    StoreApplied,
}

/// The statements that create a table.
pub open spec fn creation_steps(engine: ClickHouseEngine) -> Seq<EnsureAction> {
    match engine {
        ClickHouseEngine::MergeTree => seq![EnsureAction::CreateTable],
        ClickHouseEngine::ReplacingMergeTree => seq![
            EnsureAction::CreateTable,
            EnsureAction::CreateView,
        ],
    }
}

/// The steps towards a table that rows can be written to.
pub open spec fn ensure_steps(state: TableState, engine: ClickHouseEngine) -> Seq<EnsureAction> {
    match state {
        TableState::Unknown => seq![EnsureAction::StoreApplying] + creation_steps(engine)
            + seq![EnsureAction::StoreApplied],
        TableState::Applying { previous_snapshot_id: Some(_) } => seq![
            EnsureAction::ReplaySchemaChange,
            EnsureAction::StoreApplied,
        ],
        TableState::Applying { previous_snapshot_id: None } => creation_steps(engine)
            + seq![EnsureAction::StoreApplied],
        TableState::Applied => Seq::empty(),
    }
}

fn push_creation(actions: &mut Vec<EnsureAction>, engine: ClickHouseEngine)
    ensures
        final(actions)@ == old(actions)@ + creation_steps(engine),
{
    let ghost before = actions@;
    actions.push(EnsureAction::CreateTable);
    if engine == ClickHouseEngine::ReplacingMergeTree {
        actions.push(EnsureAction::CreateView);
    }
    proof {
        assert(actions@ =~= before + creation_steps(engine));
    }
}

/// Says how to come to a table that rows can be written to. Interrupted operations are taken up
/// again; every step can be repeated.
pub fn ensure_table_exists(state: &TableState, engine: ClickHouseEngine) -> (r: Vec<EnsureAction>)
    ensures
        r@ == ensure_steps(*state, engine),
{
    let mut actions: Vec<EnsureAction> = Vec::new();
    match state {
        TableState::Unknown => {
            actions.push(EnsureAction::StoreApplying);
            push_creation(&mut actions, engine);
            actions.push(EnsureAction::StoreApplied);
        },
        TableState::Applying { previous_snapshot_id: Some(_) } => {
            actions.push(EnsureAction::ReplaySchemaChange);
            actions.push(EnsureAction::StoreApplied);
        },
        TableState::Applying { previous_snapshot_id: None } => {
            push_creation(&mut actions, engine);
            actions.push(EnsureAction::StoreApplied);
        },
        TableState::Applied => {},
    }
    proof {
        assert(actions@ =~= ensure_steps(*state, engine));
    }
    actions
}

/// What a step towards a table records about it.
pub open spec fn ensure_records() -> spec_fn(EnsureAction) -> Option<RecordStatus> {
    |action: EnsureAction|
        match action {
            EnsureAction::StoreApplying => Some(RecordStatus::Applying),
            EnsureAction::StoreApplied => Some(RecordStatus::Applied),
            _ => None,
        }
}

/// What the state of a table has recorded.
pub open spec fn state_status(state: TableState) -> Option<RecordStatus> {
    match state {
        TableState::Unknown => None,
        TableState::Applying { previous_snapshot_id: _ } => Some(RecordStatus::Applying),
        TableState::Applied => Some(RecordStatus::Applied),
    }
}

/// Coming to a table ends with the error of the first step that fails. Where the table could not be
/// created, or an interrupted change could not be made again, it stays recorded as being worked on.
pub proof fn law_failed_creation_stays_applying(
    state: TableState,
    engine: ClickHouseEngine,
    states: Seq<(PlanRun, PlanStep)>,
    results: Seq<EtlResult<()>>,
)
    requires
        is_plan_run(ensure_steps(state, engine).len(), states, results),
    ensures
        ({
            let steps = ensure_steps(state, engine);
            let k = succeeded(results) as int;
            let record = recorded_after(ensure_records(), steps.take(k), state_status(state));
            &&& failed(results) ==> {
                &&& states.last().1 == PlanStep::Fail(results.last()->Err_0)
                &&& record == if steps[k] is StoreApplying {
                    state_status(state)
                } else {
                    Some(RecordStatus::Applying)
                }
                &&& !steps.take(k).contains(EnsureAction::StoreApplied)
            }
            &&& states.last().1 is Done ==> record == Some(RecordStatus::Applied)
        }),
{
    let steps = ensure_steps(state, engine);
    let k = succeeded(results) as int;
    let before = state_status(state);
    law_failed_step_ends_the_plan(steps.len(), states, results);
    match state {
        TableState::Unknown => {
            lemma_recorded(ensure_records(), steps, 0, steps.len() - 1, k, before);
        },
        TableState::Applying { previous_snapshot_id: _ } => {
            lemma_recorded(ensure_records(), steps, -1, steps.len() - 1, k, before);
        },
        TableState::Applied => {
            lemma_recorded(ensure_records(), steps, -1, 0, k, before);
        },
    }
}

/// However an operation was interrupted, the steps taken next end with the table recorded as
/// having its schema.
pub proof fn law_recovery_ends_applied(state: TableState, engine: ClickHouseEngine)
    requires
        !(state is Applied),
    ensures
        ensure_steps(state, engine).len() > 0,
        ensure_steps(state, engine).last() == EnsureAction::StoreApplied,
{
}

/// A schema change that was interrupted is made again from the version that the table had before
/// it; a creation that was interrupted is made again as a creation.
pub proof fn law_recovery_goes_on_from_the_record(
    metadata: DestinationTableMetadata,
    before: DestinationTableMetadata,
    schema: ReplicatedTableSchema,
    table: Seq<char>,
    engine: ClickHouseEngine,
)
    ensures
        metadata.records_change(before, schema) ==> {
            &&& state_of(Some(metadata), false) matches TableState::Applying {
                previous_snapshot_id: Some(id),
            } && id@ == before.snapshot_id@
            &&& ensure_steps(state_of(Some(metadata), false), engine) == seq![
                EnsureAction::ReplaySchemaChange,
                EnsureAction::StoreApplied,
            ]
        },
        metadata.records(table, schema) ==> ensure_steps(state_of(Some(metadata), false), engine)
            == creation_steps(engine) + seq![EnsureAction::StoreApplied],
{
}

/// Makes the error for a schema that the store does not have.
pub fn missing_schema_failure(
    table_id: TableId,
    snapshot_id: &SnapshotId,
    recovering: bool,
) -> (r: EtlError)
    ensures
        r@ == if recovering {
            error_of(
                ErrorKind::InvalidState,
                "Old schema not found for recovery"@,
                "Cannot find schema for table "@ + decimal(table_id.0 as nat)
                    + " at snapshot_id "@ + snapshot_id@,
            )
        } else {
            error_of(
                ErrorKind::InvalidState,
                "Old schema not found"@,
                "Could not find schema for table "@ + decimal(table_id.0 as nat)
                    + " at snapshot_id "@ + snapshot_id@,
            )
        },
{
    let id = decimal_of(table_id.0 as u128);
    if recovering {
        EtlError::new(
            ErrorKind::InvalidState,
            "Old schema not found for recovery",
            cat4(
                "Cannot find schema for table ",
                id.as_str(),
                " at snapshot_id ",
                snapshot_id.as_str(),
            ),
        )
    } else {
        EtlError::new(
            ErrorKind::InvalidState,
            "Old schema not found",
            cat4(
                "Could not find schema for table ",
                id.as_str(),
                " at snapshot_id ",
                snapshot_id.as_str(),
            ),
        )
    }
}

/// Nothing is recorded about a table whose schema changes.
pub open spec fn missing_metadata_error(schema: ReplicatedTableSchema) -> ErrorModel {
    error_of(
        ErrorKind::CorruptedTableSchema,
        "Missing destination table metadata"@,
        "No destination table metadata found for table "@ + decimal(schema.id.0 as nat)
            + " when processing schema change. The metadata should have been recorded during initial table synchronization."@,
    )
}

/// Checks an announced schema against what is recorded. Returns whether it differs.
pub fn relation_changes_schema(
    schema: &ReplicatedTableSchema,
    engine: ClickHouseEngine,
    metadata: Option<&DestinationTableMetadata>,
) -> (r: EtlResult<bool>)
    ensures
        match identity_error(*schema, engine) {
            Some(e) => r matches Err(f) && f@ == e,
            None => match metadata {
                None => r matches Err(f) && f@ == missing_metadata_error(*schema),
                Some(m) => r == Ok::<bool, EtlError>(!up_to_date(*m, *schema)),
            },
        },
{
    match validate_replica_identity_for_clickhouse(schema, engine) {
        Ok(_) => {},
        Err(e) => {
            return Err(e);
        },
    }
    match metadata {
        None => {
            let id = decimal_of(schema.id.0 as u128);
            Err(
                EtlError::new(
                    ErrorKind::CorruptedTableSchema,
                    "Missing destination table metadata",
                    cat3(
                        "No destination table metadata found for table ",
                        id.as_str(),
                        " when processing schema change. The metadata should have been recorded during initial table synchronization.",
                    ),
                ),
            )
        },
        Some(m) => Ok(!is_up_to_date(m, schema)),
    }
}

/// A step of a schema change; numbers are places in the diff's lists.
#[derive(Debug)]
pub enum AlterAction {
    /// Add a column behind another, or first.
    Add { column: usize, after: Option<String> },
    /// Rename a column.
    Rename(usize),
    /// Drop a column.
    Drop(usize),
    /// Drop the view of current rows.
    DropView,
    /// Create the view of current rows.
    CreateView,
}

/// What a step of a schema change does.
pub enum AlterModel {
    Add(int, Option<Seq<char>>),
    Rename(int),
    Drop(int),
    DropView,
    CreateView,
}

impl View for AlterAction {
    type V = AlterModel;

    open spec fn view(&self) -> AlterModel {
        match *self {
            AlterAction::Add { column, after } => AlterModel::Add(
                column as int,
                match after {
                    Some(a) => Some(a@),
                    None => None,
                },
            ),
            AlterAction::Rename(i) => AlterModel::Rename(i as int),
            AlterAction::Drop(i) => AlterModel::Drop(i as int),
            AlterAction::DropView => AlterModel::DropView,
            AlterAction::CreateView => AlterModel::CreateView,
        }
    }
}

/// What the steps of a schema change do.
pub open spec fn alter_models(actions: Seq<AlterAction>) -> Seq<AlterModel> {
    Seq::new(actions.len(), |i: int| actions[i]@)
}

/// Where added column `i` goes: the first behind the table's last user column, each other behind
/// the one added before it.
pub open spec fn anchor(
    diff: SchemaDiff,
    current: ReplicatedTableSchema,
    i: int,
) -> Option<Seq<char>> {
    if i > 0 {
        Some(diff.columns_to_add@[i - 1].name@)
    } else if current.columns@.len() > 0 {
        Some(current.columns@.last().name@)
    } else {
        None
    }
}

/// The steps that rebuild the view of current rows.
pub open spec fn view_steps(engine: ClickHouseEngine) -> Seq<AlterModel> {
    match engine {
        ClickHouseEngine::MergeTree => Seq::empty(),
        ClickHouseEngine::ReplacingMergeTree => seq![AlterModel::DropView, AlterModel::CreateView],
    }
}

/// The steps of a schema change: additions, renames, removals, then the view.
pub open spec fn alter_steps(
    diff: SchemaDiff,
    current: ReplicatedTableSchema,
    engine: ClickHouseEngine,
) -> Seq<AlterModel> {
    Seq::new(
        diff.columns_to_add@.len(),
        |i: int| AlterModel::Add(i, anchor(diff, current, i)),
    ) + Seq::new(diff.columns_to_rename@.len(), |i: int| AlterModel::Rename(i)) + Seq::new(
        diff.columns_to_remove@.len(),
        |i: int| AlterModel::Drop(i),
    ) + view_steps(engine)
}

/// Says how to change a table's columns. Added columns go before the trailing change columns,
/// because rows are written by position.
pub fn apply_schema_diff(
    clickhouse_table_name: &str,
    diff: &SchemaDiff,
    current_schema: &ReplicatedTableSchema,
    engine: ClickHouseEngine,
) -> (r: EtlResult<Vec<AlterAction>>)
    ensures
        r is Ok <==> (engine == ClickHouseEngine::MergeTree || diff.empty() || keeps_key(
            *diff,
            current_schema.columns@,
        )),
        r matches Ok(actions) ==> alter_models(actions@) == alter_steps(
            *diff,
            *current_schema,
            engine,
        ),
        r matches Err(e) ==> key_alter_error(
            clickhouse_table_name@,
            *diff,
            current_schema.columns@,
            e@,
        ),
{
    if !diff.is_empty() && engine == ClickHouseEngine::ReplacingMergeTree {
        match reject_pk_alters_under_replacing_merge_tree(
            clickhouse_table_name,
            diff,
            current_schema,
        ) {
            Ok(_) => {},
            Err(e) => {
                return Err(e);
            },
        }
    }
    let (a, b, c) = (
        diff.columns_to_add.len(),
        diff.columns_to_rename.len(),
        diff.columns_to_remove.len(),
    );
    let mut actions: Vec<AlterAction> = Vec::new();
    let n: usize = current_schema.columns.len();
    let mut i: usize = 0;
    while i < a
        invariant
            i <= a,
            a == diff.columns_to_add@.len(),
            n == current_schema.columns@.len(),
            alter_models(actions@) == Seq::new(
                i as nat,
                |j: int| AlterModel::Add(j, anchor(*diff, *current_schema, j)),
            ),
        decreases a - i,
    {
        let ghost had = actions@;
        let after = if i > 0 {
            Some(diff.columns_to_add[i - 1].name.clone())
        } else if n > 0 {
            Some(current_schema.columns[n - 1].name.clone())
        } else {
            None
        };
        actions.push(AlterAction::Add { column: i, after });
        i = i + 1;
        proof {
            assert(alter_models(actions@) =~= alter_models(had).push(
                AlterModel::Add(i - 1, anchor(*diff, *current_schema, i - 1)),
            ));
            assert(alter_models(actions@) =~= Seq::new(
                i as nat,
                |j: int| AlterModel::Add(j, anchor(*diff, *current_schema, j)),
            ));
        }
    }
    let ghost first = alter_models(actions@);
    let mut j: usize = 0;
    proof {
        assert(alter_models(actions@) =~= first + Seq::new(0, |k: int| AlterModel::Rename(k)));
    }
    while j < b
        invariant
            j <= b,
            alter_models(actions@) == first + Seq::new(j as nat, |k: int| AlterModel::Rename(k)),
        decreases b - j,
    {
        let ghost had = actions@;
        actions.push(AlterAction::Rename(j));
        j = j + 1;
        proof {
            assert(alter_models(actions@) =~= alter_models(had).push(AlterModel::Rename(j - 1)));
            assert(alter_models(actions@) =~= first + Seq::new(
                j as nat,
                |k: int| AlterModel::Rename(k),
            ));
        }
    }
    let ghost second = alter_models(actions@);
    let mut k: usize = 0;
    proof {
        assert(alter_models(actions@) =~= second + Seq::new(0, |m: int| AlterModel::Drop(m)));
    }
    while k < c
        invariant
            k <= c,
            alter_models(actions@) == second + Seq::new(k as nat, |m: int| AlterModel::Drop(m)),
        decreases c - k,
    {
        let ghost had = actions@;
        actions.push(AlterAction::Drop(k));
        k = k + 1;
        proof {
            assert(alter_models(actions@) =~= alter_models(had).push(AlterModel::Drop(k - 1)));
            assert(alter_models(actions@) =~= second + Seq::new(
                k as nat,
                |m: int| AlterModel::Drop(m),
            ));
        }
    }
    let ghost third = alter_models(actions@);
    if engine == ClickHouseEngine::ReplacingMergeTree {
        actions.push(AlterAction::DropView);
        actions.push(AlterAction::CreateView);
    }
    proof {
        assert(alter_models(actions@) =~= third + view_steps(engine));
    }
    Ok(actions)
}

/// A step of a schema change at the destination.
#[derive(Clone, Copy, Debug, PartialEq, Eq, Structural)]
pub enum RelationAction {
    /// Record the new schema as being applied.
    StoreApplying,
    /// Take the step at this place of the plan's alterations.
    Alter(usize),
    /// Stop with the plan's failure.
    Fail,
    /// Record the new schema as applied.
    StoreApplied,
    /// Forget the table's null markers.
    Forget,
}

/// How to change a table's schema.
#[derive(Debug)]
pub struct RelationPlan {
    /// The table at the destination.
    pub table: String,
    /// What is recorded about the table, first as being applied, then as applied.
    pub metadata: DestinationTableMetadata,
    /// The alterations, or why the table cannot follow.
    pub alterations: EtlResult<Vec<AlterAction>>,
    /// The steps, in order; each is taken only if those before it succeeded.
    pub actions: Vec<RelationAction>,
}

/// The steps of a schema change with `n` alterations; none stands for a table that cannot
/// follow.
pub open spec fn relation_steps(n: Option<nat>) -> Seq<RelationAction> {
    match n {
        None => seq![RelationAction::StoreApplying, RelationAction::Fail],
        Some(n) => seq![RelationAction::StoreApplying] + Seq::new(
            n,
            |i: int| RelationAction::Alter(i as usize),
        ) + seq![RelationAction::StoreApplied, RelationAction::Forget],
    }
}

/// What a step of a schema change records about the table.
pub open spec fn relation_records() -> spec_fn(RelationAction) -> Option<RecordStatus> {
    |action: RelationAction|
        match action {
            RelationAction::StoreApplying => Some(RecordStatus::Applying),
            RelationAction::StoreApplied => Some(RecordStatus::Applied),
            _ => None,
        }
}

/// A schema change ends with the error of the first step that fails. Where that is an alteration, or
/// where the table cannot follow, or where the end of the change cannot be recorded, the table stays
/// recorded as being changed: no record of an applied change precedes the failed step.
pub proof fn law_failed_change_stays_applying(
    n: Option<nat>,
    states: Seq<(PlanRun, PlanStep)>,
    results: Seq<EtlResult<()>>,
    before: Option<RecordStatus>,
)
    requires
        is_plan_run(relation_steps(n).len(), states, results),
    ensures
        ({
            let steps = relation_steps(n);
            let k = succeeded(results) as int;
            let record = recorded_after(relation_records(), steps.take(k), before);
            &&& failed(results) ==> {
                &&& states.last().1 == PlanStep::Fail(results.last()->Err_0)
                &&& steps[k] is StoreApplying ==> record == before
                &&& steps[k] is Alter || steps[k] is Fail || steps[k] is StoreApplied ==> record
                    == Some(RecordStatus::Applying) && !steps.take(k).contains(
                    RelationAction::StoreApplied,
                )
            }
            &&& n is Some && states.last().1 is Done ==> record == Some(RecordStatus::Applied)
        }),
{
    let steps = relation_steps(n);
    let k = succeeded(results) as int;
    law_failed_step_ends_the_plan(steps.len(), states, results);
    match n {
        Some(n) => {
            lemma_recorded(relation_records(), steps, 0, n as int + 1, k, before);
        },
        None => {
            lemma_recorded(relation_records(), steps, 0, 2, k, before);
        },
    }
}

/// Says how to change a table's schema, given what is recorded about the table, the schema that
/// it has and the difference to the announced one. The new schema is recorded as being applied
/// even if the table cannot follow.
pub fn handle_relation_event(
    schema: &ReplicatedTableSchema,
    metadata: &DestinationTableMetadata,
    current_schema: &ReplicatedTableSchema,
    diff: &SchemaDiff,
    engine: ClickHouseEngine,
) -> (r: RelationPlan)
    ensures
        r.table@ == metadata.destination_table_id@,
        r.metadata.records_change(*metadata, *schema),
        r.alterations is Ok <==> (engine == ClickHouseEngine::MergeTree || diff.empty()
            || keeps_key(*diff, current_schema.columns@)),
        r.alterations matches Ok(steps) ==> alter_models(steps@) == alter_steps(
            *diff,
            *current_schema,
            engine,
        ) && r.actions@ == relation_steps(Some(steps@.len())),
        r.alterations matches Err(e) ==> key_alter_error(
            metadata.destination_table_id@,
            *diff,
            current_schema.columns@,
            e@,
        ) && r.actions@ == relation_steps(None),
{
    let table = metadata.destination_table_id.clone();
    let recorded = metadata.with_schema_change(schema);
    let alterations = apply_schema_diff(table.as_str(), diff, current_schema, engine);
    let mut actions: Vec<RelationAction> = Vec::new();
    actions.push(RelationAction::StoreApplying);
    match &alterations {
        Ok(steps) => {
            let mut i: usize = 0;
            while i < steps.len()
                invariant
                    i <= steps@.len(),
                    actions@ == seq![RelationAction::StoreApplying] + Seq::new(
                        i as nat,
                        |j: int| RelationAction::Alter(j as usize),
                    ),
                decreases steps@.len() - i,
            {
                actions.push(RelationAction::Alter(i));
                i = i + 1;
                proof {
                    assert(actions@ =~= seq![RelationAction::StoreApplying] + Seq::new(
                        i as nat,
                        |j: int| RelationAction::Alter(j as usize),
                    ));
                }
            }
            actions.push(RelationAction::StoreApplied);
            actions.push(RelationAction::Forget);
            proof {
                assert(actions@ =~= relation_steps(Some(steps@.len())));
            }
        },
        Err(_) => {
            actions.push(RelationAction::Fail);
            proof {
                assert(actions@ =~= relation_steps(None));
            }
        },
    }
    RelationPlan { table, metadata: recorded, alterations, actions }
}

/// A step of dropping a table before it is copied again.
#[derive(Clone, Copy, Debug, PartialEq, Eq, Structural)]
pub enum DropAction {
    /// Drop the view of current rows.
    DropView,
    /// Drop the table.
    DropTable,
    /// Forget the table's null markers.
    Forget,
}

/// Says how to drop a table before it is copied again.
pub fn drop_table_for_copy(engine: ClickHouseEngine) -> (r: Vec<DropAction>)
    ensures
        r@ == match engine {
            ClickHouseEngine::MergeTree => seq![DropAction::DropTable, DropAction::Forget],
            ClickHouseEngine::ReplacingMergeTree => seq![
                DropAction::DropView,
                DropAction::DropTable,
                DropAction::Forget,
            ],
        },
{
    let mut actions: Vec<DropAction> = Vec::new();
    if engine == ClickHouseEngine::ReplacingMergeTree {
        actions.push(DropAction::DropView);
    }
    actions.push(DropAction::DropTable);
    actions.push(DropAction::Forget);
    proof {
        match engine {
            ClickHouseEngine::MergeTree => {
                assert(actions@ =~= seq![DropAction::DropTable, DropAction::Forget]);
            },
            ClickHouseEngine::ReplacingMergeTree => {
                assert(actions@ =~= seq![
                    DropAction::DropView,
                    DropAction::DropTable,
                    DropAction::Forget,
                ]);
            },
        }
    }
    actions
}

/// A table while its schema changes: the columns that it has, and those that its view of current
/// rows shows, while there is a view.
pub struct ChangingTable {
    /// Names of the table's columns.
    pub columns: Seq<Seq<char>>,
    /// Names of the view's columns.
    pub view: Option<Seq<Seq<char>>>,
}

/// The column names with one more behind the column called `after`, or in front of all.
pub open spec fn added_behind(
    columns: Seq<Seq<char>>,
    name: Seq<char>,
    after: Option<Seq<char>>,
) -> Seq<Seq<char>> {
    match after {
        Some(a) => columns.insert(columns.index_of(a) + 1, name),
        None => seq![name] + columns,
    }
}

/// What a step makes of the table. A view can be created only while there is none, and shows the
/// columns that the table has at that time.
pub open spec fn altered(table: ChangingTable, diff: SchemaDiff, step: AlterModel) -> ChangingTable {
    match step {
        AlterModel::Add(i, after) => ChangingTable {
            columns: added_behind(table.columns, diff.columns_to_add@[i].name@, after),
            view: table.view,
        },
        AlterModel::Rename(i) => ChangingTable {
            columns: table.columns.update(
                table.columns.index_of(diff.columns_to_rename@[i].old_name@),
                diff.columns_to_rename@[i].new_name@,
            ),
            view: table.view,
        },
        AlterModel::Drop(i) => ChangingTable {
            columns: table.columns.remove(
                table.columns.index_of(diff.columns_to_remove@[i].name@),
            ),
            view: table.view,
        },
        AlterModel::DropView => ChangingTable { columns: table.columns, view: None },
        AlterModel::CreateView => ChangingTable {
            columns: table.columns,
            view: match table.view {
                Some(shown) => Some(shown),
                None => Some(table.columns),
            },
        },
    }
}

/// What the steps make of the table, one after another.
pub open spec fn altered_by(
    table: ChangingTable,
    diff: SchemaDiff,
    steps: Seq<AlterModel>,
) -> ChangingTable
    decreases steps.len(),
{
    if steps.len() == 0 {
        table
    } else {
        altered(altered_by(table, diff, steps.drop_last()), diff, steps.last())
    }
}

/// Whatever view a ReplacingMergeTree table had before a schema change, after it the table has one
/// that shows the columns that the table has then: it is dropped and created behind every change of a
/// column. Under MergeTree no step touches a view.
pub proof fn law_view_shows_the_changed_columns(
    table: ChangingTable,
    diff: SchemaDiff,
    current: ReplicatedTableSchema,
)
    ensures
        ({
            let steps = alter_steps(diff, current, ClickHouseEngine::ReplacingMergeTree);
            let after = altered_by(table, diff, steps);
            let n = steps.len() as int;
            &&& after.view == Some(after.columns)
            &&& n >= 2
            &&& steps[n - 1] is CreateView
            &&& steps[n - 2] is DropView
            &&& forall|i: int|
                0 <= i < n - 2 ==> (#[trigger] steps[i] is Add || steps[i] is Rename || steps[i] is Drop)
        }),
        ({
            let steps = alter_steps(diff, current, ClickHouseEngine::MergeTree);
            &&& forall|i: int|
                0 <= i < steps.len() ==> (#[trigger] steps[i] is Add || steps[i] is Rename
                    || steps[i] is Drop)
            &&& altered_by(table, diff, steps).view == table.view
        }),
{
    let steps = alter_steps(diff, current, ClickHouseEngine::ReplacingMergeTree);
    let n = steps.len() as int;
    let dropped = altered_by(table, diff, steps.drop_last());
    assert(steps.drop_last().last() is DropView);
    assert(dropped.view is None);
    assert(steps.last() is CreateView);
    let plain = alter_steps(diff, current, ClickHouseEngine::MergeTree);
    lemma_column_steps_keep_the_view(table, diff, plain);
}

proof fn lemma_column_steps_keep_the_view(
    table: ChangingTable,
    diff: SchemaDiff,
    steps: Seq<AlterModel>,
)
    requires
        forall|i: int|
            0 <= i < steps.len() ==> !(#[trigger] steps[i] is DropView) && !(steps[i] is CreateView),
    ensures
        altered_by(table, diff, steps).view == table.view,
    decreases steps.len(),
{
    if steps.len() > 0 {
        let rest = steps.drop_last();
        assert forall|i: int| 0 <= i < rest.len() implies !(#[trigger] rest[i] is DropView) && !(
        rest[i] is CreateView) by {
            assert(rest[i] == steps[i]);
        }
        lemma_column_steps_keep_the_view(table, diff, rest);
        assert(steps.last() == steps[steps.len() - 1]);
    }
}

/// Every difference of the two versions is one step: all additions, in order, then all renames, then
/// all removals.
pub proof fn law_every_difference_is_one_step(
    diff: SchemaDiff,
    current: ReplicatedTableSchema,
    engine: ClickHouseEngine,
)
    ensures
        ({
            let steps = alter_steps(diff, current, engine);
            let a = diff.columns_to_add@.len() as int;
            let b = diff.columns_to_rename@.len() as int;
            let c = diff.columns_to_remove@.len() as int;
            &&& steps.len() == a + b + c + if engine == ClickHouseEngine::ReplacingMergeTree {
                2int
            } else {
                0int
            }
            &&& forall|i: int|
                0 <= i < a ==> (#[trigger] steps[i] matches AlterModel::Add(j, _) && j == i)
            &&& forall|i: int|
                a <= i < a + b ==> #[trigger] steps[i] == AlterModel::Rename(i - a)
            &&& forall|i: int|
                a + b <= i < a + b + c ==> #[trigger] steps[i] == AlterModel::Drop(i - a - b)
        }),
{
}

/// Added columns stand behind the user columns in the order of the diff, and before the trailing
/// columns of the engine: rows are written by position.
pub proof fn law_added_columns_stand_before_the_trailing_ones(
    table: ChangingTable,
    diff: SchemaDiff,
    current: ReplicatedTableSchema,
    engine: ClickHouseEngine,
    k: int,
)
    requires
        0 <= k <= diff.columns_to_add@.len(),
        ({
            let user = Seq::new(current.columns@.len(), |i: int| current.columns@[i].name@);
            let added = Seq::new(
                diff.columns_to_add@.len(),
                |i: int| diff.columns_to_add@[i].name@,
            );
            &&& table.columns == user + trailing_columns(engine)
            &&& (user + added + trailing_columns(engine)).no_duplicates()
        }),
    ensures
        ({
            let user = Seq::new(current.columns@.len(), |i: int| current.columns@[i].name@);
            let added = Seq::new(
                diff.columns_to_add@.len(),
                |i: int| diff.columns_to_add@[i].name@,
            );
            let steps = alter_steps(diff, current, engine).take(k);
            altered_by(table, diff, steps).columns == user + added.take(k) + trailing_columns(
                engine,
            )
        }),
    decreases k,
{
    let user = Seq::new(current.columns@.len(), |i: int| current.columns@[i].name@);
    let added = Seq::new(diff.columns_to_add@.len(), |i: int| diff.columns_to_add@[i].name@);
    let trailing = trailing_columns(engine);
    let all = user + added + trailing;
    let steps = alter_steps(diff, current, engine).take(k);
    let u = user.len() as int;
    if k == 0 {
        assert(user + added.take(0) + trailing =~= user + trailing);
    } else {
        law_added_columns_stand_before_the_trailing_ones(table, diff, current, engine, k - 1);
        assert(steps.drop_last() =~= alter_steps(diff, current, engine).take(k - 1));
        let before = altered_by(table, diff, steps.drop_last()).columns;
        let name = diff.columns_to_add@[k - 1].name@;
        assert(before =~= user + added.take(k - 1) + trailing);
        assert(steps.last() == AlterModel::Add(k - 1, anchor(diff, current, k - 1)));
        let place = u + k - 2;
        if place < 0 {
            assert(anchor(diff, current, k - 1) is None);
            assert(seq![name] + before =~= user + added.take(k) + trailing);
        } else {
            let a = before[place];
            assert(anchor(diff, current, k - 1) == Some(a)) by {
                if k - 1 > 0 {
                    assert(before[place] == added[k - 2]);
                } else {
                    assert(before[place] == user[u - 1]);
                }
            }
            assert forall|i: int| 0 <= i < before.len() && i != place implies before[i] != a by {
                let p = if i < u + k - 1 {
                    i
                } else {
                    i + (added.len() - (k - 1))
                };
                assert(before[i] == all[p]);
                assert(a == all[place]);
            }
            assert(before.contains(a));
            assert(before.index_of(a) == place);
            assert(altered_by(table, diff, steps).columns =~= before.insert(place + 1, name));
            assert(before.insert(place + 1, name) =~= user + added.take(k) + trailing);
        }
    }
}

/// A new table is recorded as being worked on before anything is created, and as applied only behind
/// everything else; under ReplacingMergeTree its view is created behind the table. A table that is
/// applied needs no step, and one whose change was interrupted gets that change again.
pub proof fn law_creation_is_recorded_around_its_steps(engine: ClickHouseEngine, id: SnapshotId)
    ensures
        ensure_steps(TableState::Unknown, ClickHouseEngine::MergeTree) == seq![
            EnsureAction::StoreApplying,
            EnsureAction::CreateTable,
            EnsureAction::StoreApplied,
        ],
        ensure_steps(TableState::Unknown, ClickHouseEngine::ReplacingMergeTree) == seq![
            EnsureAction::StoreApplying,
            EnsureAction::CreateTable,
            EnsureAction::CreateView,
            EnsureAction::StoreApplied,
        ],
        ensure_steps(
            (TableState::Applying { previous_snapshot_id: None }),
            ClickHouseEngine::MergeTree,
        ) == seq![EnsureAction::CreateTable, EnsureAction::StoreApplied],
        ensure_steps(
            (TableState::Applying { previous_snapshot_id: None }),
            ClickHouseEngine::ReplacingMergeTree,
        ) == seq![EnsureAction::CreateTable, EnsureAction::CreateView, EnsureAction::StoreApplied],
        ensure_steps((TableState::Applying { previous_snapshot_id: Some(id) }), engine) == seq![
            EnsureAction::ReplaySchemaChange,
            EnsureAction::StoreApplied,
        ],
        ensure_steps(TableState::Applied, engine).len() == 0,
{
}

/// A table without a record is unknown; one with a record is applied, or being worked on from the
/// version that the record keeps.
pub proof fn law_state_is_what_is_recorded(metadata: DestinationTableMetadata)
    ensures
        forall|applied: bool| #[trigger] state_of(None, applied) == TableState::Unknown,
        state_of(Some(metadata), true) == TableState::Applied,
        state_of(Some(metadata), false) == (TableState::Applying {
            previous_snapshot_id: metadata.previous_snapshot_id,
        }),
        state_status(TableState::Unknown) is None,
        state_status(TableState::Applied) == Some(RecordStatus::Applied),
        forall|id: Option<SnapshotId>|
            #[trigger] state_status((TableState::Applying { previous_snapshot_id: id })) == Some(
                RecordStatus::Applying,
            ),
{
}

/// A schema change is recorded as begun before the first alteration, makes every alteration once and
/// in order, and is recorded as done only behind the last; what was cached of the table is forgotten.
/// A change that the table cannot follow is recorded as begun and fails.
pub proof fn law_change_is_recorded_around_its_alterations(n: usize)
    ensures
        ({
            let steps = relation_steps(Some(n as nat));
            &&& steps.len() == n + 3
            &&& steps[0] == RelationAction::StoreApplying
            &&& forall|i: int|
                1 <= i <= n ==> #[trigger] steps[i] == RelationAction::Alter((i - 1) as usize)
            &&& steps[n + 1] == RelationAction::StoreApplied
            &&& steps[n + 2] == RelationAction::Forget
        }),
        relation_steps(None) == seq![RelationAction::StoreApplying, RelationAction::Fail],
        (relation_records())(RelationAction::StoreApplying) == Some(RecordStatus::Applying),
        (relation_records())(RelationAction::StoreApplied) == Some(RecordStatus::Applied),
        (relation_records())(RelationAction::Forget) is None,
        (ensure_records())(EnsureAction::StoreApplying) == Some(RecordStatus::Applying),
        (ensure_records())(EnsureAction::StoreApplied) == Some(RecordStatus::Applied),
        (ensure_records())(EnsureAction::CreateTable) is None,
{
}

/// The steps that are returned do what the steps of the change are, in order.
pub proof fn law_steps_are_viewed_in_order(actions: Seq<AlterAction>)
    ensures
        alter_models(actions).len() == actions.len(),
        forall|i: int|
            0 <= i < actions.len() ==> {
                &&& #[trigger] actions[i] is DropView <==> alter_models(actions)[i] is DropView
                &&& actions[i] is CreateView <==> alter_models(actions)[i] is CreateView
                &&& actions[i] is Add <==> alter_models(actions)[i] is Add
                &&& actions[i] is Rename <==> alter_models(actions)[i] is Rename
                &&& actions[i] is Drop <==> alter_models(actions)[i] is Drop
            },
{
}

/// Whatever steps are returned for a change under ReplacingMergeTree, the last creates the view and the
/// one before it drops the view; no other step touches it.
pub proof fn law_returned_steps_end_with_the_view(
    table: &str,
    diff: &SchemaDiff,
    current: &ReplicatedTableSchema,
    r: EtlResult<Vec<AlterAction>>,
)
    requires
        call_ensures(
            apply_schema_diff,
            (table, diff, current, ClickHouseEngine::ReplacingMergeTree),
            r,
        ),
    ensures
        r matches Ok(actions) ==> (actions@.len() > 0 ==> {
            let n = actions@.len() as int;
            &&& n >= 2
            &&& actions@[n - 1] is CreateView
            &&& actions@[n - 2] is DropView
            &&& forall|i: int|
                0 <= i < n - 2 ==> (#[trigger] actions@[i] is Add || actions@[i] is Rename
                    || actions@[i] is Drop)
        }),
{
    match r {
        Ok(actions) => {
            let steps = alter_steps(*diff, *current, ClickHouseEngine::ReplacingMergeTree);
            law_view_shows_the_changed_columns(
                ChangingTable { columns: Seq::empty(), view: None },
                *diff,
                *current,
            );
            law_steps_are_viewed_in_order(actions@);
            if actions@.len() > 0 {
                let n = actions@.len() as int;
                assert(alter_models(actions@).len() == n);
                assert(alter_models(actions@)[n - 1] == actions@[n - 1]@);
                assert(alter_models(actions@)[n - 2] == actions@[n - 2]@);
                assert forall|i: int| 0 <= i < n - 2 implies (#[trigger] actions@[i] is Add
                    || actions@[i] is Rename || actions@[i] is Drop) by {
                    assert(alter_models(actions@)[i] == actions@[i]@);
                    assert(steps[i] is Add || steps[i] is Rename || steps[i] is Drop);
                }
            }
        },
        Err(_) => {},
    }
}

/// A table that is there under another engine is refused; one that is not there is not.
pub proof fn law_other_engines_are_refused(
    table: &str,
    existing: Option<&str>,
    engine: ClickHouseEngine,
    r: EtlResult<()>,
)
    requires
        call_ensures(ensure_engine_matches, (table, existing, engine), r),
    ensures
        existing is None ==> r is Ok,
        existing matches Some(name) ==> (r is Ok <==> name@ == engine.text()),
        r matches Err(e) ==> e@.kind == ErrorKind::ConfigError,
{
}

/// An announced schema is refused without a usable identity or without a record; otherwise it is a
/// change if and only if the record has another version or other columns.
pub proof fn law_announced_schemas_are_checked(
    schema: &ReplicatedTableSchema,
    engine: ClickHouseEngine,
    metadata: Option<&DestinationTableMetadata>,
    r: EtlResult<bool>,
)
    requires
        call_ensures(relation_changes_schema, (schema, engine, metadata), r),
    ensures
        identity_error(*schema, engine) is Some ==> r is Err,
        metadata is None ==> r is Err,
        identity_error(*schema, engine) is None ==> (metadata matches Some(m) ==> (r matches Ok(
            changes,
        ) && (changes <==> !(m.snapshot_id@ == schema.snapshot_id@ && m.replication_mask@
            == schema.replication_mask@)))),
{
}

/// A table without a record is a broken schema, and the error names the table.
pub proof fn law_missing_records_are_errors(schema: ReplicatedTableSchema)
    ensures
        missing_metadata_error(schema).kind == ErrorKind::CorruptedTableSchema,
        missing_metadata_error(schema).description == "Missing destination table metadata"@,
        missing_metadata_error(schema).detail matches Some(detail) && detail.take(
            ("No destination table metadata found for table "@ + decimal(schema.id.0 as nat)).len()
                as int,
        ) == "No destination table metadata found for table "@ + decimal(schema.id.0 as nat),
        missing_metadata_error(schema).source is None,
{
    let head = "No destination table metadata found for table "@ + decimal(schema.id.0 as nat);
    assert(missing_metadata_error(schema).detail->Some_0.take(head.len() as int) =~= head);
}

/// Before a copy, a view is dropped before its table, and the table is forgotten last; only
/// ReplacingMergeTree has a view.
pub proof fn law_tables_are_dropped_behind_their_view(
    plain: Vec<DropAction>,
    replacing: Vec<DropAction>,
)
    requires
        call_ensures(drop_table_for_copy, (ClickHouseEngine::MergeTree,), plain),
        call_ensures(drop_table_for_copy, (ClickHouseEngine::ReplacingMergeTree,), replacing),
    ensures
        plain@.len() == 2,
        plain@[0] is DropTable,
        plain@[1] is Forget,
        replacing@.len() == 3,
        replacing@[0] is DropView,
        replacing@[1] is DropTable,
        replacing@[2] is Forget,
{
}

/// A table without a usable identity has no name; every other has its own.
pub proof fn law_usable_tables_have_names(
    schema: &ReplicatedTableSchema,
    engine: ClickHouseEngine,
    r: EtlResult<String>,
)
    requires
        call_ensures(destination_table, (schema, engine), r),
    ensures
        r is Ok <==> identity_error(*schema, engine) is None,
        r matches Ok(name) ==> name@ == stringified(schema.name.schema@, schema.name.name@),
{
}

/// A missing version is an invalid state, and the error names the table and the version.
pub proof fn law_missing_versions_are_named(
    table: TableId,
    snapshot: &SnapshotId,
    recovery: EtlError,
    change: EtlError,
)
    requires
        call_ensures(missing_schema_failure, (table, snapshot, true), recovery),
        call_ensures(missing_schema_failure, (table, snapshot, false), change),
    ensures
        recovery@.kind == ErrorKind::InvalidState,
        change@.kind == ErrorKind::InvalidState,
        recovery@.description == "Old schema not found for recovery"@,
        change@.description == "Old schema not found"@,
        recovery@.detail == Some(
            "Cannot find schema for table "@ + decimal(table.0 as nat) + " at snapshot_id "@
                + snapshot@,
        ),
        change@.detail == Some(
            "Could not find schema for table "@ + decimal(table.0 as nat) + " at snapshot_id "@
                + snapshot@,
        ),
{
}

/// A changed table keeps its name and is recorded under the new version with the old one kept; the
/// change is made only where it keeps the key, or the engine has none.
pub proof fn law_changed_tables_are_recorded(
    schema: &ReplicatedTableSchema,
    metadata: &DestinationTableMetadata,
    current: &ReplicatedTableSchema,
    diff: &SchemaDiff,
    engine: ClickHouseEngine,
    r: RelationPlan,
)
    requires
        call_ensures(handle_relation_event, (schema, metadata, current, diff, engine), r),
    ensures
        r.table@ == metadata.destination_table_id@,
        r.metadata.destination_table_id@ == metadata.destination_table_id@,
        r.metadata.snapshot_id@ == schema.snapshot_id@,
        r.metadata.replication_mask@ == schema.replication_mask@,
        r.metadata.previous_snapshot_id matches Some(id) && id@ == metadata.snapshot_id@,
        engine == ClickHouseEngine::MergeTree ==> r.alterations is Ok,
        engine == ClickHouseEngine::ReplacingMergeTree && !diff.empty() ==> (r.alterations is Ok
            <==> keeps_key(*diff, current.columns@)),
        r.alterations matches Ok(steps) ==> r.actions@ == relation_steps(Some(steps@.len())),
        r.alterations is Err ==> r.actions@ == relation_steps(None),
{
}

} // verus!
