//! What is to be done at BigQuery for a table: preparation, schema changes, truncates, cleanup.
use vstd::prelude::*;

use crate::bigquery::rows::{
    identity_error, numbered, validate_bigquery_replica_identity, BigQueryOperationType,
    BigQueryTableRow,
};
use crate::bigquery::table_id::{
    law_sequenced_id_round_trip, parsed, sequenced_text, table_name_to_bigquery_table_id, BigQueryTableId, Inner,
    SequencedBigQueryTableId,
};
use crate::cell::{models, CellModel, TableRow};
use crate::error::{error_of, ErrorKind, ErrorModel, EtlError, EtlResult};
use crate::schema::{
    change_models, diff_steps, is_up_to_date, schema_changes, up_to_date, ColumnChange,
    DestinationTableMetadata, ReplicatedTableSchema, SchemaDiff,
};
use crate::table_name::stringified;
use crate::steps::{
    failed, is_plan_run, law_failed_step_ends_the_plan, lemma_recorded, recorded_after, succeeded,
    PlanRun, PlanStep, RecordStatus,
};
use crate::text::{cat3, cat4, cat7, decimal, decimal_of};

verus! {

/// Identifier of a pipeline.
pub type PipelineId = u64;

/// Text of a trace identifier.
pub open spec fn trace_text(
    pipeline_id: nat,
    table_id: Seq<char>,
    batch_index: nat,
    nonce: nat,
) -> Seq<char> {
    "supabase_etl_"@ + decimal(pipeline_id) + "_"@ + table_id + "_"@ + decimal(batch_index) + ("_"@
        + decimal(nonce))
}

/// `rand::random::<u32>`: any 32-bit number may come back.
#[verifier::external_body]
fn random_u32() -> (r: u32) {
    rand::random::<u32>()
}

/// Writes the trace identifier of a batch from its random part.
pub fn append_trace_id(
    pipeline_id: PipelineId,
    table_id: &str,
    batch_index: usize,
    nonce: u32,
) -> (r: String)
    ensures
        r@ == trace_text(pipeline_id as nat, table_id@, batch_index as nat, nonce as nat),
{
    let pipeline = decimal_of(pipeline_id as u128);
    let batch = decimal_of(batch_index as u128);
    let random = decimal_of(nonce as u128);
    let tail = crate::text::cat2("_", random.as_str());
    cat7(
        "supabase_etl_",
        pipeline.as_str(),
        "_",
        table_id,
        "_",
        batch.as_str(),
        tail.as_str(),
    )
}

/// Creates a trace identifier for a batch.
pub fn create_append_trace_id(
    pipeline_id: PipelineId,
    table_id: &str,
    batch_index: usize,
) -> (r: String)
    ensures
        exists|nonce: u32|
            r@ == #[trigger] trace_text(
                pipeline_id as nat,
                table_id@,
                batch_index as nat,
                nonce as nat,
            ),
{
    let nonce = random_u32();
    append_trace_id(pipeline_id, table_id, batch_index, nonce)
}

/// What rows of a table copy look like: the values, then the operation.
pub open spec fn copied_row(values: Seq<CellModel>) -> Seq<(int, CellModel)> {
    numbered(values.push(CellModel::Text(BigQueryOperationType::Upsert.text())))
}

/// Turns copied rows into upserts without an ordering key.
pub fn copy_rows(table_rows: Vec<TableRow>) -> (r: Vec<BigQueryTableRow>)
    ensures
        r@.len() == table_rows@.len(),
        forall|i: int| 0 <= i < r@.len() ==> (#[trigger] r@[i])@ == copied_row(table_rows@[i]@),
{
    let ghost all = table_rows@;
    let mut out: Vec<BigQueryTableRow> = Vec::new();
    for row in it: table_rows
        invariant
            it.seq() == all,
            out@.len() == it.index(),
            forall|i: int| 0 <= i < out@.len() ==> (#[trigger] out@[i])@ == copied_row(all[i]@),
    {
        proof {
            assert(row == all[it.index()]);
        }
        let mut values = row.values;
        let ghost before = models(values@);
        values.push(BigQueryOperationType::Upsert.into_cell());
        proof {
            assert(models(values@) =~= before.push(
                CellModel::Text(BigQueryOperationType::Upsert.text()),
            ));
        }
        out.push(BigQueryTableRow::from_row(TableRow { values }));
    }
    out
}

/// A step towards a table that rows can be written to.
#[derive(Clone, Copy, Debug, PartialEq, Eq, Structural)]
pub enum PrepareAction {
    /// Record that the table is being created.
    StoreApplying,
    /// Create the table unless it is there.
    CreateTableIfMissing,
    /// Record that the table is there.
    StoreApplied,
    /// Remember the table as created.
    CacheTable,
    /// Point the view at the table.
    ReplaceView,
    /// Remember what the view shows.
    CacheView,
}

/// How to prepare a table for rows.
#[derive(Debug)]
pub struct Preparation {
    /// The view that shows the table.
    pub view_name: BigQueryTableId,
    /// The version that takes the rows.
    pub table: SequencedBigQueryTableId,
    /// What is recorded about the table, first as being created, then as there.
    pub metadata: DestinationTableMetadata,
    /// The steps, in order; each is taken only if those before it succeeded.
    pub actions: Vec<PrepareAction>,
}

/// The view and the version for a table, from what is recorded about it.
pub open spec fn prepared(
    schema: ReplicatedTableSchema,
    recorded: Option<Seq<char>>,
) -> Result<(Seq<char>, (Seq<char>, int)), ErrorModel> {
    let view = stringified(schema.name.schema@, schema.name.name@);
    match identity_error(schema) {
        Some(e) => Err(e),
        None => match recorded {
            None => Ok((view, (view, 0))),
            Some(id) => match parsed(id) {
                Err(e) => Err(e),
                Ok(table) => Ok((view, table)),
            },
        },
    }
}

/// The steps towards a table that rows can be written to.
pub open spec fn prepare_steps(
    inner: &Inner,
    view: Seq<char>,
    table: (Seq<char>, int),
) -> Seq<PrepareAction> {
    (if inner.has_table(table) {
        Seq::empty()
    } else {
        seq![
            PrepareAction::StoreApplying,
            PrepareAction::CreateTableIfMissing,
            PrepareAction::StoreApplied,
            PrepareAction::CacheTable,
        ]
    }) + (if inner.has_view(view, table) {
        Seq::empty()
    } else {
        seq![PrepareAction::ReplaceView, PrepareAction::CacheView]
    })
}

/// Says how to prepare a table, given the identifier that is recorded for it.
pub fn prepare_table_for_streaming(
    schema: &ReplicatedTableSchema,
    recorded: Option<&String>,
    inner: &Inner,
) -> (r: EtlResult<Preparation>)
    ensures
        ({
            let want = prepared(
                *schema,
                match recorded {
                    Some(id) => Some(id@),
                    None => None,
                },
            );
            match (r, want) {
                (Ok(p), Ok(w)) => p.view_name@ == w.0 && p.table@ == w.1 && p.metadata.records(
                    sequenced_text(w.1),
                    *schema,
                ) && p.actions@ == prepare_steps(inner, w.0, w.1),
                (Err(e), Err(f)) => e@ == f,
                _ => false,
            }
        }),
{
    match validate_bigquery_replica_identity(schema) {
        Ok(_) => {},
        Err(e) => {
            return Err(e);
        },
    }
    let view_name = match table_name_to_bigquery_table_id(&schema.name) {
        Ok(name) => name,
        Err(e) => {
            return Err(e);
        },
    };
    let table = match recorded {
        Some(id) => match SequencedBigQueryTableId::parse(id.as_str()) {
            Ok(table) => table,
            Err(e) => {
                return Err(e);
            },
        },
        None => SequencedBigQueryTableId::new(view_name.clone()),
    };
    let mut actions: Vec<PrepareAction> = Vec::new();
    if !inner.contains_table(&table) {
        actions.push(PrepareAction::StoreApplying);
        actions.push(PrepareAction::CreateTableIfMissing);
        actions.push(PrepareAction::StoreApplied);
        actions.push(PrepareAction::CacheTable);
    }
    if !inner.view_shows(&view_name, &table) {
        actions.push(PrepareAction::ReplaceView);
        actions.push(PrepareAction::CacheView);
    }
    proof {
        assert(actions@ =~= prepare_steps(inner, view_name@, table@));
    }
    let metadata = DestinationTableMetadata::of(table.to_text(), schema);
    Ok(Preparation { view_name, table, metadata, actions })
}

/// What a step towards a table records about it.
pub open spec fn prepare_records() -> spec_fn(PrepareAction) -> Option<RecordStatus> {
    |action: PrepareAction|
        match action {
            PrepareAction::StoreApplying => Some(RecordStatus::Applying),
            PrepareAction::StoreApplied => Some(RecordStatus::Applied),
            _ => None,
        }
}

/// A preparation ends with the error of the first step that fails. Where the table could not be
/// created it stays recorded as being created.
pub proof fn law_failed_creation_stays_applying(
    inner: &Inner,
    view: Seq<char>,
    table: (Seq<char>, int),
    states: Seq<(PlanRun, PlanStep)>,
    results: Seq<EtlResult<()>>,
    before: Option<RecordStatus>,
)
    requires
        is_plan_run(prepare_steps(inner, view, table).len(), states, results),
    ensures
        ({
            let steps = prepare_steps(inner, view, table);
            let k = succeeded(results) as int;
            let record = recorded_after(prepare_records(), steps.take(k), before);
            &&& failed(results) ==> {
                &&& states.last().1 == PlanStep::Fail(results.last()->Err_0)
                &&& steps[k] is StoreApplying ==> record == before
                &&& steps[k] is CreateTableIfMissing || steps[k] is StoreApplied ==> record == Some(
                    RecordStatus::Applying,
                ) && !steps.take(k).contains(PrepareAction::StoreApplied)
            }
            &&& states.last().1 is Done ==> record == if inner.has_table(table) {
                before
            } else {
                Some(RecordStatus::Applied)
            }
        }),
{
    let steps = prepare_steps(inner, view, table);
    let k = succeeded(results) as int;
    law_failed_step_ends_the_plan(steps.len(), states, results);
    if inner.has_table(table) {
        lemma_recorded(prepare_records(), steps, -1, steps.len() as int, k, before);
    } else {
        lemma_recorded(prepare_records(), steps, 0, 2, k, before);
    }
}

/// Nothing is recorded about a table whose schema changes.
pub open spec fn missing_metadata_error(schema: ReplicatedTableSchema) -> ErrorModel {
    error_of(
        ErrorKind::CorruptedTableSchema,
        "Missing destination table metadata"@,
        "No destination table metadata found for table "@ + decimal(schema.id.0 as nat)
            + " when processing schema change. This indicates a broken invariant, the metadata should have been recorded during initial table synchronization."@,
    )
}

/// Checks an announced schema against what is recorded. Returns whether it differs.
pub fn relation_changes_schema(
    schema: &ReplicatedTableSchema,
    metadata: Option<&DestinationTableMetadata>,
) -> (r: EtlResult<bool>)
    ensures
        match identity_error(*schema) {
            Some(e) => r matches Err(f) && f@ == e,
            None => match metadata {
                None => r matches Err(f) && f@ == missing_metadata_error(*schema),
                Some(m) => r == Ok::<bool, EtlError>(!up_to_date(*m, *schema)),
            },
        },
{
    match validate_bigquery_replica_identity(schema) {
        Ok(_) => {},
        Err(e) => {
            return Err(e);
        },
    }
    match metadata {
        None => {
            let id = decimal_of(schema.id.0 as u128);
            Err(
                EtlError::new(
                    ErrorKind::CorruptedTableSchema,
                    "Missing destination table metadata",
                    cat3(
                        "No destination table metadata found for table ",
                        id.as_str(),
                        " when processing schema change. This indicates a broken invariant, the metadata should have been recorded during initial table synchronization.",
                    ),
                ),
            )
        },
        Some(m) => Ok(!is_up_to_date(m, schema)),
    }
}

/// A step of a schema change.
#[derive(Clone, Copy, Debug, PartialEq, Eq, Structural)]
pub enum RelationAction {
    /// Record the new schema as being applied.
    StoreApplying,
    /// Make the column change at this place of the plan.
    Change(usize),
    /// Record the new schema as applied.
    StoreApplied,
    /// Drop connections that still write with the old schema.
    InvalidateConnections,
}

/// How to change a table's schema.
#[derive(Debug)]
pub struct RelationPlan {
    /// The version to change.
    pub table: SequencedBigQueryTableId,
    /// What is recorded about the table, first as being applied, then as applied.
    pub metadata: DestinationTableMetadata,
    /// The column changes.
    pub changes: Vec<ColumnChange>,
    /// The steps, in order; each is taken only if those before it succeeded.
    pub actions: Vec<RelationAction>,
}

/// The steps of a schema change with `n` column changes.
pub open spec fn relation_steps(n: nat) -> Seq<RelationAction> {
    seq![RelationAction::StoreApplying] + Seq::new(n, |i: int| RelationAction::Change(i as usize))
        + seq![RelationAction::StoreApplied, RelationAction::InvalidateConnections]
}

/// What a step of a schema change records about the table.
pub open spec fn relation_records() -> spec_fn(RelationAction) -> Option<RecordStatus> {
    |action: RelationAction|
        match action {
            RelationAction::StoreApplying => Some(RecordStatus::Applying),
            RelationAction::StoreApplied => Some(RecordStatus::Applied),
            _ => None,
        }
}

/// A schema change ends with the error of the first step that fails. Where that is a column change,
/// or where the end of the change cannot be recorded, the table stays recorded as being changed: no
/// record of an applied change precedes the failed step.
pub proof fn law_failed_change_stays_applying(
    n: nat,
    states: Seq<(PlanRun, PlanStep)>,
    results: Seq<EtlResult<()>>,
    before: Option<RecordStatus>,
)
    requires
        is_plan_run(relation_steps(n).len(), states, results),
    ensures
        ({
            let steps = relation_steps(n);
            let k = succeeded(results) as int;
            let record = recorded_after(relation_records(), steps.take(k), before);
            &&& failed(results) ==> {
                &&& states.last().1 == PlanStep::Fail(results.last()->Err_0)
                &&& steps[k] is StoreApplying ==> record == before
                &&& steps[k] is Change || steps[k] is StoreApplied ==> record == Some(
                    RecordStatus::Applying,
                ) && !steps.take(k).contains(RelationAction::StoreApplied)
            }
            &&& states.last().1 is Done ==> record == Some(RecordStatus::Applied)
        }),
{
    let steps = relation_steps(n);
    let k = succeeded(results) as int;
    law_failed_step_ends_the_plan(steps.len(), states, results);
    lemma_recorded(relation_records(), steps, 0, n as int + 1, k, before);
}

/// The schema that a table has is not in the schema store.
pub open spec fn missing_schema_error(
    schema: ReplicatedTableSchema,
    metadata: DestinationTableMetadata,
) -> ErrorModel {
    error_of(
        ErrorKind::InvalidState,
        "Old schema not found"@,
        "Could not find schema for table "@ + decimal(schema.id.0 as nat) + " at snapshot_id "@
            + metadata.snapshot_id@,
    )
}

/// Says how to change a table's schema, given the difference to the schema that it has; `None`
/// stands for a schema that the store does not have.
pub fn handle_relation_event(
    schema: &ReplicatedTableSchema,
    metadata: &DestinationTableMetadata,
    diff: Option<&SchemaDiff>,
) -> (r: EtlResult<RelationPlan>)
    ensures
        match diff {
            None => r matches Err(e) && e@ == missing_schema_error(*schema, *metadata),
            Some(d) => match (r, parsed(metadata.destination_table_id@)) {
                (Ok(plan), Ok(table)) => plan.table@ == table && plan.metadata.records_change(
                    *metadata,
                    *schema,
                ) && change_models(plan.changes@) == diff_steps(*d) && plan.actions@
                    == relation_steps(plan.changes@.len()),
                (Err(e), Err(f)) => e@ == f,
                _ => false,
            },
        },
{
    let diff = match diff {
        Some(diff) => diff,
        None => {
            let id = decimal_of(schema.id.0 as u128);
            return Err(
                EtlError::new(
                    ErrorKind::InvalidState,
                    "Old schema not found",
                    cat4(
                        "Could not find schema for table ",
                        id.as_str(),
                        " at snapshot_id ",
                        metadata.snapshot_id.as_str(),
                    ),
                ),
            );
        },
    };
    let table = match SequencedBigQueryTableId::parse(metadata.destination_table_id.as_str()) {
        Ok(table) => table,
        Err(e) => {
            return Err(e);
        },
    };
    let changes = schema_changes(diff);
    let mut actions: Vec<RelationAction> = Vec::new();
    actions.push(RelationAction::StoreApplying);
    let mut i: usize = 0;
    while i < changes.len()
        invariant
            i <= changes@.len(),
            actions@ == seq![RelationAction::StoreApplying] + Seq::new(
                i as nat,
                |j: int| RelationAction::Change(j as usize),
            ),
        decreases changes@.len() - i,
    {
        actions.push(RelationAction::Change(i));
        i = i + 1;
        proof {
            assert(actions@ =~= seq![RelationAction::StoreApplying] + Seq::new(
                i as nat,
                |j: int| RelationAction::Change(j as usize),
            ));
        }
    }
    actions.push(RelationAction::StoreApplied);
    actions.push(RelationAction::InvalidateConnections);
    proof {
        assert(actions@ =~= relation_steps(changes@.len()));
    }
    let metadata = metadata.with_schema_change(schema);
    Ok(RelationPlan { table, metadata, changes, actions })
}

/// A step of a truncate.
#[derive(Clone, Copy, Debug, PartialEq, Eq, Structural)]
pub enum TruncateAction {
    /// Create the new version, or empty it.
    CreateOrReplaceNext,
    /// Remember the new version as created.
    CacheNext,
    /// Point the view at the new version.
    ReplaceView,
    /// Remember what the view shows.
    CacheView,
    /// Record the new version as the table.
    StoreApplied,
    /// Forget the old version.
    ForgetOld,
    /// Drop the old version in the background.
    DropOld,
}

/// How to truncate a table: a new, empty version takes the place of the old one.
#[derive(Debug)]
pub struct TruncatePlan {
    /// The version that holds the rows.
    pub current: SequencedBigQueryTableId,
    /// The version that takes its place.
    pub next: SequencedBigQueryTableId,
    /// The view that shows the table.
    pub view_name: BigQueryTableId,
    /// What is recorded about the table once the new version is there.
    pub metadata: DestinationTableMetadata,
    /// The steps, in order; each is taken only if those before it succeeded.
    pub actions: Vec<TruncateAction>,
}

/// The steps of a truncate.
pub open spec fn truncate_steps(inner: &Inner, next: (Seq<char>, int)) -> Seq<TruncateAction> {
    seq![TruncateAction::CreateOrReplaceNext, TruncateAction::CacheNext] + (if inner.has_view(
        next.0,
        next,
    ) {
        Seq::empty()
    } else {
        seq![TruncateAction::ReplaceView, TruncateAction::CacheView]
    }) + seq![
        TruncateAction::StoreApplied,
        TruncateAction::ForgetOld,
        TruncateAction::DropOld,
    ]
}

/// A truncate ends with the error of the first step that fails. Unless its new version was recorded
/// as the table, the old one still is, and it is not dropped.
pub proof fn law_failed_truncate_keeps_the_table(
    inner: &Inner,
    next: (Seq<char>, int),
    states: Seq<(PlanRun, PlanStep)>,
    results: Seq<EtlResult<()>>,
)
    requires
        is_plan_run(truncate_steps(inner, next).len(), states, results),
    ensures
        ({
            let steps = truncate_steps(inner, next);
            let taken = steps.take(succeeded(results) as int);
            &&& failed(results) ==> states.last().1 == PlanStep::Fail(results.last()->Err_0)
            &&& taken.contains(TruncateAction::ForgetOld) || taken.contains(TruncateAction::DropOld)
                ==> taken.contains(TruncateAction::StoreApplied)
        }),
{
    let steps = truncate_steps(inner, next);
    let k = succeeded(results) as int;
    let taken = steps.take(k);
    law_failed_step_ends_the_plan(steps.len(), states, results);
    let at = steps.len() - 3;
    assert(steps[at] == TruncateAction::StoreApplied);
    if k > at {
        assert(taken[at] == TruncateAction::StoreApplied);
    }
}

/// Says how to truncate a table, given the identifier that is recorded for it; a table without
/// one was never created and is passed over.
pub fn process_truncate(
    schema: &ReplicatedTableSchema,
    recorded: Option<&String>,
    inner: &Inner,
) -> (r: EtlResult<Option<TruncatePlan>>)
    requires
        recorded matches Some(id) ==> (parsed(id@) matches Ok(t) ==> t.1 < u64::MAX),
    ensures
        match recorded {
            None => r matches Ok(None),
            Some(id) => match (r, parsed(id@)) {
                (Ok(Some(plan)), Ok(t)) => plan.current@ == t && plan.next@ == (t.0, t.1 + 1)
                    && plan.view_name@ == t.0 && plan.metadata.records(
                    sequenced_text((t.0, t.1 + 1)),
                    *schema,
                ) && plan.actions@ == truncate_steps(inner, (t.0, t.1 + 1)),
                (Err(e), Err(f)) => e@ == f,
                _ => false,
            },
        },
{
    let id = match recorded {
        Some(id) => id,
        None => {
            return Ok(None);
        },
    };
    let current = match SequencedBigQueryTableId::parse(id.as_str()) {
        Ok(current) => current,
        Err(e) => {
            return Err(e);
        },
    };
    let next = current.next();
    let view_name = current.to_bigquery_table_id();
    let mut actions: Vec<TruncateAction> = Vec::new();
    actions.push(TruncateAction::CreateOrReplaceNext);
    actions.push(TruncateAction::CacheNext);
    if !inner.view_shows(&view_name, &next) {
        actions.push(TruncateAction::ReplaceView);
        actions.push(TruncateAction::CacheView);
    }
    actions.push(TruncateAction::StoreApplied);
    actions.push(TruncateAction::ForgetOld);
    actions.push(TruncateAction::DropOld);
    proof {
        assert(actions@ =~= truncate_steps(inner, next@));
    }
    let metadata = DestinationTableMetadata::of(next.to_text(), schema);
    Ok(Some(TruncatePlan { current, next, view_name, metadata, actions }))
}

/// A truncate never reuses the version that holds the rows, and keeps the table's name.
pub proof fn law_truncate_starts_a_new_version(base: Seq<char>, n: u64)
    requires
        base.len() > 0,
        n < u64::MAX,
    ensures
        sequenced_text((base, n as int)) != sequenced_text((base, n + 1)),
        parsed(sequenced_text((base, n + 1))) == Ok::<(Seq<char>, int), ErrorModel>(
            (base, n + 1),
        ),
{
    crate::bigquery::table_id::law_sequenced_id_round_trip(base, n);
    crate::bigquery::table_id::law_sequenced_id_round_trip(base, (n + 1) as u64);
}

/// Whether a version is among `tables`.
pub open spec fn listed(tables: Seq<SequencedBigQueryTableId>, t: (Seq<char>, int)) -> bool {
    exists|i: int| 0 <= i < tables.len() && (#[trigger] tables[i])@ == t
}

/// Whether one of `names` is version `t` of `base`.
pub open spec fn names_version(
    names: Seq<String>,
    base: Seq<char>,
    t: (Seq<char>, int),
) -> bool {
    t.0 == base && exists|i: int|
        0 <= i < names.len() && parsed((#[trigger] names[i])@) == Ok::<
            (Seq<char>, int),
            ErrorModel,
        >(t)
}

/// Returns the versions of a table that are to be dropped before it is copied again: every
/// listed name that is a version of the table, each once.
pub fn versions_to_drop(
    names: &Vec<String>,
    base_table_id: &BigQueryTableId,
) -> (r: Vec<SequencedBigQueryTableId>)
    ensures
        forall|i: int, j: int|
            0 <= i < j < r@.len() ==> (#[trigger] r@[i])@ != (#[trigger] r@[j])@,
        forall|t: (Seq<char>, int)|
            #[trigger] listed(r@, t) <==> names_version(names@, base_table_id@, t),
{
    let mut out: Vec<SequencedBigQueryTableId> = Vec::new();
    let ghost base = base_table_id@;
    let mut i: usize = 0;
    while i < names.len()
        invariant
            i <= names@.len(),
            base == base_table_id@,
            forall|p: int, q: int|
                0 <= p < q < out@.len() ==> (#[trigger] out@[p])@ != (#[trigger] out@[q])@,
            forall|t: (Seq<char>, int)|
                #[trigger] listed(out@, t) <==> names_version(
                    names@.take(i as int),
                    base,
                    t,
                ),
        decreases names@.len() - i,
    {
        let ghost had = out@;
        let ghost seen = names@.take(i as int);
        let ghost now_seen = names@.take(i + 1);
        match SequencedBigQueryTableId::parse_for_base(names[i].as_str(), base_table_id) {
            Some(id) => {
                let mut found = false;
                let mut j: usize = 0;
                while j < out.len()
                    invariant
                        j <= out@.len(),
                        out@ == had,
                        found <==> exists|p: int| 0 <= p < j && (#[trigger] had[p])@ == id@,
                    decreases out@.len() - j,
                {
                    if out[j].equals(&id) {
                        found = true;
                    }
                    j = j + 1;
                }
                let ghost t0 = id@;
                if !found {
                    out.push(id);
                }
                proof {
                    assert forall|t: (Seq<char>, int)|
                        #[trigger] listed(out@, t) <==> names_version(now_seen, base, t) by {
                        lemma_one_more_name(names@, i as int, base, t);
                        if listed(had, t) {
                            let p = choose|p: int| 0 <= p < had.len() && (#[trigger] had[p])@ == t;
                            assert(out@[p]@ == t);
                        }
                        if listed(out@, t) {
                            let p = choose|p: int|
                                0 <= p < out@.len() && (#[trigger] out@[p])@ == t;
                            if p < had.len() {
                                assert(had[p]@ == t);
                            }
                        }
                        if t == t0 && !found {
                            assert(out@[had.len() as int]@ == t);
                        }
                        assert(listed(had, t) <==> names_version(seen, base, t));
                    }
                    assert forall|p: int, q: int| 0 <= p < q < out@.len() implies (
                    #[trigger] out@[p])@ != (#[trigger] out@[q])@ by {
                        assert(out@[p] == had[p]);
                        if q < had.len() {
                            assert(out@[q] == had[q]);
                        }
                    }
                }
            },
            None => {
                proof {
                    assert forall|t: (Seq<char>, int)|
                        #[trigger] listed(out@, t) <==> names_version(now_seen, base, t) by {
                        lemma_one_more_name(names@, i as int, base, t);
                        assert(listed(had, t) <==> names_version(seen, base, t));
                    }
                }
            },
        }
        i = i + 1;
    }
    proof {
        assert(names@.take(names@.len() as int) =~= names@);
    }
    out
}

/// How to drop a table before it is copied again: the view first, so that nothing can be read,
/// then every version, then what is remembered of the table.
#[derive(Debug)]
pub struct DropPlan {
    /// The view that shows the table.
    pub view_name: BigQueryTableId,
    /// The versions to drop, in any order.
    pub versions: Vec<SequencedBigQueryTableId>,
}

/// Says how to drop a table, given the names of the tables that start like its versions.
pub fn drop_table_for_copy(
    schema: &ReplicatedTableSchema,
    names: &Vec<String>,
) -> (r: EtlResult<DropPlan>)
    ensures
        r matches Ok(plan) && {
            let base = stringified(schema.name.schema@, schema.name.name@);
            &&& plan.view_name@ == base
            &&& forall|i: int, j: int|
                0 <= i < j < plan.versions@.len() ==> (#[trigger] plan.versions@[i])@ != (
                #[trigger] plan.versions@[j])@
            &&& forall|t: (Seq<char>, int)|
                #[trigger] listed(plan.versions@, t) <==> names_version(names@, base, t)
        },
{
    let view_name = match table_name_to_bigquery_table_id(&schema.name) {
        Ok(name) => name,
        Err(e) => {
            return Err(e);
        },
    };
    let versions = versions_to_drop(names, &view_name);
    Ok(DropPlan { view_name, versions })
}

proof fn lemma_one_more_name(
    names: Seq<String>,
    n: int,
    base: Seq<char>,
    t: (Seq<char>, int),
)
    requires
        0 <= n < names.len(),
    ensures
        names_version(names.take(n + 1), base, t) <==> names_version(names.take(n), base, t) || (
        t.0 == base && parsed(names[n]@) == Ok::<(Seq<char>, int), ErrorModel>(t)),
{
    let a = names.take(n);
    let b = names.take(n + 1);
    if names_version(a, base, t) {
        let i = choose|i: int|
            0 <= i < a.len() && parsed((#[trigger] a[i])@) == Ok::<(Seq<char>, int), ErrorModel>(
                t,
            );
        assert(b[i] == a[i]);
    }
    if t.0 == base && parsed(names[n]@) == Ok::<(Seq<char>, int), ErrorModel>(t) {
        assert(b[n] == names[n]);
    }
    if names_version(b, base, t) {
        let i = choose|i: int|
            0 <= i < b.len() && parsed((#[trigger] b[i])@) == Ok::<(Seq<char>, int), ErrorModel>(
                t,
            );
        if i < n {
            assert(a[i] == b[i]);
        }
    }
}

/// A copied row numbers its values from one, and behind them stands the word UPSERT.
pub proof fn law_copied_rows_are_upserts(values: Seq<CellModel>)
    ensures
        ({
            let row = copied_row(values);
            let n = values.len() as int;
            &&& row.len() == n + 1
            &&& forall|i: int| 0 <= i < n ==> #[trigger] row[i] == (i + 1, values[i])
            &&& row[n] == (n + 1, CellModel::Text("UPSERT"@))
        }),
{
}

/// A table that is not cached is recorded as being worked on, created where it is missing, recorded as
/// applied and only then cached; its view is replaced behind that, unless it shows the table already.
pub proof fn law_creation_is_recorded_around_its_steps(
    inner: &Inner,
    view: Seq<char>,
    table: (Seq<char>, int),
)
    ensures
        inner.has_table(table) && inner.has_view(view, table) ==> prepare_steps(inner, view, table)
            == Seq::<PrepareAction>::empty(),
        inner.has_table(table) && !inner.has_view(view, table) ==> prepare_steps(inner, view, table)
            == seq![PrepareAction::ReplaceView, PrepareAction::CacheView],
        !inner.has_table(table) && inner.has_view(view, table) ==> prepare_steps(inner, view, table)
            == seq![
            PrepareAction::StoreApplying,
            PrepareAction::CreateTableIfMissing,
            PrepareAction::StoreApplied,
            PrepareAction::CacheTable,
        ],
        !inner.has_table(table) && !inner.has_view(view, table) ==> prepare_steps(
            inner,
            view,
            table,
        ) == seq![
            PrepareAction::StoreApplying,
            PrepareAction::CreateTableIfMissing,
            PrepareAction::StoreApplied,
            PrepareAction::CacheTable,
            PrepareAction::ReplaceView,
            PrepareAction::CacheView,
        ],
        (prepare_records())(PrepareAction::StoreApplying) == Some(RecordStatus::Applying),
        (prepare_records())(PrepareAction::StoreApplied) == Some(RecordStatus::Applied),
        (prepare_records())(PrepareAction::CreateTableIfMissing) is None,
{
}

/// A table's view has the table's name. A table without a record starts with version zero; a recorded
/// one keeps the version of its record.
pub proof fn law_tables_start_with_version_zero(schema: ReplicatedTableSchema, recorded: Seq<char>)
    ensures
        identity_error(schema) is None ==> prepared(schema, None) == Ok::<
            (Seq<char>, (Seq<char>, int)),
            ErrorModel,
        >(
            (
                stringified(schema.name.schema@, schema.name.name@),
                (stringified(schema.name.schema@, schema.name.name@), 0),
            ),
        ),
        identity_error(schema) is None ==> (parsed(recorded) matches Ok(table) ==> prepared(
            schema,
            Some(recorded),
        ) == Ok::<(Seq<char>, (Seq<char>, int)), ErrorModel>(
            (stringified(schema.name.schema@, schema.name.name@), table),
        )),
        identity_error(schema) is None ==> (parsed(recorded) is Err ==> prepared(
            schema,
            Some(recorded),
        ) is Err),
        identity_error(schema) matches Some(e) ==> prepared(schema, None) == Err::<
            (Seq<char>, (Seq<char>, int)),
            ErrorModel,
        >(e),
{
}

/// A schema change is recorded as begun before the first change, makes every change once and in order,
/// is recorded as done behind the last, and only then drops the connections that know the old schema.
pub proof fn law_change_is_recorded_around_its_steps(n: usize)
    ensures
        ({
            let steps = relation_steps(n as nat);
            &&& steps.len() == n + 3
            &&& steps[0] == RelationAction::StoreApplying
            &&& forall|i: int|
                1 <= i <= n ==> #[trigger] steps[i] == RelationAction::Change((i - 1) as usize)
            &&& steps[n + 1] == RelationAction::StoreApplied
            &&& steps[n + 2] == RelationAction::InvalidateConnections
        }),
        (relation_records())(RelationAction::StoreApplying) == Some(RecordStatus::Applying),
        (relation_records())(RelationAction::StoreApplied) == Some(RecordStatus::Applied),
        (relation_records())(RelationAction::InvalidateConnections) is None,
{
}

/// A truncate creates the next version first, then turns the view to it, then records it, and only then
/// forgets and drops the old version.
pub proof fn law_truncate_replaces_before_it_drops(inner: &Inner, next: (Seq<char>, int))
    ensures
        !inner.has_view(next.0, next) ==> truncate_steps(inner, next) == seq![
            TruncateAction::CreateOrReplaceNext,
            TruncateAction::CacheNext,
            TruncateAction::ReplaceView,
            TruncateAction::CacheView,
            TruncateAction::StoreApplied,
            TruncateAction::ForgetOld,
            TruncateAction::DropOld,
        ],
        inner.has_view(next.0, next) ==> truncate_steps(inner, next) == seq![
            TruncateAction::CreateOrReplaceNext,
            TruncateAction::CacheNext,
            TruncateAction::StoreApplied,
            TruncateAction::ForgetOld,
            TruncateAction::DropOld,
        ],
{
}

/// Among the names of a dataset, a table's versions are those that are read as versions of its name;
/// tables whose names only begin alike are no versions of it.
pub proof fn law_only_versions_of_the_table_are_named(
    names: Seq<String>,
    base: Seq<char>,
    t: (Seq<char>, int),
)
    ensures
        names_version(names, base, t) ==> t.0 == base,
        forall|i: int, n: u64|
            base.len() > 0 && 0 <= i < names.len() && (#[trigger] names[i])@
                == #[trigger] sequenced_text((base, n as int)) ==> names_version(
                names,
                base,
                (base, n as int),
            ),
{
    assert forall|i: int, n: u64|
        base.len() > 0 && 0 <= i < names.len() && (#[trigger] names[i])@
            == #[trigger] sequenced_text((base, n as int)) implies names_version(
        names,
        base,
        (base, n as int),
    ) by {
        law_sequenced_id_round_trip(base, n);
        assert(parsed(names[i]@) == Ok::<(Seq<char>, int), ErrorModel>((base, n as int)));
    }
}

/// A request is traced by its pipeline, table, batch and a random number.
pub proof fn law_traces_name_their_request(
    pipeline_id: nat,
    table_id: Seq<char>,
    batch_index: nat,
    nonce: nat,
)
    ensures
        trace_text(pipeline_id, table_id, batch_index, nonce) == "supabase_etl_"@ + decimal(
            pipeline_id,
        ) + "_"@ + table_id + "_"@ + decimal(batch_index) + ("_"@ + decimal(nonce)),
{
}

/// A table without a record is a broken schema, and the error names the table.
pub proof fn law_missing_records_are_errors(schema: ReplicatedTableSchema)
    ensures
        missing_metadata_error(schema).kind == ErrorKind::CorruptedTableSchema,
        missing_metadata_error(schema).description == "Missing destination table metadata"@,
        missing_metadata_error(schema).detail matches Some(detail) && detail.take(
            ("No destination table metadata found for table "@ + decimal(schema.id.0 as nat)).len()
                as int,
        ) == "No destination table metadata found for table "@ + decimal(schema.id.0 as nat),
        missing_metadata_error(schema).source is None,
{
    let head = "No destination table metadata found for table "@ + decimal(schema.id.0 as nat);
    assert(missing_metadata_error(schema).detail->Some_0.take(head.len() as int) =~= head);
}

/// A truncated table moves on to its next version under the same view; one that was never recorded is
/// left alone.
pub proof fn law_truncated_tables_move_on(
    schema: &ReplicatedTableSchema,
    recorded: Option<&String>,
    inner: &Inner,
    r: EtlResult<Option<TruncatePlan>>,
)
    requires
        call_ensures(process_truncate, (schema, recorded, inner), r),
    ensures
        recorded is None ==> r is Ok && r->Ok_0 is None,
        r matches Ok(Some(plan)) ==> {
            &&& plan.next@.0 == plan.current@.0
            &&& plan.next@.1 == plan.current@.1 + 1
            &&& plan.view_name@ == plan.current@.0
            &&& plan.metadata.destination_table_id@ == sequenced_text(plan.next@)
            &&& plan.metadata.snapshot_id@ == schema.snapshot_id@
            &&& recorded is Some && parsed(recorded->Some_0@) == Ok::<
                (Seq<char>, int),
                ErrorModel,
            >(plan.current@)
        },
{
}

/// A changed table keeps its version and is recorded under the new schema with the old one kept; its
/// columns change as the schemas differ.
pub proof fn law_changed_tables_are_recorded(
    schema: &ReplicatedTableSchema,
    metadata: &DestinationTableMetadata,
    diff: &SchemaDiff,
    r: EtlResult<RelationPlan>,
    none: EtlResult<RelationPlan>,
)
    requires
        call_ensures(handle_relation_event, (schema, metadata, Some(diff)), r),
        call_ensures(handle_relation_event, (schema, metadata, None), none),
    ensures
        none is Err,
        r matches Ok(plan) ==> {
            &&& parsed(metadata.destination_table_id@) == Ok::<(Seq<char>, int), ErrorModel>(
                plan.table@,
            )
            &&& plan.metadata.destination_table_id@ == metadata.destination_table_id@
            &&& plan.metadata.snapshot_id@ == schema.snapshot_id@
            &&& plan.metadata.replication_mask@ == schema.replication_mask@
            &&& plan.metadata.previous_snapshot_id matches Some(id) && id@
                == metadata.snapshot_id@
            &&& plan.changes@.len() == diff.columns_to_add@.len() + diff.columns_to_rename@.len()
                + diff.columns_to_remove@.len()
        },
{
    match r {
        Ok(plan) => {
            assert(change_models(plan.changes@).len() == plan.changes@.len());
        },
        Err(_) => {},
    }
}

/// Exactly the listed versions of a table are dropped, each once.
pub proof fn law_all_versions_are_dropped(
    names: &Vec<String>,
    base: &BigQueryTableId,
    r: Vec<SequencedBigQueryTableId>,
    t: (Seq<char>, int),
)
    requires
        call_ensures(versions_to_drop, (names, base), r),
    ensures
        (exists|i: int| 0 <= i < r@.len() && (#[trigger] r@[i])@ == t) <==> t.0 == base@ && (
        exists|k: int|
            0 <= k < names@.len() && parsed((#[trigger] names@[k])@) == Ok::<
                (Seq<char>, int),
                ErrorModel,
            >(t)),
        forall|i: int, j: int|
            0 <= i < r@.len() && 0 <= j < r@.len() && (#[trigger] r@[i])@ == (#[trigger] r@[j])@
                ==> i == j,
{
    assert(listed(r@, t) <==> names_version(names@, base@, t));
}

/// A missing version is an invalid state, and the error names the table and the version.
pub proof fn law_missing_versions_are_named(
    schema: ReplicatedTableSchema,
    metadata: DestinationTableMetadata,
)
    ensures
        missing_schema_error(schema, metadata).kind == ErrorKind::InvalidState,
        missing_schema_error(schema, metadata).description == "Old schema not found"@,
        missing_schema_error(schema, metadata).detail == Some(
            "Could not find schema for table "@ + decimal(schema.id.0 as nat)
                + " at snapshot_id "@ + metadata.snapshot_id@,
        ),
        missing_schema_error(schema, metadata).source is None,
{
}

} // verus!
