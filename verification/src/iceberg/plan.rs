//! What is to be done at Iceberg for a table: creation, truncation, cleanup.
use std::collections::HashSet;

use vstd::prelude::*;

use crate::error::EtlResult;
use crate::iceberg::columns::{
    added_column, build_cdc_column_schemas, iceberg_identity_error,
    validate_iceberg_replica_identity, CDC_OPERATION_COLUMN_NAME, SEQUENCE_NUMBER_COLUMN_NAME,
};
use crate::iceberg::namespace::{
    changelog_name, namespace_of, schema_to_namespace, table_name_to_iceberg_table_name,
    DestinationNamespace,
};
use crate::names::NameSet;
use crate::schema::{ColumnSchema, DestinationTableMetadata, ReplicatedTableSchema, TableId};
use crate::steps::{
    failed, is_plan_run, law_failed_step_ends_the_plan, lemma_recorded, recorded_after, succeeded,
    PlanRun, PlanStep, RecordStatus,
};
use crate::table_name::stringified;
use crate::text::lowercased;

verus! {

/// What is known to exist at the destination.
#[derive(Debug)]
pub struct Inner {
    /// Numbers of the source tables whose tables were created or verified. Source tables of
    /// different schemas may have tables of one name, and must not hide each other.
    pub created_tables: HashSet<u32>,
    /// Namespaces that were created or verified.
    pub created_namespaces: NameSet,
    /// Namespace where the tables will be replicated.
    pub namespace: DestinationNamespace,
}

/// A step of preparing a table.
#[derive(Clone, Copy, Debug, PartialEq, Eq, Structural)]
pub enum PrepareAction {
    /// Create the namespace unless it is there, and remember it.
    CreateNamespace,
    /// Record that the table is being created.
    StoreApplying,
    /// Create the table unless it is there.
    CreateTable,
    /// Record that the table has its schema.
    StoreApplied,
    /// Remember the table.
    RememberTable,
}

/// How to prepare a table for rows.
#[derive(Debug)]
pub struct Preparation {
    /// Namespace of the table.
    pub namespace: String,
    /// Name of the table.
    pub table: String,
    /// Columns to create the table with.
    pub columns: Vec<ColumnSchema>,
    /// What is recorded about the table, first as being created, then as there.
    pub metadata: DestinationTableMetadata,
    /// The steps, in order; each is taken only if those before it succeeded.
    pub actions: Vec<PrepareAction>,
}

/// The steps of preparing a table.
pub open spec fn prepare_steps(
    namespace_known: bool,
    table_known: bool,
) -> Seq<PrepareAction> {
    (if namespace_known {
        Seq::empty()
    } else {
        seq![PrepareAction::CreateNamespace]
    }) + (if table_known {
        Seq::empty()
    } else {
        seq![
            PrepareAction::StoreApplying,
            PrepareAction::CreateTable,
            PrepareAction::StoreApplied,
            PrepareAction::RememberTable,
        ]
    })
}

/// What a step of preparing a table records about it.
pub open spec fn prepare_records() -> spec_fn(PrepareAction) -> Option<RecordStatus> {
    |action: PrepareAction|
        match action {
            PrepareAction::StoreApplying => Some(RecordStatus::Applying),
            PrepareAction::StoreApplied => Some(RecordStatus::Applied),
            _ => None,
        }
}

/// A preparation ends with the error of the first step that fails. Where the namespace could not be
/// created nothing is recorded; where the table could not be, it stays recorded as being created.
pub proof fn law_failed_creation_stays_applying(
    namespace_known: bool,
    table_known: bool,
    states: Seq<(PlanRun, PlanStep)>,
    results: Seq<EtlResult<()>>,
    before: Option<RecordStatus>,
)
    requires
        is_plan_run(prepare_steps(namespace_known, table_known).len(), states, results),
    ensures
        ({
            let steps = prepare_steps(namespace_known, table_known);
            let k = succeeded(results) as int;
            let record = recorded_after(prepare_records(), steps.take(k), before);
            &&& failed(results) ==> {
                &&& states.last().1 == PlanStep::Fail(results.last()->Err_0)
                &&& steps[k] is CreateNamespace || steps[k] is StoreApplying ==> record == before
                &&& steps[k] is CreateTable || steps[k] is StoreApplied ==> record == Some(
                    RecordStatus::Applying,
                ) && !steps.take(k).contains(PrepareAction::StoreApplied)
            }
            &&& states.last().1 is Done ==> record == if table_known {
                before
            } else {
                Some(RecordStatus::Applied)
            }
        }),
{
    let steps = prepare_steps(namespace_known, table_known);
    let k = succeeded(results) as int;
    let at = if namespace_known {
        0int
    } else {
        1
    };
    law_failed_step_ends_the_plan(steps.len(), states, results);
    if table_known {
        lemma_recorded(prepare_records(), steps, -1, steps.len() as int, k, before);
    } else {
        lemma_recorded(prepare_records(), steps, at, at + 2, k, before);
    }
}

impl Inner {
    /// Creates the state of a destination of which nothing is known yet.
    pub fn new(namespace: DestinationNamespace) -> (r: Self)
        ensures
            r.namespace == namespace,
            r.created_tables@ == Set::<u32>::empty(),
            forall|name: Seq<char>| !r.created_namespaces.has(name),
    {
        Inner { created_tables: HashSet::new(), created_namespaces: NameSet::new(), namespace }
    }

    /// The namespace of a table.
    pub open spec fn namespace_for(&self, schema: ReplicatedTableSchema) -> Seq<char> {
        self.namespace.chosen(namespace_of(lowercased(schema.name.schema@)))
    }

    /// Returns the namespace of a table.
    pub fn table_namespace(&self, schema: &ReplicatedTableSchema) -> (r: String)
        ensures
            r@ == self.namespace_for(*schema),
    {
        let own = schema_to_namespace(schema.name.schema.as_str());
        self.namespace.get_or(own.as_str()).to_string()
    }

    /// The name of a table: the recorded one, or else one made from the source name.
    pub open spec fn table_for(
        &self,
        schema: ReplicatedTableSchema,
        metadata: Option<DestinationTableMetadata>,
    ) -> Seq<char> {
        match metadata {
            Some(m) => m.destination_table_id@,
            None => changelog_name(
                schema.name.schema@,
                schema.name.name@,
                self.namespace is Single,
            ),
        }
    }

    /// Returns the name of a table.
    pub fn table_name(
        &self,
        schema: &ReplicatedTableSchema,
        metadata: Option<&DestinationTableMetadata>,
    ) -> (r: EtlResult<String>)
        ensures
            r matches Ok(name) && name@ == self.table_for(
                *schema,
                match metadata {
                    Some(m) => Some(*m),
                    None => None,
                },
            ),
    {
        match metadata {
            Some(m) => Ok(m.destination_table_id.clone()),
            None => table_name_to_iceberg_table_name(&schema.name, self.namespace.is_single()),
        }
    }

    /// Prepares a table for Iceberg writes with schema-aware table creation.
    ///
    /// What is known to exist is not created again. A creation is recorded before it is begun and
    /// again when it is done, so that it can be taken up after a crash.
    pub fn prepare_table_for_streaming(
        &self,
        schema: &ReplicatedTableSchema,
        applied: Option<&DestinationTableMetadata>,
    ) -> (r: EtlResult<Preparation>)
        ensures
            match iceberg_identity_error(*schema) {
                Some(e) => r matches Err(f) && f@ == e,
                None => r matches Ok(p) && {
                    let columns = schema.columns@;
                    &&& p.namespace@ == self.namespace_for(*schema)
                    &&& p.table@ == self.table_for(
                        *schema,
                        match applied {
                            Some(m) => Some(*m),
                            None => None,
                        },
                    )
                    &&& p.metadata.records(p.table@, *schema)
                    &&& p.columns@.len() == columns.len() + 2
                    &&& p.columns@.take(columns.len() as int) == columns
                    &&& added_column(
                        p.columns@[columns.len() as int],
                        columns,
                        CDC_OPERATION_COLUMN_NAME@,
                    )
                    &&& added_column(
                        p.columns@[(columns.len() + 1) as int],
                        columns,
                        SEQUENCE_NUMBER_COLUMN_NAME@,
                    )
                    &&& p.actions@ == prepare_steps(
                        self.created_namespaces.has(p.namespace@),
                        self.created_tables@.contains(schema.id.0),
                    )
                },
            },
    {
        broadcast use vstd::std_specs::hash::group_hash_axioms;

        match validate_iceberg_replica_identity(schema) {
            Ok(_) => {},
            Err(e) => {
                return Err(e);
            },
        }
        let columns = build_cdc_column_schemas(schema);
        let table = match self.table_name(schema, applied) {
            Ok(table) => table,
            Err(e) => {
                return Err(e);
            },
        };
        let namespace = self.table_namespace(schema);
        let namespace_known = self.created_namespaces.contains(&namespace);
        let table_known = self.created_tables.contains(&schema.id.0);
        let mut actions: Vec<PrepareAction> = Vec::new();
        if !namespace_known {
            actions.push(PrepareAction::CreateNamespace);
        }
        if !table_known {
            actions.push(PrepareAction::StoreApplying);
            actions.push(PrepareAction::CreateTable);
            actions.push(PrepareAction::StoreApplied);
            actions.push(PrepareAction::RememberTable);
        }
        proof {
            assert(actions@ =~= prepare_steps(namespace_known, table_known));
        }
        let metadata = DestinationTableMetadata::of(table.clone(), schema);
        Ok(Preparation { namespace, table, columns, metadata, actions })
    }

    /// Says which table is to be dropped before a truncated table is prepared again: its
    /// namespace and name. Without a record the table was never created, and nothing is to be
    /// done.
    pub fn truncate_table(
        &self,
        schema: &ReplicatedTableSchema,
        applied: Option<&DestinationTableMetadata>,
    ) -> (r: Option<(String, String)>)
        ensures
            match applied {
                None => r is None,
                Some(m) => r matches Some(t) && t.0@ == self.namespace_for(*schema) && t.1@
                    == m.destination_table_id@,
            },
    {
        match applied {
            None => None,
            Some(m) => Some((self.table_namespace(schema), m.destination_table_id.clone())),
        }
    }

    /// Says which table is to be dropped before it is copied again: its namespace and name.
    pub fn drop_table_for_copy(
        &self,
        schema: &ReplicatedTableSchema,
        metadata: Option<&DestinationTableMetadata>,
    ) -> (r: EtlResult<(String, String)>)
        ensures
            r matches Ok(t) && t.0@ == self.namespace_for(*schema) && t.1@ == self.table_for(
                *schema,
                match metadata {
                    Some(m) => Some(*m),
                    None => None,
                },
            ),
    {
        match self.table_name(schema, metadata) {
            Ok(table) => Ok((self.table_namespace(schema), table)),
            Err(e) => Err(e),
        }
    }

    /// Records that a namespace exists.
    pub fn remember_namespace(&mut self, namespace: String)
        ensures
            final(self).namespace == old(self).namespace,
            final(self).created_tables == old(self).created_tables,
            forall|n: Seq<char>|
                final(self).created_namespaces.has(n) <==> old(self).created_namespaces.has(n) || n
                    == namespace@,
    {
        self.created_namespaces.insert(namespace);
    }

    /// Records that the table of a source table exists.
    pub fn remember_table(&mut self, id: TableId)
        ensures
            final(self).namespace == old(self).namespace,
            final(self).created_namespaces == old(self).created_namespaces,
            final(self).created_tables@ == old(self).created_tables@.insert(id.0),
    {
        broadcast use vstd::std_specs::hash::group_hash_axioms;

        self.created_tables.insert(id.0);
    }

    /// Records that the table of a source table was dropped.
    pub fn forget_table(&mut self, id: TableId)
        ensures
            final(self).namespace == old(self).namespace,
            final(self).created_namespaces == old(self).created_namespaces,
            final(self).created_tables@ == old(self).created_tables@.remove(id.0),
    {
        broadcast use vstd::std_specs::hash::group_hash_axioms;

        self.created_tables.remove(&id.0);
    }
}

/// Source tables do not hide each other, whatever their tables are called: that one's table exists
/// or was dropped does not change the steps that another takes.
pub proof fn law_tables_do_not_hide_each_other(
    known: Set<u32>,
    namespace_known: bool,
    table: TableId,
    other: TableId,
)
    requires
        table != other,
    ensures
        prepare_steps(namespace_known, known.insert(table.0).contains(other.0)) == prepare_steps(
            namespace_known,
            known.contains(other.0),
        ),
        prepare_steps(namespace_known, known.remove(table.0).contains(other.0)) == prepare_steps(
            namespace_known,
            known.contains(other.0),
        ),
{
}

/// A namespace is created first where it is not known. A table that is not known is recorded as being
/// worked on, created, recorded as applied and only then remembered; a known one needs no step.
pub proof fn law_creation_is_recorded_around_its_steps()
    ensures
        prepare_steps(true, true).len() == 0,
        prepare_steps(false, true) == seq![PrepareAction::CreateNamespace],
        prepare_steps(true, false) == seq![
            PrepareAction::StoreApplying,
            PrepareAction::CreateTable,
            PrepareAction::StoreApplied,
            PrepareAction::RememberTable,
        ],
        prepare_steps(false, false) == seq![
            PrepareAction::CreateNamespace,
            PrepareAction::StoreApplying,
            PrepareAction::CreateTable,
            PrepareAction::StoreApplied,
            PrepareAction::RememberTable,
        ],
        (prepare_records())(PrepareAction::StoreApplying) == Some(RecordStatus::Applying),
        (prepare_records())(PrepareAction::StoreApplied) == Some(RecordStatus::Applied),
        (prepare_records())(PrepareAction::CreateTable) is None,
        (prepare_records())(PrepareAction::CreateNamespace) is None,
        (prepare_records())(PrepareAction::RememberTable) is None,
{
}

/// A table that is recorded keeps the name of its record; a new one is called after its source. All
/// tables go to the configured namespace, or each to that of its schema.
pub proof fn law_tables_have_these_places(
    inner: Inner,
    schema: ReplicatedTableSchema,
    metadata: DestinationTableMetadata,
)
    ensures
        inner.table_for(schema, Some(metadata)) == metadata.destination_table_id@,
        inner.namespace is Single ==> inner.table_for(schema, None) == stringified(
            schema.name.schema@,
            schema.name.name@,
        ) + "_"@ + "changelog"@,
        inner.namespace is OnePerSchema ==> inner.table_for(schema, None) == schema.name.name@
            + "_"@ + "changelog"@,
        inner.namespace matches DestinationNamespace::Single(ns) ==> inner.namespace_for(schema)
            == ns@,
        inner.namespace is OnePerSchema ==> inner.namespace_for(schema) == namespace_of(
            lowercased(schema.name.schema@),
        ),
{
}

/// A remembered table is known and a forgotten one is not; all others stay as they are.
pub proof fn law_tables_are_remembered(inner: &mut Inner, id: TableId, other: u32)
    requires
        call_ensures(Inner::remember_table, (inner, id), ()),
        other != id.0,
    ensures
        final(inner).created_tables@.contains(id.0),
        final(inner).created_tables@.contains(other) == old(inner).created_tables@.contains(other),
        final(inner).namespace == old(inner).namespace,
{
}

/// A forgotten table is not known; all others stay as they are.
pub proof fn law_tables_are_forgotten(inner: &mut Inner, id: TableId, other: u32)
    requires
        call_ensures(Inner::forget_table, (inner, id), ()),
        other != id.0,
    ensures
        !final(inner).created_tables@.contains(id.0),
        final(inner).created_tables@.contains(other) == old(inner).created_tables@.contains(other),
        final(inner).namespace == old(inner).namespace,
{
}

/// A prepared table has the columns of its schema and two more, and is recorded under its name and its
/// version.
pub proof fn law_prepared_tables_have_two_more_columns(
    inner: &Inner,
    schema: &ReplicatedTableSchema,
    r: EtlResult<Preparation>,
)
    requires
        call_ensures(Inner::prepare_table_for_streaming, (inner, schema, None), r),
    ensures
        r is Ok <==> iceberg_identity_error(*schema) is None,
        r matches Ok(p) ==> {
            &&& p.columns@.len() == schema.columns@.len() + 2
            &&& forall|i: int|
                0 <= i < schema.columns@.len() ==> #[trigger] p.columns@[i] == schema.columns@[i]
            &&& p.metadata.destination_table_id@ == p.table@
            &&& p.metadata.snapshot_id@ == schema.snapshot_id@
            &&& p.metadata.replication_mask@ == schema.replication_mask@
            &&& p.metadata.previous_snapshot_id is None
        },
{
    match r {
        Ok(p) => {
            let n = schema.columns@.len() as int;
            assert forall|i: int| 0 <= i < n implies #[trigger] p.columns@[i]
                == schema.columns@[i] by {
                assert(p.columns@.take(n)[i] == p.columns@[i]);
            }
        },
        Err(_) => {},
    }
}

} // verus!
