//! Append requests of table copies and of change batches.
use vstd::prelude::*;

use crate::bigquery::batches::{
    batch_count, batch_start, calculate_target_batches_for_table_copy, law_batches_are_balanced,
    law_split_keeps_to_the_target, split_table_rows, target_batches,
};
use crate::bigquery::client::{BigQueryClient, TableDescriptor};
use crate::bigquery::plan::{create_append_trace_id, trace_text, PipelineId};
use crate::bigquery::rows::BigQueryTableRow;
use crate::bigquery::table_id::{BigQueryDatasetId, BigQueryTableId};
use crate::error::EtlResult;

verus! {

/// Rows for the default stream of one table.
#[derive(Debug)]
pub struct BatchAppendRequest {
    /// Project of the table.
    pub project_id: String,
    /// Dataset of the table.
    pub dataset_id: BigQueryDatasetId,
    /// The table.
    pub table_id: BigQueryTableId,
    /// Describes the rows.
    pub table_descriptor: TableDescriptor,
    /// The rows.
    pub rows: Vec<BigQueryTableRow>,
    /// Identifies the request in traces.
    pub trace_id: String,
}

/// Whether a request is for batch `batch_index` of a table, up to the random part of its trace
/// identifier and up to its rows.
pub open spec fn addressed(
    request: BatchAppendRequest,
    project_id: Seq<char>,
    pipeline_id: PipelineId,
    batch_index: nat,
    dataset_id: Seq<char>,
    table_id: Seq<char>,
    table_descriptor: TableDescriptor,
) -> bool {
    &&& request.project_id@ == project_id
    &&& request.dataset_id@ == dataset_id
    &&& request.table_id@ == table_id
    &&& request.table_descriptor.field_descriptors@ == table_descriptor.field_descriptors@
    &&& exists|nonce: u32|
        request.trace_id@ == #[trigger] trace_text(
            pipeline_id as nat,
            table_id,
            batch_index,
            nonce as nat,
        )
}

impl BigQueryClient {
    /// Makes the request that appends rows to a table.
    pub fn create_batch_append_request(
        &self,
        pipeline_id: PipelineId,
        batch_index: usize,
        dataset_id: &BigQueryDatasetId,
        table_id: &BigQueryTableId,
        table_descriptor: TableDescriptor,
        validated_rows: Vec<BigQueryTableRow>,
    ) -> (r: EtlResult<BatchAppendRequest>)
        ensures
            r matches Ok(request) && request.rows == validated_rows && addressed(
                request,
                self.project_id@,
                pipeline_id,
                batch_index as nat,
                dataset_id@,
                table_id@,
                table_descriptor,
            ),
    {
        let trace_id = create_append_trace_id(pipeline_id, table_id.as_str(), batch_index);
        Ok(
            BatchAppendRequest {
                project_id: self.project_id.clone(),
                dataset_id: dataset_id.clone(),
                table_id: table_id.clone(),
                table_descriptor,
                rows: validated_rows,
                trace_id,
            },
        )
    }

    /// Makes the requests of a table copy: the rows in order, split by the encoded size of the
    /// first row. Every request has rows.
    pub fn create_table_copy_requests(
        &self,
        pipeline_id: PipelineId,
        dataset_id: &BigQueryDatasetId,
        table_id: &BigQueryTableId,
        table_descriptor: &TableDescriptor,
        table_rows: Vec<BigQueryTableRow>,
        first_row_size: usize,
    ) -> (r: EtlResult<Vec<BatchAppendRequest>>)
        ensures
            r matches Ok(requests) && {
                let n = table_rows@.len() as int;
                let k = batch_count(n, target_batches(first_row_size as int, n));
                &&& requests@.len() == k
                &&& forall|i: int|
                    0 <= i < k ==> {
                        &&& (#[trigger] requests@[i]).rows@ == table_rows@.subrange(
                            batch_start(n, k, i),
                            batch_start(n, k, i + 1),
                        )
                        &&& requests@[i].rows@.len() > 0
                        &&& addressed(
                            requests@[i],
                            self.project_id@,
                            pipeline_id,
                            i as nat,
                            dataset_id@,
                            table_id@,
                            *table_descriptor,
                        )
                    }
            },
    {
        let ghost all = table_rows@;
        let ghost n = all.len() as int;
        let count: usize = table_rows.len();
        let target: usize = calculate_target_batches_for_table_copy(first_row_size, count);
        let batches = split_table_rows(table_rows, target);
        let ghost k = batches@.len() as int;
        let ghost parts = batches@;
        let mut requests: Vec<BatchAppendRequest> = Vec::new();
        let mut index: usize = 0;
        proof {
            if n > 0 {
                law_split_keeps_to_the_target(n, target as int);
            }
        }
        for rows in it: batches
            invariant
                it.seq() == parts,
                k == parts.len(),
                index == it.index(),
                n == all.len(),
                n == count,
                k == batch_count(n, target_batches(first_row_size as int, n)),
                n > 0 ==> 0 < k <= n,
                n == 0 ==> k == 0,
                forall|i: int|
                    0 <= i < k ==> (#[trigger] parts[i])@ == all.subrange(
                        batch_start(n, k, i),
                        batch_start(n, k, i + 1),
                    ),
                requests@.len() == index,
                forall|i: int|
                    0 <= i < index ==> {
                        &&& (#[trigger] requests@[i]).rows@ == all.subrange(
                            batch_start(n, k, i),
                            batch_start(n, k, i + 1),
                        )
                        &&& requests@[i].rows@.len() > 0
                        &&& addressed(
                            requests@[i],
                            self.project_id@,
                            pipeline_id,
                            i as nat,
                            dataset_id@,
                            table_id@,
                            *table_descriptor,
                        )
                    },
        {
            proof {
                assert(rows == parts[index as int]);
                law_batches_are_balanced(n, k, index as int);
            }
            match self.create_batch_append_request(
                pipeline_id,
                index,
                dataset_id,
                table_id,
                table_descriptor.clone(),
                rows,
            ) {
                Ok(request) => {
                    requests.push(request);
                },
                Err(e) => {
                    return Err(e);
                },
            }
            index = index + 1;
        }
        Ok(requests)
    }
}

/// A request goes to its project, dataset and table, with the table's description.
pub proof fn law_requests_are_addressed(
    request: BatchAppendRequest,
    project_id: Seq<char>,
    pipeline_id: PipelineId,
    batch_index: nat,
    dataset_id: Seq<char>,
    table_id: Seq<char>,
    table_descriptor: TableDescriptor,
)
    requires
        addressed(
            request,
            project_id,
            pipeline_id,
            batch_index,
            dataset_id,
            table_id,
            table_descriptor,
        ),
    ensures
        request.project_id@ == project_id,
        request.dataset_id@ == dataset_id,
        request.table_id@ == table_id,
        request.table_descriptor.field_descriptors@ == table_descriptor.field_descriptors@,
        exists|nonce: u32|
            request.trace_id@ == #[trigger] trace_text(
                pipeline_id as nat,
                table_id,
                batch_index,
                nonce as nat,
            ),
{
}

} // verus!
