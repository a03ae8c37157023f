//! The document store: paths in dot notation, and queries as documents.

use vstd::prelude::*;
use vstd::string::StringExecFns;
use crate::benchmark::data_generator::WRITE_TARGET_BYTE_SIZE;
use crate::benchmark::data_generator::generate_fixed_size_word;
use crate::benchmark::data_generator::sentinel;
use crate::benchmark::random::alphanumeric_text;
use crate::databases::document::Field;
use crate::databases::document::FieldModel;
use crate::databases::document::document_entries;
use crate::databases::document::empty_document;
use crate::databases::document::has_key;
use crate::databases::document::insert_field;
use crate::benchmark::run::WorkloadRun;
use crate::databases::database::Database;
use crate::error::WorkloadError;
use crate::text::lemma_repeated_len;
use crate::text::repeat_text;
use crate::text::repeated;

verus! {

/// One step down the chain, in dot notation. The store walks into the
/// single-element array of children by itself.
pub open spec fn traversal_step() -> Seq<char> {
    "children."@
}

/// The way from the top of a document of `depth` levels down to its leaf.
pub open spec fn traversal(depth: nat) -> Seq<char> {
    repeated(traversal_step(), (depth - 1) as nat)
}

/// The path to `read_target` in a document of `depth` levels.
pub open spec fn read_path_text(depth: nat) -> Seq<char> {
    traversal(depth) + "read_target"@
}

/// The path to `write_target` in a document of `depth` levels.
pub open spec fn write_path_text(depth: nat) -> Seq<char> {
    traversal(depth) + "write_target"@
}

/// The filter that selects the targetable documents.
pub open spec fn read_filter_entries(depth: nat) -> Seq<(Seq<char>, FieldModel)> {
    seq![(read_path_text(depth), FieldModel::Text(sentinel()))]
}

/// The update that sets `write_target` to `payload`.
pub open spec fn update_entries(depth: nat, payload: Seq<char>) -> Seq<(Seq<char>, FieldModel)> {
    seq![("$set"@, FieldModel::Nested(seq![(write_path_text(depth), FieldModel::Text(payload))]))]
}

/// The first stage of the read pipeline: keep the targetable documents.
pub open spec fn match_stage_entries(depth: nat) -> Seq<(Seq<char>, FieldModel)> {
    seq![("$match"@, FieldModel::Nested(read_filter_entries(depth)))]
}

/// The second stage of the read pipeline: of each document that is left,
/// hand out the matched field alone, under the name `value`, and not even the
/// document's identifier beside it.
pub open spec fn project_stage_entries(depth: nat) -> Seq<(Seq<char>, FieldModel)> {
    seq![
        (
            "$project"@,
            FieldModel::Nested(
                seq![
                    ("_id"@, FieldModel::Int32(0)),
                    ("value"@, FieldModel::Text("$"@ + read_path_text(depth))),
                ],
            ),
        ),
    ]
}

/// The keys of the index on the read path, in ascending order.
pub open spec fn index_key_entries(depth: nat) -> Seq<(Seq<char>, FieldModel)> {
    seq![(read_path_text(depth), FieldModel::Int32(1))]
}

/// A payload as updates carry it: alphanumeric and of the fixed size.
pub open spec fn fresh_payload(payload: Seq<char>) -> bool {
    payload.len() == WRITE_TARGET_BYTE_SIZE && alphanumeric_text(payload)
}

/// How the aggregation that reads is to be run.
#[derive(Clone, Copy, Debug, PartialEq, Eq, Structural)]
pub struct ReadOptions {
    /// How many documents the store sends per batch.
    pub batch_size: Option<u32>,
}

/// The document store.
#[derive(Debug)]
pub struct MongoDB {
    connected: bool,
}

impl MongoDB {
    /// Whether a connection is held.
    pub closed spec fn connected(&self) -> bool {
        self.connected
    }

    /// A backend that is not connected yet.
    pub fn new() -> (db: MongoDB)
        ensures
            !db.connected(),
    {
        MongoDB { connected: false }
    }

    /// The path to `read_target`, `depth - 1` steps down. A depth of zero is
    /// refused.
    pub fn create_read_path(&self, depth: u8) -> (r: Result<String, WorkloadError>)
        ensures
            match r {
                Ok(path) => depth >= 1 && path@ == read_path_text(depth as nat),
                Err(e) => depth == 0 && e == WorkloadError::InvalidDepth,
            },
    {
        if depth == 0 {
            return Err(WorkloadError::InvalidDepth);
        }
        let steps: usize = (depth - 1) as usize;
        let mut path = repeat_text("children.", steps);
        path.append("read_target");
        Ok(path)
    }

    /// The path to `write_target`, `depth - 1` steps down. A depth of zero
    /// is refused.
    pub fn create_write_path(&self, depth: u8) -> (r: Result<String, WorkloadError>)
        ensures
            match r {
                Ok(path) => depth >= 1 && path@ == write_path_text(depth as nat),
                Err(e) => depth == 0 && e == WorkloadError::InvalidDepth,
            },
    {
        if depth == 0 {
            return Err(WorkloadError::InvalidDepth);
        }
        let steps: usize = (depth - 1) as usize;
        let mut path = repeat_text("children.", steps);
        path.append("write_target");
        Ok(path)
    }

    /// The filter of the update: the documents whose `read_target` is the
    /// sentinel.
    pub fn create_read_filter(&self, depth: u8) -> (r: Result<bson::Document, WorkloadError>)
        ensures
            match r {
                Ok(filter) => depth >= 1 && document_entries(filter) == read_filter_entries(
                    depth as nat,
                ),
                Err(e) => depth == 0 && e == WorkloadError::InvalidDepth,
            },
    {
        match self.create_read_path(depth) {
            Ok(path) => {
                let mut filter = empty_document();
                insert_field(
                    &mut filter,
                    path.as_str(),
                    Field::Text(String::from_str("read_target")),
                );
                Ok(filter)
            },
            Err(e) => Err(e),
        }
    }

    /// The update that sets `write_target` to `payload`.
    pub fn create_update_with(&self, depth: u8, payload: &str) -> (r: Result<
        bson::Document,
        WorkloadError,
    >)
        ensures
            match r {
                Ok(update) => depth >= 1 && document_entries(update) == update_entries(
                    depth as nat,
                    payload@,
                ),
                Err(e) => depth == 0 && e == WorkloadError::InvalidDepth,
            },
    {
        match self.create_write_path(depth) {
            Ok(path) => {
                let mut assignment = empty_document();
                insert_field(&mut assignment, path.as_str(), Field::Text(String::from_str(payload)));
                let mut update = empty_document();
                insert_field(&mut update, "$set", Field::Nested(assignment));
                Ok(update)
            },
            Err(e) => Err(e),
        }
    }

    /// The update that sets `write_target` to a payload drawn for this call:
    /// alphanumeric, and of the same size as the one it replaces.
    pub fn create_update(&self, depth: u8) -> (r: Result<bson::Document, WorkloadError>)
        ensures
            match r {
                Ok(update) => depth >= 1 && exists|payload: Seq<char>|
                    fresh_payload(payload) && document_entries(update) == #[trigger] update_entries(
                        depth as nat,
                        payload,
                    ),
                Err(e) => depth == 0 && e == WorkloadError::InvalidDepth,
            },
    {
        if depth == 0 {
            return Err(WorkloadError::InvalidDepth);
        }
        let payload = generate_fixed_size_word(WRITE_TARGET_BYTE_SIZE);
        self.create_update_with(depth, payload.as_str())
    }

    /// How the read aggregation is run: with batches of `num_doc` documents.
    pub fn create_read_options(&self, num_doc: u32) -> (options: ReadOptions)
        ensures
            options.batch_size == Some(num_doc),
    {
        ReadOptions { batch_size: Some(num_doc) }
    }

    /// How the read aggregation is run against a store that holds `num_docs`
    /// documents: all of them in one batch. The store takes the size of a
    /// batch as 32 bits; of a larger number it is given the low 32 bits.
    pub fn read_options_for(&self, num_docs: usize) -> (options: ReadOptions)
        ensures
            options.batch_size == Some((num_docs as int % 0x1_0000_0000) as u32),
    {
        let wide: u64 = num_docs as u64;
        let low: u32 = (wide % 0x1_0000_0000) as u32;
        self.create_read_options(low)
    }

    /// The read aggregation: match the targetable documents, then project
    /// the matched value alone, so that no whole document crosses the wire.
    pub fn create_read_pipeline(&self, depth: u8) -> (r: Result<Vec<bson::Document>, WorkloadError>)
        ensures
            match r {
                Ok(stages) => {
                    &&& depth >= 1
                    &&& stages@.len() == 2
                    &&& document_entries(stages@[0]) == match_stage_entries(depth as nat)
                    &&& document_entries(stages@[1]) == project_stage_entries(depth as nat)
                },
                Err(e) => depth == 0 && e == WorkloadError::InvalidDepth,
            },
    {
        match self.create_read_path(depth) {
            Ok(path) => {
                let mut condition = empty_document();
                insert_field(
                    &mut condition,
                    path.as_str(),
                    Field::Text(String::from_str("read_target")),
                );
                let mut match_stage = empty_document();
                insert_field(&mut match_stage, "$match", Field::Nested(condition));

                let mut reference = String::from_str("$");
                reference.append(path.as_str());
                let mut projection = empty_document();
                insert_field(&mut projection, "_id", Field::Int32(0));
                proof {
                    reveal_strlit("_id");
                    reveal_strlit("value");
                    assert(document_entries(projection)[0].0.len() != "value"@.len());
                    assert(!has_key(document_entries(projection), "value"@));
                }
                insert_field(&mut projection, "value", Field::Text(reference));
                assert(document_entries(projection) =~= seq![
                    ("_id"@, FieldModel::Int32(0)),
                    ("value"@, FieldModel::Text("$"@ + read_path_text(depth as nat))),
                ]);
                let mut project_stage = empty_document();
                insert_field(&mut project_stage, "$project", Field::Nested(projection));

                let mut stages: Vec<bson::Document> = Vec::new();
                stages.push(match_stage);
                stages.push(project_stage);
                Ok(stages)
            },
            Err(e) => Err(e),
        }
    }

    /// The keys of the optional index: the read path, ascending.
    pub fn create_index_keys(&self, depth: u8) -> (r: Result<bson::Document, WorkloadError>)
        ensures
            match r {
                Ok(keys) => depth >= 1 && document_entries(keys) == index_key_entries(depth as nat),
                Err(e) => depth == 0 && e == WorkloadError::InvalidDepth,
            },
    {
        match self.create_read_path(depth) {
            Ok(path) => {
                let mut keys = empty_document();
                insert_field(&mut keys, path.as_str(), Field::Int32(1));
                Ok(keys)
            },
            Err(e) => Err(e),
        }
    }
}

impl Database for MongoDB {
    open spec fn label(&self) -> Seq<char> {
        "MongoDB"@
    }

    open spec fn holds_connection(&self) -> bool {
        self.connected()
    }

    fn name(&self) -> (text: &'static str) {
        "MongoDB"
    }

    fn is_connected(&self) -> (yes: bool) {
        self.connected
    }

    fn mark_connected(&mut self) {
        self.connected = true;
    }

    fn mark_disconnected(&mut self) {
        self.connected = false;
    }

    fn run_queries(
        &self,
        depth: u8,
        num_reads: usize,
        num_writes: usize,
        use_index: bool,
    ) -> (r: Result<WorkloadRun, WorkloadError>) {
        WorkloadRun::plan(self.connected, depth, num_reads, num_writes, use_index)
    }
}

/// The two paths of a depth take the same way down, of `depth - 1` steps,
/// and part only in their last segment.
pub proof fn lemma_paths_differ_in_last_segment(depth: nat)
    requires
        depth >= 1,
    ensures
        read_path_text(depth) == traversal(depth) + "read_target"@,
        write_path_text(depth) == traversal(depth) + "write_target"@,
        traversal(depth).len() == (depth - 1) * traversal_step().len(),
        "read_target"@ != "write_target"@,
{
    lemma_repeated_len(traversal_step(), (depth - 1) as nat);
    reveal_strlit("read_target");
    reveal_strlit("write_target");
    assert("read_target"@.len() != "write_target"@.len());
}

} // verus!
