//! The relational store: paths as text arrays, and queries as SQL over a
//! JSONB column. Documents are selected by containment: a row matches where
//! its document holds the chain that ends in the sentinel.

use vstd::prelude::*;
use vstd::string::StringExecFns;
use crate::benchmark::data_generator::WRITE_TARGET_BYTE_SIZE;
use crate::benchmark::data_generator::generate_fixed_size_word;
use crate::benchmark::random::alphanumeric_text;
use crate::databases::json::json_array_of;
use crate::databases::json::json_object_of;
use crate::databases::json::json_render;
use crate::databases::json::json_string;
use crate::databases::json::json_text;
use crate::databases::json::plain;
use crate::databases::json::quoted;
use crate::databases::json::unescaped;
use crate::benchmark::run::WorkloadRun;
use crate::databases::database::Database;
use crate::error::WorkloadError;
use crate::text::lemma_repeated_len;
use crate::text::repeat_text;
use crate::text::repeated;

verus! {

/// One step down the chain: the key of the children, then the index of the
/// only child.
pub open spec fn traversal_step() -> Seq<char> {
    "children,0,"@
}

/// The way from the top of a document of `depth` levels down to its leaf.
pub open spec fn traversal(depth: nat) -> Seq<char> {
    repeated(traversal_step(), (depth - 1) as nat)
}

/// The path to `read_target` in a document of `depth` levels, as the
/// elements of a text array.
pub open spec fn read_path_text(depth: nat) -> Seq<char> {
    traversal(depth) + "read_target"@
}

/// The path to `write_target` in a document of `depth` levels, as the
/// elements of a text array.
pub open spec fn write_path_text(depth: nat) -> Seq<char> {
    traversal(depth) + "write_target"@
}

/// The JSON that a targetable document of `depth` levels contains: the chain
/// of single children, and at its end a `read_target` with the sentinel.
pub open spec fn containment_text(depth: nat) -> Seq<char>
    decreases depth,
{
    if depth <= 1 {
        seq!['{'] + quoted("read_target"@) + seq![':'] + quoted("read_target"@) + seq!['}']
    } else {
        seq!['{'] + quoted("children"@) + seq![':'] + (seq!['['] + containment_text(
            (depth - 1) as nat,
        ) + seq![']']) + seq!['}']
    }
}

/// The query that reads: of each row that contains the sentinel chain, the
/// value at the read path and nothing else.
pub open spec fn read_query_text(depth: nat) -> Seq<char> {
    "SELECT data #> '{"@ + read_path_text(depth)
        + "}'::text[] \n            FROM hierarchical_data WHERE data @> '"@ + containment_text(
        depth,
    ) + "'"@
}

/// The statement that writes: in each row that contains the sentinel chain,
/// the value at the write path becomes `payload`.
pub open spec fn write_query_text(depth: nat, payload: Seq<char>) -> Seq<char> {
    "UPDATE hierarchical_data SET data = jsonb_set(\n                data,\n                '{"@
        + write_path_text(depth) + "}'::text[],\n                '\""@ + payload
        + "\"'::jsonb\n            )\n            WHERE data @> '"@ + containment_text(depth)
        + "'"@
}

/// A payload as updates carry it: alphanumeric and of the fixed size.
pub open spec fn fresh_payload(payload: Seq<char>) -> bool {
    payload.len() == WRITE_TARGET_BYTE_SIZE && alphanumeric_text(payload)
}

/// The keys of the containment document are written as they are.
proof fn lemma_keys_are_plain()
    ensures
        plain("children"@),
        plain("read_target"@),
{
    reveal_strlit("children");
    reveal_strlit("read_target");
    assert forall|i: int| 0 <= i < "children"@.len() implies unescaped(
        #[trigger] "children"@[i],
    ) by {}
    assert forall|i: int| 0 <= i < "read_target"@.len() implies unescaped(
        #[trigger] "read_target"@[i],
    ) by {}
}

/// The relational store.
#[derive(Debug)]
pub struct PostgreSQL {
    connected: bool,
}

impl PostgreSQL {
    /// Whether a connection is held.
    pub closed spec fn connected(&self) -> bool {
        self.connected
    }

    /// A backend that is not connected yet.
    pub fn new() -> (db: PostgreSQL)
        ensures
            !db.connected(),
    {
        PostgreSQL { connected: false }
    }

    /// The path to `read_target`, `depth - 1` steps down. A depth of zero is
    /// refused.
    pub fn create_read_path(&self, depth: u8) -> (r: Result<String, WorkloadError>)
        ensures
            match r {
                Ok(path) => depth >= 1 && path@ == read_path_text(depth as nat),
                Err(e) => depth == 0 && e == WorkloadError::InvalidDepth,
            },
    {
        if depth == 0 {
            return Err(WorkloadError::InvalidDepth);
        }
        let steps: usize = (depth - 1) as usize;
        let mut path = repeat_text("children,0,", steps);
        path.append("read_target");
        Ok(path)
    }

    /// The path to `write_target`, `depth - 1` steps down. A depth of zero
    /// is refused.
    pub fn create_write_path(&self, depth: u8) -> (r: Result<String, WorkloadError>)
        ensures
            match r {
                Ok(path) => depth >= 1 && path@ == write_path_text(depth as nat),
                Err(e) => depth == 0 && e == WorkloadError::InvalidDepth,
            },
    {
        if depth == 0 {
            return Err(WorkloadError::InvalidDepth);
        }
        let steps: usize = (depth - 1) as usize;
        let mut path = repeat_text("children,0,", steps);
        path.append("write_target");
        Ok(path)
    }

    /// The JSON value that targetable documents of `depth` levels contain.
    pub fn create_containment_json(&self, depth: u8) -> (r: Result<
        serde_json::Value,
        WorkloadError,
    >)
        ensures
            match r {
                Ok(value) => depth >= 1 && json_text(value) == containment_text(depth as nat),
                Err(e) => depth == 0 && e == WorkloadError::InvalidDepth,
            },
    {
        if depth == 0 {
            return Err(WorkloadError::InvalidDepth);
        }
        proof {
            lemma_keys_are_plain();
        }
        let mut value = json_object_of("read_target", json_string("read_target"));
        let mut level: u8 = 1;
        while level < depth
            invariant
                1 <= level <= depth,
                plain("children"@),
                json_text(value) == containment_text(level as nat),
            decreases depth - level,
        {
            value = json_object_of("children", json_array_of(value));
            level = level + 1;
        }
        Ok(value)
    }

    /// The query that reads.
    pub fn create_read_query(&self, depth: u8) -> (r: Result<String, WorkloadError>)
        ensures
            match r {
                Ok(query) => depth >= 1 && query@ == read_query_text(depth as nat),
                Err(e) => depth == 0 && e == WorkloadError::InvalidDepth,
            },
    {
        let target_json = match self.create_containment_json(depth) {
            Ok(value) => value,
            Err(e) => { return Err(e); },
        };
        let read_path = match self.create_read_path(depth) {
            Ok(path) => path,
            Err(e) => { return Err(e); },
        };
        let mut query = String::from_str("SELECT data #> '{");
        query.append(read_path.as_str());
        query.append("}'::text[] \n            FROM hierarchical_data WHERE data @> '");
        query.append(json_render(&target_json).as_str());
        query.append("'");
        Ok(query)
    }

    /// The statement that writes `payload`. The payload goes into the
    /// statement as it is, between the quotes of a JSON string.
    pub fn create_write_query_with(&self, depth: u8, payload: &str) -> (r: Result<
        String,
        WorkloadError,
    >)
        ensures
            match r {
                Ok(query) => depth >= 1 && query@ == write_query_text(depth as nat, payload@),
                Err(e) => depth == 0 && e == WorkloadError::InvalidDepth,
            },
    {
        let write_path = match self.create_write_path(depth) {
            Ok(path) => path,
            Err(e) => { return Err(e); },
        };
        let target_json = match self.create_containment_json(depth) {
            Ok(value) => value,
            Err(e) => { return Err(e); },
        };
        let mut query = String::from_str(
            "UPDATE hierarchical_data SET data = jsonb_set(\n                data,\n                '{",
        );
        query.append(write_path.as_str());
        query.append("}'::text[],\n                '\"");
        query.append(payload);
        query.append("\"'::jsonb\n            )\n            WHERE data @> '");
        query.append(json_render(&target_json).as_str());
        query.append("'");
        Ok(query)
    }

    /// The statement that writes a payload drawn for this call: alphanumeric,
    /// and of the same size as the one it replaces.
    pub fn create_write_query(&self, depth: u8) -> (r: Result<String, WorkloadError>)
        ensures
            match r {
                Ok(query) => depth >= 1 && exists|payload: Seq<char>|
                    fresh_payload(payload) && query@ == #[trigger] write_query_text(
                        depth as nat,
                        payload,
                    ),
                Err(e) => depth == 0 && e == WorkloadError::InvalidDepth,
            },
    {
        if depth == 0 {
            return Err(WorkloadError::InvalidDepth);
        }
        let payload = generate_fixed_size_word(WRITE_TARGET_BYTE_SIZE);
        self.create_write_query_with(depth, payload.as_str())
    }

    /// The statement that makes the table, unless it is there.
    pub fn create_table_statement(&self) -> (statement: &'static str)
        ensures
            statement@
                == "CREATE TABLE IF NOT EXISTS hierarchical_data (\n                        id SERIAL PRIMARY KEY,\n                        data JSONB NOT NULL\n                    )"@,
    {
        "CREATE TABLE IF NOT EXISTS hierarchical_data (\n                        id SERIAL PRIMARY KEY,\n                        data JSONB NOT NULL\n                    )"
    }

    /// The statement that removes the table, if it is there.
    pub fn clean_statement(&self) -> (statement: &'static str)
        ensures
            statement@ == "DROP TABLE IF EXISTS hierarchical_data"@,
    {
        "DROP TABLE IF EXISTS hierarchical_data"
    }

    /// The statement that opens the binary bulk load of the document column.
    pub fn copy_statement(&self) -> (statement: &'static str)
        ensures
            statement@ == "COPY hierarchical_data (data) FROM STDIN (FORMAT binary)"@,
    {
        "COPY hierarchical_data (data) FROM STDIN (FORMAT binary)"
    }

    /// The statement that makes the optional index: one containment index
    /// over the whole document column, whatever the depth. It asks for the
    /// index only if it is not there, so that asking twice does no harm.
    pub fn create_index_statement(&self) -> (statement: &'static str)
        ensures
            statement@
                == "CREATE INDEX IF NOT EXISTS idx_gin_data ON hierarchical_data USING GIN (data jsonb_path_ops)"@,
    {
        "CREATE INDEX IF NOT EXISTS idx_gin_data ON hierarchical_data USING GIN (data jsonb_path_ops)"
    }
}

impl Database for PostgreSQL {
    open spec fn label(&self) -> Seq<char> {
        "PostgreSQL"@
    }

    open spec fn holds_connection(&self) -> bool {
        self.connected()
    }

    fn name(&self) -> (text: &'static str) {
        "PostgreSQL"
    }

    fn is_connected(&self) -> (yes: bool) {
        self.connected
    }

    fn mark_connected(&mut self) {
        self.connected = true;
    }

    fn mark_disconnected(&mut self) {
        self.connected = false;
    }

    fn run_queries(
        &self,
        depth: u8,
        num_reads: usize,
        num_writes: usize,
        use_index: bool,
    ) -> (r: Result<WorkloadRun, WorkloadError>) {
        WorkloadRun::plan(self.connected, depth, num_reads, num_writes, use_index)
    }
}

/// The two paths of a depth take the same way down, of `depth - 1` steps,
/// and part only in their last segment.
pub proof fn lemma_paths_differ_in_last_segment(depth: nat)
    requires
        depth >= 1,
    ensures
        read_path_text(depth) == traversal(depth) + "read_target"@,
        write_path_text(depth) == traversal(depth) + "write_target"@,
        traversal(depth).len() == (depth - 1) * traversal_step().len(),
        "read_target"@ != "write_target"@,
{
    lemma_repeated_len(traversal_step(), (depth - 1) as nat);
    reveal_strlit("read_target");
    reveal_strlit("write_target");
    assert("read_target"@.len() != "write_target"@.len());
}

} // verus!
