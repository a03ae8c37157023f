use bson::{Bson, Document};
use energy_benchmark::databases::database::Database;
use energy_benchmark::databases::mongodb::{MongoDB, ReadOptions};
use energy_benchmark::databases::postgres::PostgreSQL;
use energy_benchmark::error::WorkloadError;

fn document(entries: Vec<(&str, Bson)>) -> Document {
    let mut doc = Document::new();
    for (key, value) in entries {
        doc.insert(key, value);
    }
    doc
}

#[test]
fn backends_start_without_a_connection() {
    let mut mongo = MongoDB::new();
    assert_eq!(mongo.name(), "MongoDB");
    assert!(!mongo.is_connected());
    mongo.mark_connected();
    assert!(mongo.is_connected());
    mongo.mark_disconnected();
    assert!(!mongo.is_connected());

    let mut postgres = PostgreSQL::new();
    assert_eq!(postgres.name(), "PostgreSQL");
    assert!(!postgres.is_connected());
    postgres.mark_connected();
    assert!(postgres.is_connected());
    postgres.mark_disconnected();
    assert!(!postgres.is_connected());
}

#[test]
fn document_store_paths_use_dot_notation() {
    let db = MongoDB::new();
    assert_eq!(db.create_read_path(1).unwrap(), "read_target");
    assert_eq!(db.create_write_path(1).unwrap(), "write_target");
    assert_eq!(db.create_read_path(3).unwrap(), "children.children.read_target");
    assert_eq!(db.create_write_path(3).unwrap(), "children.children.write_target");
}

#[test]
fn relational_paths_name_the_index_of_each_child() {
    let db = PostgreSQL::new();
    assert_eq!(db.create_read_path(1).unwrap(), "read_target");
    assert_eq!(db.create_write_path(1).unwrap(), "write_target");
    assert_eq!(db.create_read_path(3).unwrap(), "children,0,children,0,read_target");
    assert_eq!(db.create_write_path(3).unwrap(), "children,0,children,0,write_target");
}

#[test]
fn paths_differ_only_in_their_last_segment() {
    let mongo = MongoDB::new();
    let postgres = PostgreSQL::new();
    for depth in [1u8, 2, 3, 5, 10] {
        let read = mongo.create_read_path(depth).unwrap();
        let write = mongo.create_write_path(depth).unwrap();
        let read: Vec<&str> = read.split('.').collect();
        let write: Vec<&str> = write.split('.').collect();
        assert_eq!(read.len(), depth as usize);
        assert_eq!(write.len(), depth as usize);
        assert_eq!(read[..read.len() - 1], write[..write.len() - 1]);
        assert!(read[..read.len() - 1].iter().all(|segment| *segment == "children"));
        assert_eq!(read[read.len() - 1], "read_target");
        assert_eq!(write[write.len() - 1], "write_target");

        let read = postgres.create_read_path(depth).unwrap();
        let write = postgres.create_write_path(depth).unwrap();
        let read: Vec<&str> = read.split(',').collect();
        let write: Vec<&str> = write.split(',').collect();
        assert_eq!(read.len(), 2 * (depth as usize - 1) + 1);
        assert_eq!(read[..read.len() - 1], write[..write.len() - 1]);
        assert_eq!(read.iter().filter(|segment| **segment == "children").count(), depth as usize - 1);
        assert_eq!(read.iter().filter(|segment| **segment == "0").count(), depth as usize - 1);
        assert_eq!(read[read.len() - 1], "read_target");
        assert_eq!(write[write.len() - 1], "write_target");
    }
}

#[test]
fn depth_zero_is_refused_by_the_document_store() {
    let db = MongoDB::new();
    assert_eq!(db.create_read_path(0), Err(WorkloadError::InvalidDepth));
    assert_eq!(db.create_write_path(0), Err(WorkloadError::InvalidDepth));
    assert_eq!(db.create_read_filter(0), Err(WorkloadError::InvalidDepth));
    assert_eq!(db.create_update(0), Err(WorkloadError::InvalidDepth));
    assert_eq!(db.create_update_with(0, "x"), Err(WorkloadError::InvalidDepth));
    assert_eq!(db.create_read_pipeline(0), Err(WorkloadError::InvalidDepth));
    assert_eq!(db.create_index_keys(0), Err(WorkloadError::InvalidDepth));
}

#[test]
fn depth_zero_is_refused_by_the_relational_store() {
    let db = PostgreSQL::new();
    assert_eq!(db.create_read_path(0), Err(WorkloadError::InvalidDepth));
    assert_eq!(db.create_write_path(0), Err(WorkloadError::InvalidDepth));
    assert_eq!(db.create_containment_json(0), Err(WorkloadError::InvalidDepth));
    assert_eq!(db.create_read_query(0), Err(WorkloadError::InvalidDepth));
    assert_eq!(db.create_write_query(0), Err(WorkloadError::InvalidDepth));
    assert_eq!(db.create_write_query_with(0, "x"), Err(WorkloadError::InvalidDepth));
}

#[test]
fn update_filter_selects_the_sentinel() {
    let db = MongoDB::new();
    assert_eq!(
        db.create_read_filter(3).unwrap(),
        document(vec![("children.children.read_target", Bson::String("read_target".to_string()))]),
    );
    assert_eq!(
        db.create_read_filter(1).unwrap(),
        document(vec![("read_target", Bson::String("read_target".to_string()))]),
    );
}

#[test]
fn update_sets_the_write_path() {
    let db = MongoDB::new();
    let assignment =
        document(vec![("children.write_target", Bson::String("0123456789abcdef".to_string()))]);
    assert_eq!(
        db.create_update_with(2, "0123456789abcdef").unwrap(),
        document(vec![("$set", Bson::Document(assignment))]),
    );
}

#[test]
fn update_carries_a_fresh_payload_of_the_fixed_size() {
    let db = MongoDB::new();
    let update = db.create_update(3).unwrap();
    assert_eq!(update.len(), 1);
    let assignment = update.get_document("$set").unwrap();
    assert_eq!(assignment.len(), 1);
    let payload = assignment.get_str("children.children.write_target").unwrap();
    assert_eq!(payload.len(), 16);
    assert!(payload.chars().all(|c| c.is_ascii_alphanumeric()));
    let again = db.create_update(3).unwrap();
    assert_ne!(update, again);
}

#[test]
fn read_pipeline_matches_then_projects_the_value_alone() {
    let db = MongoDB::new();
    let stages = db.create_read_pipeline(3).unwrap();
    let condition =
        document(vec![("children.children.read_target", Bson::String("read_target".to_string()))]);
    let projection = document(vec![
        ("_id", Bson::Int32(0)),
        ("value", Bson::String("$children.children.read_target".to_string())),
    ]);
    assert_eq!(
        stages,
        vec![
            document(vec![("$match", Bson::Document(condition))]),
            document(vec![("$project", Bson::Document(projection))]),
        ],
    );
    let keys: Vec<&String> = stages[1].get_document("$project").unwrap().keys().collect();
    assert_eq!(keys, vec!["_id", "value"]);
}

#[test]
fn index_is_on_the_read_path() {
    let db = MongoDB::new();
    assert_eq!(
        db.create_index_keys(3).unwrap(),
        document(vec![("children.children.read_target", Bson::Int32(1))]),
    );
    assert_eq!(db.create_index_keys(3).unwrap(), db.create_index_keys(3).unwrap());
}

#[test]
fn reads_are_batched_by_the_number_of_documents() {
    let db = MongoDB::new();
    assert_eq!(db.create_read_options(3000), ReadOptions { batch_size: Some(3000) });
    assert_eq!(db.read_options_for(3000), ReadOptions { batch_size: Some(3000) });
    assert_eq!(db.read_options_for(0), ReadOptions { batch_size: Some(0) });
    assert_eq!(
        db.read_options_for(u32::MAX as usize),
        ReadOptions { batch_size: Some(u32::MAX) },
    );
    assert_eq!(
        db.read_options_for((1usize << 32) + 7),
        ReadOptions { batch_size: Some(7) },
    );
}

#[test]
fn containment_json_is_the_chain_down_to_the_sentinel() {
    let db = PostgreSQL::new();
    assert_eq!(
        db.create_containment_json(1).unwrap().to_string(),
        "{\"read_target\":\"read_target\"}",
    );
    assert_eq!(
        db.create_containment_json(3).unwrap().to_string(),
        "{\"children\":[{\"children\":[{\"read_target\":\"read_target\"}]}]}",
    );
    let value = db.create_containment_json(2).unwrap();
    assert_eq!(value["children"][0]["read_target"], "read_target");
    assert_eq!(value["children"].as_array().unwrap().len(), 1);
    assert_eq!(value.as_object().unwrap().len(), 1);
}

#[test]
fn read_query_extracts_the_value_of_matching_rows() {
    let db = PostgreSQL::new();
    assert_eq!(
        db.create_read_query(2).unwrap(),
        "SELECT data #> '{children,0,read_target}'::text[] \n            FROM hierarchical_data WHERE data @> '{\"children\":[{\"read_target\":\"read_target\"}]}'",
    );
    assert_eq!(
        db.create_read_query(1).unwrap(),
        "SELECT data #> '{read_target}'::text[] \n            FROM hierarchical_data WHERE data @> '{\"read_target\":\"read_target\"}'",
    );
}

#[test]
fn write_statement_sets_the_payload_in_matching_rows() {
    let db = PostgreSQL::new();
    assert_eq!(
        db.create_write_query_with(2, "0123456789abcdef").unwrap(),
        "UPDATE hierarchical_data SET data = jsonb_set(\n                data,\n                '{children,0,write_target}'::text[],\n                '\"0123456789abcdef\"'::jsonb\n            )\n            WHERE data @> '{\"children\":[{\"read_target\":\"read_target\"}]}'",
    );
}

#[test]
fn write_statement_carries_a_fresh_payload_of_the_fixed_size() {
    let db = PostgreSQL::new();
    let statement = db.create_write_query(2).unwrap();
    let head = "UPDATE hierarchical_data SET data = jsonb_set(\n                data,\n                '{children,0,write_target}'::text[],\n                '\"";
    let tail = "\"'::jsonb\n            )\n            WHERE data @> '{\"children\":[{\"read_target\":\"read_target\"}]}'";
    assert!(statement.starts_with(head));
    assert!(statement.ends_with(tail));
    let payload = &statement[head.len()..statement.len() - tail.len()];
    assert_eq!(payload.len(), 16);
    assert!(payload.chars().all(|c| c.is_ascii_alphanumeric()));
    assert_eq!(statement, db.create_write_query_with(2, payload).unwrap());
    assert_ne!(statement, db.create_write_query(2).unwrap());
}

#[test]
fn relational_statements_are_safe_to_repeat() {
    let db = PostgreSQL::new();
    assert_eq!(
        db.create_index_statement(),
        "CREATE INDEX IF NOT EXISTS idx_gin_data ON hierarchical_data USING GIN (data jsonb_path_ops)",
    );
    assert_eq!(db.create_index_statement(), db.create_index_statement());
    assert_eq!(db.clean_statement(), "DROP TABLE IF EXISTS hierarchical_data");
    assert_eq!(
        db.create_table_statement(),
        "CREATE TABLE IF NOT EXISTS hierarchical_data (\n                        id SERIAL PRIMARY KEY,\n                        data JSONB NOT NULL\n                    )",
    );
    assert_eq!(db.copy_statement(), "COPY hierarchical_data (data) FROM STDIN (FORMAT binary)");
}
