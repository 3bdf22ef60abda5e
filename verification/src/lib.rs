pub mod collections;
pub mod column_value;
pub mod database;
pub mod db_list;
pub mod fs_persist;
pub mod indexeddb;
pub mod json;
pub mod leadership;
pub mod metadata;
pub mod names;
pub mod numbers;
pub mod open;
pub mod procedure;
pub mod sql;
pub mod statement;
pub mod storage;
pub mod sync_operations;
pub mod telemetry;
pub mod text;
pub mod types;
pub mod verbs;
pub mod write_queue;
