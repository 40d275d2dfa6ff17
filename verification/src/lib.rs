//! Execution metrics of workflow runs.

pub mod collector;
pub mod collector_event_laws;
pub mod collector_laws;
pub mod database_laws;
pub mod db;
pub mod db_laws;
pub mod double;
pub mod double_laws;
pub mod events;
pub mod json;
pub mod json_laws;
pub mod lifecycle_laws;
pub mod memory;
pub mod metrics;
pub mod metrics_laws;
pub mod monitor_event_laws;
pub mod operation_laws;
pub mod paint;
pub mod report;
pub mod report_laws;
pub mod response_laws;
pub mod retry;
pub mod status;
pub mod task_monitor;
pub mod task_monitor_laws;
pub mod text;
pub mod text_laws;
pub mod time;
pub mod uuid;
pub mod value_laws;
pub mod watchlist;
pub mod write_laws;
