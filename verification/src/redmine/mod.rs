pub mod inquiry;
pub mod extract;
pub mod model;
pub mod paging;
pub mod relations;
pub mod attachment_index;
pub mod associate;
pub mod uploads;
pub mod config;
pub mod config_check;
pub mod questions;
pub mod urls;
pub mod form_check;
pub mod cli;
pub mod api_client;
pub mod stubs;
pub mod issue_input;
pub mod answer_lookup;
pub mod upload_groups;
pub mod triage;
pub mod targets;
pub mod prepare;
