pub mod api_error;
pub mod attachments;
pub mod discord_events;
pub mod field_update;
pub mod paths;
pub mod problem;
pub mod rate_limit;
pub mod search_status;
pub mod session;
pub mod turnstile;
pub mod comment_uploads;
pub mod form_operations;
pub mod question_schemas;
pub mod cursors;
