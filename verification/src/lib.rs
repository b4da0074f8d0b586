//! Verified core of the Seichi Portal backend: validated value types, the
//! rules of the Redmine importer, and the request policies of the HTTP layer.

pub mod validation;
pub mod non_empty_string;
pub mod non_empty_vec;
pub mod ordered_unique_vec;
pub mod integer_id;
pub mod text;
pub mod tokens;
pub mod redmine;
pub mod web;
pub mod schemas;
pub mod numbers;
pub mod lookup;
pub mod uuid_text;
