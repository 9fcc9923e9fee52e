//! Verified core of a multiplayer game runtime's tooling.
pub mod channel;
pub mod concept_functions;
pub mod concept_struct;
pub mod concepts;
pub mod diffs;
pub mod dispatch;
pub mod field_laws;
pub mod fields;
pub mod files;
pub mod floats;
pub mod function_laws;
pub mod handlers;
pub mod items;
pub mod registry;
pub mod scope_laws;
pub mod semipretty;
pub mod server;
pub mod server_laws;
pub mod struct_laws;
pub mod text;
pub mod token_laws;
pub mod tokens;
pub mod value_laws;
pub mod values;
