//! Verified core of the GUIYI engine: identifiers, permissions, project paths,
//! diagnostics, the schema dialect, tactical Stage rules and agent session control.

pub mod hash;
mod keyed;
mod text;
pub mod access;
pub mod pipeline;
pub mod agent;
pub mod asset;
pub mod authoring;
pub mod catalog;
pub mod command;
pub mod content;
pub mod diagnostics;
pub mod diagnostics_json;
pub mod ids;
pub mod json;
pub mod json_text;
pub mod messages;
pub mod permissions;
pub mod project;
pub mod project_path;
pub mod protocol;
pub mod query;
pub mod runtime;
pub mod schema;
pub mod stage;
pub mod storage;
pub mod stage_json;
pub mod stage_codec;
pub mod stage_compiler;
pub mod tactical;

pub use hash::deterministic_hash;
