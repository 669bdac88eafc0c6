//! Turning Rust scripts, expressions and stream filters into Cargo packages:
//! manifest extraction, template expansion, manifest merging and the
//! decisions around building and caching.

pub mod action;
pub mod arguments;
pub mod build_kind;
pub mod cache;
pub mod command;
pub mod comments;
pub mod consts;
pub mod error;
pub mod file_assoc;
pub mod fix_paths;
pub mod input;
pub mod manifest;
pub mod markdown;
pub mod merge;
pub mod package;
pub mod paths;
pub mod platform;
pub mod prelude;
pub mod patterns;
pub mod table;
pub mod templates;
pub mod text;
pub mod toml_model;
pub mod util;
