//! Verified core of an environment-variable language server: text offsets,
//! value masking, configuration merging, dotenv diagnostics, semantic tokens,
//! inlay hints, command planning, the workspace index and the per-language
//! rules that recognise environment access.
pub mod text;
pub mod config;
pub mod position;
pub mod dotenv;
pub mod diagnostics;
pub mod inlay_hints;
pub mod error;
pub mod json;
pub mod config_file;
pub mod commands;
pub mod paths;
pub mod variables;
pub mod order;
pub mod keyed;
pub mod workspace;
pub mod documents;
pub mod services;
pub mod handlers;
pub mod patterns;
pub mod semantic_tokens;
pub mod languages;
pub mod registry;
pub mod syntax_tree;
