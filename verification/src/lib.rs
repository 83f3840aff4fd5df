//! Verified core of the lemurclaw launcher and its publishing toolkit.

pub mod text;
pub mod config;
pub mod launcher;
pub mod assets;
pub mod code_mode;
pub mod gui;
pub mod manifest;
pub mod source_rewrite;
pub mod brand;
pub mod display;
pub mod otel;
pub mod json;
pub mod chat;
pub mod chat_stream;
pub mod glue;
pub mod forks;
pub mod rename;
pub mod cluster;
pub mod graph;
pub mod toml_value;
pub mod workspace;
pub mod patches;
pub mod sizes;
pub mod environments;
pub mod fixups;
pub mod include_paths;
pub mod strip_v8;
pub mod reexports;
pub mod merge_text;
pub mod aggregate;

pub use config::{Cli, Frontend, RuntimeConfig};
pub use launcher::run;
