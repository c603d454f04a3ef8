//! Marrow: a graph of the symbols of a code base, kept in SQLite, and what is read out of
//! it for an agent. Texts, tables and decisions are computed here from plain values; disk,
//! network and prompts belong to the program around the library.
pub mod arguments;
pub mod batch;
pub mod bench;
pub mod capsule;
pub mod class_map;
pub mod cli;
pub mod condense;
pub mod config;
pub mod files;
pub mod graph;
pub mod impact;
pub mod install;
pub mod installer;
pub mod json;
pub mod launch;
pub mod model;
pub mod order;
pub mod outline;
pub mod packaging;
pub mod paths;
pub mod perf;
pub mod pipeline;
pub mod registry;
pub mod reach;
pub mod rules;
pub mod scan;
pub mod server;
pub mod settings;
pub mod skeleton;
pub mod store;
pub mod symbols;
pub mod syntax;
pub mod targets;
pub mod text;
pub mod tokens;
pub mod tools;
pub mod trace;
pub mod walk;
pub mod watch;
