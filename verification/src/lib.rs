//! Static analyzer for the public module tree of a package.
//!
//! Starting from a package directory, the analyzer locates the entry source
//! file of the package's primary build target, follows the `pub mod`
//! declarations through the two on-disk module layouts (`<name>.rs` and
//! `<name>/mod.rs`), parses each reachable file once, and aggregates the
//! modules, structs, enums and functions it finds into one path-addressed
//! [`data::AnalysisResult`].
//!
//! All file-system access is performed by the caller: the traversal is a
//! state machine ([`engine::Analyzer`]) that asks queries (does this file
//! exist? what does it contain?) and consumes the answers, so that every
//! decision the analysis makes is ordinary verified code.

pub mod data;
pub mod extract;
pub mod engine;
