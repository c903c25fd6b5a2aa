//! Resolves a mod package together with its transitive dependencies and
//! plans the downloads: parsing dependency declarations, selecting a
//! release compatible with a target platform version, expanding the
//! dependency graph with cycle and depth protection, deduplicating the
//! plan, and aggregating per-download results into one report.
//!
//! Fetching metadata and artifact bytes over the network is the caller's
//! job; every decision about what to fetch, what to install and what to
//! report is made here, under contract.

pub mod deps;
pub mod ident;
pub mod model;
pub mod modlist;
pub mod plan;
pub mod report;
pub mod resolve;
pub mod select;
pub mod strutil;
pub mod urls;
pub mod version;
