//! Interactive dependency-update engine for a `package.json` manifest.
//!
//! The library owns the manifest model, the semantic-version classification
//! rules, the selection state machine that drives the two dependency tables,
//! the bounded-concurrency fetch pipeline, and the event dispatch that ties
//! them together.  Terminal rendering and all I/O live outside the library.

mod application;
mod args;
mod entries;
mod fetched;
mod json;
mod package;
mod pipeline;
mod project;
mod registry;
mod report;
mod version;

pub use application::{Action, Application, ApplicationEvent, DependencyTable, InputKey, State, TableState, ToggleSet};
pub use args::Args;
pub use fetched::VersionMap;
pub use registry::{decode_metadata, FetchError, LatestVersion, Metadata};
pub use report::{build_report, Report, ReportSet};
pub use package::PackageJson;
pub use pipeline::FetchPipeline;
pub use project::{ManifestError, Project};
pub use version::VersionSection;
pub use version::Version;
pub use version::classify;
pub use version::parse_version;
