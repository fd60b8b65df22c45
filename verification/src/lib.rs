//! Verified core of a documentation generator's configuration and
//! preprocessing: provider names, configuration defaults, project-name
//! discovery in build manifests, and the tally of per-file analyses.

pub mod code_analyze;
pub mod config;
pub mod project_name;
pub mod text;
