//! Verified core of the Subsurface engine: quality grading, opportunity
//! lifecycle, evidence budgeting, confidence rules, auto-publish guards,
//! GitHub destination parsing and Work Item rendering, the project tree,
//! and the other decision logic behind the desktop app.
pub mod text;
pub mod grade;
pub mod evidence;
pub mod budget;
pub mod confidence;
pub mod staleness;
pub mod excavate;
pub mod provider;
pub mod site;
pub mod report;
pub mod opportunity;
pub mod assessment;
pub mod tree;
pub mod project;
pub mod url;
pub mod github;
pub mod candidate;
pub mod command;
pub mod receipt;
pub mod hash;
pub mod automation;
pub mod oauth;
pub mod notes;
pub mod workspace;
pub mod runtime;
pub mod mcp;
pub mod home;
