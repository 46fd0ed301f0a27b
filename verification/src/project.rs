//! A Project is a Site under the name the app uses for it.
pub use crate::site::{Site as Project, SiteError as ProjectError, SiteIndexReport as ProjectIndexReport};
