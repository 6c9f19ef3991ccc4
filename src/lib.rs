//! Protection sequence for a desktop application's install directory:
//! natural ordering of installed versions, retention decisions, the
//! `last_version` configuration rewrite, and the step-by-step protection run.

pub mod catalog;
pub mod config;
pub mod natural;
pub mod paths;
pub mod protection;
pub mod text;
pub mod versions;
