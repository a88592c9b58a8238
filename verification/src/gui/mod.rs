//! The desktop client: localization, presentation and the decisions of its
//! connection to the daemon.

pub mod client;
pub mod format;
pub mod i18n;
pub mod promises;
pub mod session;
pub mod view_model;
