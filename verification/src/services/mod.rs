//! Service bookkeeping that needs no webview: generating ids for new
//! services, and planning the webview operations a configuration change
//! implies.

pub mod book;
pub mod reconcile;
pub mod slug;
pub mod snapshot;

pub use book::{profile_data_to_remove, ServiceBook, StartupActivation};
pub use reconcile::{diff, Plan, WebviewOp};
pub use slug::slugify;
pub use snapshot::ManagerSnapshot;
