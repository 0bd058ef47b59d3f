//! The notification pipeline for unread reports: deciding what changed
//! ([`diff`]), remembering which message ids were already notified about
//! ([`seen`]), the notification texts ([`text`]), and turning a decision
//! into notifications to send ([`dispatcher`], [`sink`]).

pub mod diff;
pub mod dispatcher;
pub mod seen;
pub mod sink;
pub mod text;

pub use diff::{evaluate, DiffOutcome, MessageRef, ServiceNotifyState};
pub use dispatcher::{notifications_to_show, plan_notifications, Dispatcher};
pub use sink::{NotificationSink, OutgoingNotification};
