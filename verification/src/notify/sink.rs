//! The boundary between planning a notification and showing one.

use vstd::prelude::*;

use crate::config::ServiceId;
use crate::error::AppError;
use crate::weburl::{ParsedUrl, UrlView};

verus! {

/// One notification the dispatcher decided to show.
#[derive(Debug)]
pub struct OutgoingNotification {
    pub service: ServiceId,
    pub title: String,
    pub body: String,
    /// Where the message lives, when the report gave a link.
    pub link: Option<ParsedUrl>,
}

/// The spec-level value of an [`OutgoingNotification`].
pub struct NotificationView {
    pub service: Seq<char>,
    pub title: Seq<char>,
    pub body: Seq<char>,
    pub link: Option<UrlView>,
}

impl View for OutgoingNotification {
    type V = NotificationView;

    open spec fn view(&self) -> NotificationView {
        NotificationView {
            service: self.service@,
            title: self.title@,
            body: self.body@,
            link: match self.link {
                Some(u) => Some(u@),
                None => None,
            },
        }
    }
}

impl Clone for OutgoingNotification {
    fn clone(&self) -> (r: Self)
        ensures
            r@ == self@,
    {
        OutgoingNotification {
            service: self.service.clone(),
            title: self.title.clone(),
            body: self.body.clone(),
            link: match &self.link {
                Some(u) => Some(u.clone()),
                None => None,
            },
        }
    }
}

impl PartialEq for OutgoingNotification {
    fn eq(&self, other: &Self) -> (r: bool) {
        self.service == other.service && self.title == other.title && self.body == other.body && match (
            &self.link,
            &other.link,
        ) {
            (Some(a), Some(b)) => a == b,
            (None, None) => true,
            _ => false,
        }
    }
}

impl Eq for OutgoingNotification {}

impl vstd::std_specs::cmp::PartialEqSpecImpl for OutgoingNotification {
    open spec fn obeys_eq_spec() -> bool {
        true
    }

    open spec fn eq_spec(&self, other: &Self) -> bool {
        &&& self.service@ == other.service@
        &&& self.title@ == other.title@
        &&& self.body@ == other.body@
        &&& match (self.link, other.link) {
            (Some(a), Some(b)) => a@.serialization == b@.serialization,
            (None, None) => true,
            _ => false,
        }
    }
}

/// Shows a notification, or says why it could not. Each implementation
/// says, through [`NotificationSink::shows`], what its answers mean.
pub trait NotificationSink {
    /// `r` is what this sink answers when asked to show `n`. An
    /// implementation that says nothing more leaves every answer open.
    closed spec fn shows(&self, n: NotificationView, r: Result<(), AppError>) -> bool {
        true
    }

    /// Shows `notification`; the answer is the sink's for it.
    fn show(&self, notification: OutgoingNotification) -> (r: Result<(), AppError>)
        ensures
            self.shows(notification@, r),
    ;
}

} // verus!
