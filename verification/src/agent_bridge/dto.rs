//! The wire shape of an unread report as the agent sends it. Every field
//! is required; `null` is allowed only where the type is an `Option`.

use vstd::prelude::*;

use crate::config::model::opt_view;

verus! {

/// One message reference inside a report.
#[derive(Debug, Clone)]
pub struct MessageRefDto {
    pub id: String,
    pub from: Option<String>,
    pub subject: Option<String>,
    pub link: Option<String>,
}

/// The spec-level value of a [`MessageRefDto`].
pub struct MessageDtoView {
    pub id: Seq<char>,
    pub from: Option<Seq<char>>,
    pub subject: Option<Seq<char>>,
    pub link: Option<Seq<char>>,
}

impl View for MessageRefDto {
    type V = MessageDtoView;

    open spec fn view(&self) -> MessageDtoView {
        MessageDtoView {
            id: self.id@,
            from: opt_view(self.from),
            subject: opt_view(self.subject),
            link: opt_view(self.link),
        }
    }
}

/// A report of a service's unread state. `observed_at` is carried along
/// as information only.
#[derive(Debug, Clone)]
pub struct UnreadReportDto {
    pub service_id: String,
    pub count: Option<i64>,
    pub messages: Vec<MessageRefDto>,
    pub recipe_id: String,
    pub observed_at: u64,
    pub icon_candidates: Vec<String>,
}

/// The spec-level value of an [`UnreadReportDto`].
pub struct ReportDtoView {
    pub service_id: Seq<char>,
    pub count: Option<i64>,
    pub messages: Seq<MessageDtoView>,
    pub recipe_id: Seq<char>,
    pub observed_at: u64,
    pub icon_candidates: Seq<Seq<char>>,
}

impl View for UnreadReportDto {
    type V = ReportDtoView;

    open spec fn view(&self) -> ReportDtoView {
        ReportDtoView {
            service_id: self.service_id@,
            count: self.count,
            messages: self.messages@.map_values(|m: MessageRefDto| m@),
            recipe_id: self.recipe_id@,
            observed_at: self.observed_at,
            icon_candidates: self.icon_candidates@.map_values(|s: String| s@),
        }
    }
}

} // verus!
