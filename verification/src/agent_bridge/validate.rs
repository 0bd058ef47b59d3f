//! Validation of an agent's unread report: the report must come from its
//! own service's webview, name a configured service, and keep to every
//! size, character and URL rule. The first rule broken, in the order
//! below, is the one reported.

use vstd::prelude::*;
use vstd::string::StringExecFns;

use crate::config::model::opt_view;
use crate::config::{is_id_char, is_valid_id, ServiceId};
use crate::host::{label_of, service_label};
use crate::net_guard::{host_disallowed, is_disallowed_host};
use crate::text::to_chars;
use crate::weburl::{parse_url, parsed_url, same_origin, same_origin_exec, HostView, ParsedUrl, UrlHost, UrlView};

use super::dto::{MessageDtoView, MessageRefDto, ReportDtoView, UnreadReportDto};

verus! {

/// The largest unread count accepted.
pub const MAX_COUNT: i64 = 1_000_000;

/// The most message references one report may carry.
pub const MAX_MESSAGES: usize = 100;

/// The longest message string field, in characters.
pub const MAX_STRING_LEN: usize = 512;

/// The longest recipe id, in characters.
pub const MAX_RECIPE_ID_LEN: usize = 64;

/// The most icon candidates one report may carry.
pub const MAX_ICON_CANDIDATES: usize = 8;

/// Why a report was rejected.
#[derive(Debug, Clone, Copy, PartialEq, Eq, Structural)]
pub enum ReportError {
    LabelMismatch,
    UnknownService,
    CallerOffOrigin,
    CountTooLarge,
    TooManyMessages,
    StringTooLong,
    InvalidLink,
    RecipeIdTooLong,
    RecipeIdInvalidChars,
    TooManyIconCandidates,
    IconCandidateInvalidUrl,
    IconCandidateInvalidScheme,
    IconCandidateDisallowedHost,
}

/// The stable machine-readable name of each rejection.
pub open spec fn report_kind(e: ReportError) -> Seq<char> {
    match e {
        ReportError::LabelMismatch => "label_mismatch"@,
        ReportError::UnknownService => "unknown_service"@,
        ReportError::CallerOffOrigin => "caller_off_origin"@,
        ReportError::CountTooLarge => "count_too_large"@,
        ReportError::TooManyMessages => "too_many_messages"@,
        ReportError::StringTooLong => "string_too_long"@,
        ReportError::InvalidLink => "invalid_link"@,
        ReportError::RecipeIdTooLong => "recipe_id_too_long"@,
        ReportError::RecipeIdInvalidChars => "recipe_id_invalid_chars"@,
        ReportError::TooManyIconCandidates => "too_many_icon_candidates"@,
        ReportError::IconCandidateInvalidUrl => "icon_candidate_invalid_url"@,
        ReportError::IconCandidateInvalidScheme => "icon_candidate_invalid_scheme"@,
        ReportError::IconCandidateDisallowedHost => "icon_candidate_disallowed_host"@,
    }
}

/// The human-readable text of each rejection.
pub open spec fn report_message(e: ReportError) -> Seq<char> {
    match e {
        ReportError::LabelMismatch => "calling webview label does not match the report's serviceId"@,
        ReportError::UnknownService => "service does not exist"@,
        ReportError::CallerOffOrigin => "calling webview is not on the service origin"@,
        ReportError::CountTooLarge => "count exceeds the maximum of 1000000"@,
        ReportError::TooManyMessages => "messages exceeds the maximum of 100"@,
        ReportError::StringTooLong => "a message string field exceeds the maximum of 512 characters"@,
        ReportError::InvalidLink => "a message link is not https on the service origin"@,
        ReportError::RecipeIdTooLong => "recipeId exceeds the maximum of 64 characters"@,
        ReportError::RecipeIdInvalidChars => "recipeId must match [a-z0-9-]"@,
        ReportError::TooManyIconCandidates => "iconCandidates exceeds the maximum of 8"@,
        ReportError::IconCandidateInvalidUrl => "an iconCandidate is not a valid URL"@,
        ReportError::IconCandidateInvalidScheme => "an iconCandidate must be http or https"@,
        ReportError::IconCandidateDisallowedHost => "an iconCandidate host is loopback, private or link-local"@,
    }
}

impl ReportError {
    /// The rejection's stable name, such as `count_too_large`.
    pub fn kind(&self) -> (k: &'static str)
        ensures
            k@ == report_kind(*self),
    {
        match self {
            ReportError::LabelMismatch => "label_mismatch",
            ReportError::UnknownService => "unknown_service",
            ReportError::CallerOffOrigin => "caller_off_origin",
            ReportError::CountTooLarge => "count_too_large",
            ReportError::TooManyMessages => "too_many_messages",
            ReportError::StringTooLong => "string_too_long",
            ReportError::InvalidLink => "invalid_link",
            ReportError::RecipeIdTooLong => "recipe_id_too_long",
            ReportError::RecipeIdInvalidChars => "recipe_id_invalid_chars",
            ReportError::TooManyIconCandidates => "too_many_icon_candidates",
            ReportError::IconCandidateInvalidUrl => "icon_candidate_invalid_url",
            ReportError::IconCandidateInvalidScheme => "icon_candidate_invalid_scheme",
            ReportError::IconCandidateDisallowedHost => "icon_candidate_disallowed_host",
        }
    }

    /// The rejection's human-readable text.
    pub fn message(&self) -> (m: &'static str)
        ensures
            m@ == report_message(*self),
    {
        match self {
            ReportError::LabelMismatch => "calling webview label does not match the report's serviceId",
            ReportError::UnknownService => "service does not exist",
            ReportError::CallerOffOrigin => "calling webview is not on the service origin",
            ReportError::CountTooLarge => "count exceeds the maximum of 1000000",
            ReportError::TooManyMessages => "messages exceeds the maximum of 100",
            ReportError::StringTooLong => "a message string field exceeds the maximum of 512 characters",
            ReportError::InvalidLink => "a message link is not https on the service origin",
            ReportError::RecipeIdTooLong => "recipeId exceeds the maximum of 64 characters",
            ReportError::RecipeIdInvalidChars => "recipeId must match [a-z0-9-]",
            ReportError::TooManyIconCandidates => "iconCandidates exceeds the maximum of 8",
            ReportError::IconCandidateInvalidUrl => "an iconCandidate is not a valid URL",
            ReportError::IconCandidateInvalidScheme => "an iconCandidate must be http or https",
            ReportError::IconCandidateDisallowedHost => "an iconCandidate host is loopback, private or link-local",
        }
    }
}

/// A message reference that passed validation; its link, if any, parsed.
#[derive(Debug)]
pub struct ValidMessageRef {
    pub id: String,
    pub from: Option<String>,
    pub subject: Option<String>,
    pub link: Option<ParsedUrl>,
}

/// The spec-level value of a [`ValidMessageRef`].
pub struct MessageView {
    pub id: Seq<char>,
    pub from: Option<Seq<char>>,
    pub subject: Option<Seq<char>>,
    pub link: Option<UrlView>,
}

impl View for ValidMessageRef {
    type V = MessageView;

    open spec fn view(&self) -> MessageView {
        MessageView {
            id: self.id@,
            from: opt_view(self.from),
            subject: opt_view(self.subject),
            link: match self.link {
                Some(u) => Some(u@),
                None => None,
            },
        }
    }
}

impl Clone for ValidMessageRef {
    fn clone(&self) -> (r: Self)
        ensures
            r@ == self@,
    {
        ValidMessageRef {
            id: self.id.clone(),
            from: clone_text(&self.from),
            subject: clone_text(&self.subject),
            link: match &self.link {
                Some(u) => Some(u.clone()),
                None => None,
            },
        }
    }
}

/// A report that passed every rule.
#[derive(Debug)]
pub struct ValidReport {
    service_id: ServiceId,
    count: Option<u32>,
    messages: Vec<ValidMessageRef>,
    recipe_id: String,
    observed_at: u64,
    icon_candidates: Vec<ParsedUrl>,
}

/// The spec-level value of a [`ValidReport`].
pub struct ReportView {
    pub service_id: Seq<char>,
    pub count: Option<u32>,
    pub messages: Seq<MessageView>,
    pub recipe_id: Seq<char>,
    pub observed_at: u64,
    pub icon_candidates: Seq<UrlView>,
}

impl View for ValidReport {
    type V = ReportView;

    closed spec fn view(&self) -> ReportView {
        ReportView {
            service_id: self.service_id@,
            count: self.count,
            messages: self.messages@.map_values(|m: ValidMessageRef| m@),
            recipe_id: self.recipe_id@,
            observed_at: self.observed_at,
            icon_candidates: self.icon_candidates@.map_values(|u: ParsedUrl| u@),
        }
    }
}

impl ValidReport {
    /// The reporting service.
    pub fn service_id(&self) -> (id: &ServiceId)
        ensures
            id@ == self@.service_id,
    {
        &self.service_id
    }

    /// The unread count; `None` when the agent could not determine one
    /// (a negative count carries no number, and is kept as `None`).
    pub fn count(&self) -> (c: Option<u32>)
        ensures
            c == self@.count,
    {
        self.count
    }

    /// The message references, in report order.
    pub fn messages(&self) -> (m: &[ValidMessageRef])
        ensures
            m@.map_values(|x: ValidMessageRef| x@) == self@.messages,
    {
        self.messages.as_slice()
    }

    /// The recipe that produced the report.
    pub fn recipe_id(&self) -> (r: &str)
        ensures
            r@ == self@.recipe_id,
    {
        self.recipe_id.as_str()
    }

    /// The agent's own observation time (informational only).
    pub fn observed_at(&self) -> (t: u64)
        ensures
            t == self@.observed_at,
    {
        self.observed_at
    }

    /// The icon candidates, parsed, in report order.
    pub fn icon_candidates(&self) -> (c: &[ParsedUrl])
        ensures
            c@.map_values(|u: ParsedUrl| u@) == self@.icon_candidates,
    {
        self.icon_candidates.as_slice()
    }
}

/// A message string field longer than [`MAX_STRING_LEN`] characters.
pub open spec fn too_long(s: Seq<char>) -> bool {
    s.len() > MAX_STRING_LEN
}

/// An optional message string field that is present and too long.
pub open spec fn opt_too_long(s: Option<Seq<char>>) -> bool {
    s matches Some(t) && too_long(t)
}

/// The rejection a message link earns against the service origin, if any:
/// too long, not a URL, not https, or not on the service's origin.
pub open spec fn link_error(raw: Seq<char>, origin: Option<Seq<char>>) -> Option<ReportError> {
    if too_long(raw) {
        Some(ReportError::StringTooLong)
    } else {
        match parsed_url(raw) {
            None => Some(ReportError::InvalidLink),
            Some(u) => if u.scheme == "https"@ && same_origin(u.origin, origin) {
                None
            } else {
                Some(ReportError::InvalidLink)
            },
        }
    }
}

/// The rejection one message earns, if any: its fields are checked in
/// the order id, from, subject, link.
pub open spec fn message_error(m: MessageDtoView, origin: Option<Seq<char>>) -> Option<ReportError> {
    if too_long(m.id) || opt_too_long(m.from) || opt_too_long(m.subject) {
        Some(ReportError::StringTooLong)
    } else {
        match m.link {
            None => None,
            Some(raw) => link_error(raw, origin),
        }
    }
}

/// The first rejection among `ms`, in order.
pub open spec fn first_message_error(ms: Seq<MessageDtoView>, origin: Option<Seq<char>>) -> Option<ReportError>
    decreases ms.len(),
{
    if ms.len() == 0 {
        None
    } else {
        match first_message_error(ms.drop_last(), origin) {
            Some(e) => Some(e),
            None => message_error(ms.last(), origin),
        }
    }
}

/// The rejection a recipe id earns, if any: longer than
/// [`MAX_RECIPE_ID_LEN`], or empty or outside `[a-z0-9-]`.
pub open spec fn recipe_error(r: Seq<char>) -> Option<ReportError> {
    if r.len() > MAX_RECIPE_ID_LEN {
        Some(ReportError::RecipeIdTooLong)
    } else if r.len() == 0 || !(forall|i: int| 0 <= i < r.len() ==> is_id_char(#[trigger] r[i])) {
        Some(ReportError::RecipeIdInvalidChars)
    } else {
        None
    }
}

/// The rejection an icon candidate earns, if any: not a URL, not http or
/// https, no host, or a loopback, private or link-local IP host.
pub open spec fn candidate_error(raw: Seq<char>) -> Option<ReportError> {
    match parsed_url(raw) {
        None => Some(ReportError::IconCandidateInvalidUrl),
        Some(u) => if !(u.scheme == "http"@ || u.scheme == "https"@) {
            Some(ReportError::IconCandidateInvalidScheme)
        } else if u.host is NoHost {
            Some(ReportError::IconCandidateInvalidUrl)
        } else if host_disallowed(u.host) {
            Some(ReportError::IconCandidateDisallowedHost)
        } else {
            None
        },
    }
}

/// The first rejection among `cs`, in order.
pub open spec fn first_candidate_error(cs: Seq<Seq<char>>) -> Option<ReportError>
    decreases cs.len(),
{
    if cs.len() == 0 {
        None
    } else {
        match first_candidate_error(cs.drop_last()) {
            Some(e) => Some(e),
            None => candidate_error(cs.last()),
        }
    }
}

/// The report does not come from its own service's webview: its service
/// id is malformed, or `label` is not that service's `svc-<id>` label.
pub open spec fn label_rejected(service_id: Seq<char>, label: Seq<char>) -> bool {
    !is_valid_id(service_id) || label != label_of(service_id)
}

/// A count above [`MAX_COUNT`].
pub open spec fn count_rejected(c: Option<i64>) -> bool {
    c matches Some(n) && n > MAX_COUNT
}

/// The first rule `d` breaks, checked in order, given the label and the
/// current URL of the calling webview and the service's configured URL
/// (`None` when no such service exists); `None` when it breaks none. The
/// calling page must be on the service's own origin.
pub open spec fn report_error(d: ReportDtoView, label: Seq<char>, caller: UrlView, service: Option<UrlView>) -> Option<
    ReportError,
> {
    if label_rejected(d.service_id, label) {
        Some(ReportError::LabelMismatch)
    } else if service is None {
        Some(ReportError::UnknownService)
    } else if !same_origin(caller.origin, service.unwrap().origin) {
        Some(ReportError::CallerOffOrigin)
    } else if count_rejected(d.count) {
        Some(ReportError::CountTooLarge)
    } else if d.messages.len() > MAX_MESSAGES {
        Some(ReportError::TooManyMessages)
    } else if first_message_error(d.messages, service.unwrap().origin) is Some {
        first_message_error(d.messages, service.unwrap().origin)
    } else if recipe_error(d.recipe_id) is Some {
        recipe_error(d.recipe_id)
    } else if d.icon_candidates.len() > MAX_ICON_CANDIDATES {
        Some(ReportError::TooManyIconCandidates)
    } else {
        first_candidate_error(d.icon_candidates)
    }
}

/// A message as validation keeps it: the same fields, the link parsed.
pub open spec fn valid_message(m: MessageDtoView) -> MessageView {
    MessageView {
        id: m.id,
        from: m.from,
        subject: m.subject,
        link: match m.link {
            Some(raw) => parsed_url(raw),
            None => None,
        },
    }
}

/// The report validation makes of `d` when it breaks no rule.
pub open spec fn valid_report(d: ReportDtoView) -> ReportView {
    ReportView {
        service_id: d.service_id,
        count: match d.count {
            Some(n) => if n < 0 {
                None
            } else {
                Some(n as u32)
            },
            None => None,
        },
        messages: d.messages.map_values(|m: MessageDtoView| valid_message(m)),
        recipe_id: d.recipe_id,
        observed_at: d.observed_at,
        icon_candidates: d.icon_candidates.map_values(|raw: Seq<char>| parsed_url(raw).unwrap()),
    }
}

/// `r` is what validating `d` gives: the first rule broken, or the valid
/// report.
pub open spec fn validated(
    r: Result<ValidReport, ReportError>,
    d: ReportDtoView,
    label: Seq<char>,
    caller: UrlView,
    service: Option<UrlView>,
) -> bool {
    match r {
        Ok(v) => report_error(d, label, caller, service) is None && v@ == valid_report(d),
        Err(e) => report_error(d, label, caller, service) == Some(e),
    }
}

fn clone_text(s: &Option<String>) -> (r: Option<String>)
    ensures
        opt_view(r) == opt_view(*s),
{
    match s {
        Some(t) => Some(t.clone()),
        None => None,
    }
}

fn check_len(value: &str) -> (r: Result<(), ReportError>)
    ensures
        r is Ok <==> !too_long(value@),
        r matches Err(e) ==> e == ReportError::StringTooLong,
{
    if value.unicode_len() > MAX_STRING_LEN {
        Err(ReportError::StringTooLong)
    } else {
        Ok(())
    }
}

fn check_opt_len(value: &Option<String>) -> (r: Result<(), ReportError>)
    ensures
        r is Ok <==> !opt_too_long(opt_view(*value)),
        r matches Err(e) ==> e == ReportError::StringTooLong,
{
    match value {
        Some(v) => check_len(v.as_str()),
        None => Ok(()),
    }
}

fn check_link(raw: &str, origin: &Option<String>) -> (r: Result<ParsedUrl, ReportError>)
    ensures
        match link_error(raw@, opt_view(*origin)) {
            Some(e) => r == Err::<ParsedUrl, ReportError>(e),
            None => r matches Ok(u) && parsed_url(raw@) == Some(u@),
        },
{
    check_len(raw)?;
    let url = match parse_url(raw) {
        Ok(u) => u,
        Err(_) => return Err(ReportError::InvalidLink),
    };
    let https = String::from_str("https");
    if !(url.scheme == https) || !same_origin_exec(&url.origin, origin) {
        return Err(ReportError::InvalidLink);
    }
    Ok(url)
}

fn check_message(m: &MessageRefDto, origin: &Option<String>) -> (r: Result<ValidMessageRef, ReportError>)
    ensures
        match message_error(m@, opt_view(*origin)) {
            Some(e) => r == Err::<ValidMessageRef, ReportError>(e),
            None => r matches Ok(v) && v@ == valid_message(m@),
        },
{
    check_len(m.id.as_str())?;
    check_opt_len(&m.from)?;
    check_opt_len(&m.subject)?;
    let link = match &m.link {
        Some(raw) => Some(check_link(raw.as_str(), origin)?),
        None => None,
    };
    Ok(ValidMessageRef { id: m.id.clone(), from: clone_text(&m.from), subject: clone_text(&m.subject), link })
}

#[verifier::loop_isolation(false)]
fn check_recipe(r: &str) -> (res: Result<(), ReportError>)
    ensures
        match recipe_error(r@) {
            Some(e) => res == Err::<(), ReportError>(e),
            None => res is Ok,
        },
{
    if r.unicode_len() > MAX_RECIPE_ID_LEN {
        return Err(ReportError::RecipeIdTooLong);
    }
    let chars = to_chars(r);
    if chars.len() == 0 {
        return Err(ReportError::RecipeIdInvalidChars);
    }
    let mut i: usize = 0;
    while i < chars.len()
        invariant
            chars@ == r@,
            i <= chars.len(),
            forall|j: int| 0 <= j < i ==> is_id_char(#[trigger] chars@[j]),
        decreases chars.len() - i,
    {
        if !crate::config::ids::id_char(chars[i]) {
            assert(!is_id_char(r@[i as int]));
            return Err(ReportError::RecipeIdInvalidChars);
        }
        i = i + 1;
    }
    Ok(())
}

fn check_candidate(raw: &str) -> (r: Result<ParsedUrl, ReportError>)
    ensures
        match candidate_error(raw@) {
            Some(e) => r == Err::<ParsedUrl, ReportError>(e),
            None => r matches Ok(u) && parsed_url(raw@) == Some(u@),
        },
{
    let url = match parse_url(raw) {
        Ok(u) => u,
        Err(_) => return Err(ReportError::IconCandidateInvalidUrl),
    };
    let http = String::from_str("http");
    let https = String::from_str("https");
    if !(url.scheme == http || url.scheme == https) {
        return Err(ReportError::IconCandidateInvalidScheme);
    }
    if let UrlHost::NoHost = url.host {
        return Err(ReportError::IconCandidateInvalidUrl);
    }
    if is_disallowed_host(&url.host) {
        return Err(ReportError::IconCandidateDisallowedHost);
    }
    Ok(url)
}

/// Checks the service id and the caller's label, giving the typed id.
fn check_identity(service_id: &str, caller_label: &str) -> (r: Result<ServiceId, ReportError>)
    ensures
        r is Ok <==> !label_rejected(service_id@, caller_label@),
        r matches Ok(id) ==> id@ == service_id@,
        r matches Err(e) ==> e == ReportError::LabelMismatch,
{
    let id = match ServiceId::new(service_id) {
        Ok(id) => id,
        Err(_) => return Err(ReportError::LabelMismatch),
    };
    let label = service_label(&id);
    let caller = String::from_str(caller_label);
    if !(label == caller) {
        return Err(ReportError::LabelMismatch);
    }
    Ok(id)
}

/// Everything after the identity check, for the service whose id is
/// `service_id` and whose configured URL is `service_url`.
#[verifier::loop_isolation(false)]
fn validate_rest(
    dto: UnreadReportDto,
    service_id: ServiceId,
    caller_url: &ParsedUrl,
    service_url: Option<ParsedUrl>,
) -> (r: Result<ValidReport, ReportError>)
    requires
        service_id@ == dto@.service_id,
    ensures
        validated(
            r,
            dto@,
            label_of(dto@.service_id),
            caller_url@,
            match service_url { Some(u) => Some(u@), None => None },
        ),
{
    let ghost d = dto@;
    let ghost label = label_of(d.service_id);
    let id_text = service_id.as_str();
    assert(is_valid_id(id_text@));
    let service = match service_url {
        Some(u) => u,
        None => return Err(ReportError::UnknownService),
    };
    if !same_origin_exec(&caller_url.origin, &service.origin) {
        return Err(ReportError::CallerOffOrigin);
    }
    let origin = service.origin;
    let ghost ov = opt_view(origin);
    let count: Option<u32> = match dto.count {
        Some(n) => {
            if n > MAX_COUNT {
                return Err(ReportError::CountTooLarge);
            }
            if n < 0 {
                None
            } else {
                Some(n as u32)
            }
        },
        None => None,
    };
    if dto.messages.len() > MAX_MESSAGES {
        return Err(ReportError::TooManyMessages);
    }
    let mut messages: Vec<ValidMessageRef> = Vec::new();
    let mut i: usize = 0;
    while i < dto.messages.len()
        invariant
            d == dto@,
            ov == opt_view(origin),
            i <= dto.messages@.len(),
            first_message_error(d.messages.take(i as int), ov) is None,
            messages@.map_values(|x: ValidMessageRef| x@) == d.messages.take(i as int).map_values(
                |m: MessageDtoView| valid_message(m),
            ),
        decreases dto.messages@.len() - i,
    {
        proof {
            assert(d.messages.take(i + 1).drop_last() =~= d.messages.take(i as int));
            assert(d.messages[i as int] == dto.messages@[i as int]@);
            assert(d.messages.take(i + 1).last() == d.messages[i as int]);
        }
        let v = match check_message(&dto.messages[i], &origin) {
            Ok(v) => v,
            Err(e) => {
                proof {
                    lemma_first_message_error_prefix(d.messages, ov, i as int + 1);
                }
                return Err(e);
            },
        };
        let ghost before = messages@.map_values(|x: ValidMessageRef| x@);
        messages.push(v);
        proof {
            assert(messages@.map_values(|x: ValidMessageRef| x@) =~= before.push(v@));
            assert(d.messages.take(i + 1).map_values(|m: MessageDtoView| valid_message(m)) =~= d.messages.take(
                i as int,
            ).map_values(|m: MessageDtoView| valid_message(m)).push(valid_message(d.messages[i as int])));
        }
        i = i + 1;
    }
    proof {
        assert(d.messages.take(d.messages.len() as int) =~= d.messages);
    }
    check_recipe(dto.recipe_id.as_str())?;
    if dto.icon_candidates.len() > MAX_ICON_CANDIDATES {
        return Err(ReportError::TooManyIconCandidates);
    }
    let mut icons: Vec<ParsedUrl> = Vec::new();
    let mut j: usize = 0;
    while j < dto.icon_candidates.len()
        invariant
            d == dto@,
            j <= dto.icon_candidates@.len(),
            first_candidate_error(d.icon_candidates.take(j as int)) is None,
            icons@.map_values(|u: ParsedUrl| u@) == d.icon_candidates.take(j as int).map_values(
                |raw: Seq<char>| parsed_url(raw).unwrap(),
            ),
        decreases dto.icon_candidates@.len() - j,
    {
        proof {
            assert(d.icon_candidates.take(j + 1).drop_last() =~= d.icon_candidates.take(j as int));
            assert(d.icon_candidates[j as int] == dto.icon_candidates@[j as int]@);
            assert(d.icon_candidates.take(j + 1).last() == d.icon_candidates[j as int]);
        }
        let u = match check_candidate(dto.icon_candidates[j].as_str()) {
            Ok(u) => u,
            Err(e) => {
                proof {
                    lemma_first_candidate_error_prefix(d.icon_candidates, j as int + 1);
                }
                return Err(e);
            },
        };
        let ghost before = icons@.map_values(|x: ParsedUrl| x@);
        icons.push(u);
        proof {
            assert(icons@.map_values(|x: ParsedUrl| x@) =~= before.push(u@));
            assert(d.icon_candidates.take(j + 1).map_values(|raw: Seq<char>| parsed_url(raw).unwrap())
                =~= d.icon_candidates.take(j as int).map_values(|raw: Seq<char>| parsed_url(raw).unwrap()).push(
                parsed_url(d.icon_candidates[j as int]).unwrap(),
            ));
        }
        j = j + 1;
    }
    proof {
        assert(d.icon_candidates.take(d.icon_candidates.len() as int) =~= d.icon_candidates);
    }
    let report = ValidReport {
        service_id,
        count,
        messages,
        recipe_id: dto.recipe_id,
        observed_at: dto.observed_at,
        icon_candidates: icons,
    };
    assert(report@.messages =~= valid_report(d).messages);
    assert(report@.icon_candidates =~= valid_report(d).icon_candidates);
    Ok(report)
}

/// Once a prefix has no rejection, the first rejection of the whole
/// sequence is the first of what follows it; in particular the first
/// rejection of a longer prefix is that of the next message when the
/// shorter prefix had none.
proof fn lemma_first_message_error_prefix(ms: Seq<MessageDtoView>, origin: Option<Seq<char>>, n: int)
    requires
        0 < n <= ms.len(),
        first_message_error(ms.take(n - 1), origin) is None,
        message_error(ms[n - 1], origin) is Some,
    ensures
        first_message_error(ms, origin) == message_error(ms[n - 1], origin),
    decreases ms.len() - n,
{
    assert(ms.take(n).drop_last() =~= ms.take(n - 1));
    if n == ms.len() {
        assert(ms.take(n) =~= ms);
    } else {
        lemma_first_message_error_extend(ms, origin, n, ms.len() as int);
        assert(ms.take(ms.len() as int) =~= ms);
    }
}

proof fn lemma_first_message_error_extend(ms: Seq<MessageDtoView>, origin: Option<Seq<char>>, n: int, m: int)
    requires
        0 < n <= m <= ms.len(),
        first_message_error(ms.take(n), origin) is Some,
    ensures
        first_message_error(ms.take(m), origin) == first_message_error(ms.take(n), origin),
    decreases m - n,
{
    if m > n {
        lemma_first_message_error_extend(ms, origin, n, m - 1);
        assert(ms.take(m).drop_last() =~= ms.take(m - 1));
    }
}

proof fn lemma_first_candidate_error_prefix(cs: Seq<Seq<char>>, n: int)
    requires
        0 < n <= cs.len(),
        first_candidate_error(cs.take(n - 1)) is None,
        candidate_error(cs[n - 1]) is Some,
    ensures
        first_candidate_error(cs) == candidate_error(cs[n - 1]),
{
    assert(cs.take(n).drop_last() =~= cs.take(n - 1));
    if n == cs.len() {
        assert(cs.take(n) =~= cs);
    } else {
        lemma_first_candidate_error_extend(cs, n, cs.len() as int);
        assert(cs.take(cs.len() as int) =~= cs);
    }
}

proof fn lemma_first_candidate_error_extend(cs: Seq<Seq<char>>, n: int, m: int)
    requires
        0 < n <= m <= cs.len(),
        first_candidate_error(cs.take(n)) is Some,
    ensures
        first_candidate_error(cs.take(m)) == first_candidate_error(cs.take(n)),
    decreases m - n,
{
    if m > n {
        lemma_first_candidate_error_extend(cs, n, m - 1);
        assert(cs.take(m).drop_last() =~= cs.take(m - 1));
    }
}

/// Validates `dto` as posted from the webview labelled `caller_label`,
/// currently showing `caller_url`, for a service whose configured URL is
/// `service_url` (`None` when no such service exists).
pub fn validate_with_service(
    dto: UnreadReportDto,
    caller_label: &str,
    caller_url: &ParsedUrl,
    service_url: Option<ParsedUrl>,
) -> (r: Result<ValidReport, ReportError>)
    ensures
        validated(r, dto@, caller_label@, caller_url@, match service_url { Some(u) => Some(u@), None => None }),
{
    let service_id = check_identity(dto.service_id.as_str(), caller_label)?;
    validate_rest(dto, service_id, caller_url, service_url)
}

/// Validates `dto` as posted from the webview labelled `caller_label`,
/// currently showing `caller_url`. `lookup_service_url` gives a service's
/// configured URL and is consulted only once the report's service id and
/// label check out.
pub fn validate<F: FnOnce(&ServiceId) -> Option<ParsedUrl>>(
    dto: UnreadReportDto,
    caller_label: &str,
    caller_url: &ParsedUrl,
    lookup_service_url: F,
) -> (r: Result<ValidReport, ReportError>)
    requires
        forall|id: &ServiceId| lookup_service_url.requires((id,)),
    ensures
        label_rejected(dto@.service_id, caller_label@) ==> r == Err::<ValidReport, ReportError>(
            ReportError::LabelMismatch,
        ),
        !label_rejected(dto@.service_id, caller_label@) ==> exists|id: ServiceId, u: Option<ParsedUrl>|
            #![trigger lookup_service_url.ensures((&id,), u)]
            id@ == dto@.service_id && lookup_service_url.ensures((&id,), u) && validated(
                r,
                dto@,
                caller_label@,
                caller_url@,
                match u { Some(x) => Some(x@), None => None },
            ),
{
    let service_id = check_identity(dto.service_id.as_str(), caller_label)?;
    let service_url = lookup_service_url(&service_id);
    let r = validate_rest(dto, service_id, caller_url, service_url);
    r
}

proof fn lemma_each_message_passes(ms: Seq<MessageDtoView>, origin: Option<Seq<char>>)
    requires
        first_message_error(ms, origin) is None,
    ensures
        forall|i: int| 0 <= i < ms.len() ==> message_error(#[trigger] ms[i], origin) is None,
    decreases ms.len(),
{
    if ms.len() > 0 {
        lemma_each_message_passes(ms.drop_last(), origin);
        assert forall|i: int| 0 <= i < ms.len() implies message_error(#[trigger] ms[i], origin) is None by {
            if i < ms.len() - 1 {
                assert(ms[i] == ms.drop_last()[i]);
            }
        }
    }
}

proof fn lemma_each_candidate_passes(cs: Seq<Seq<char>>)
    requires
        first_candidate_error(cs) is None,
    ensures
        forall|i: int| 0 <= i < cs.len() ==> candidate_error(#[trigger] cs[i]) is None,
    decreases cs.len(),
{
    if cs.len() > 0 {
        lemma_each_candidate_passes(cs.drop_last());
        assert forall|i: int| 0 <= i < cs.len() implies candidate_error(#[trigger] cs[i]) is None by {
            if i < cs.len() - 1 {
                assert(cs[i] == cs.drop_last()[i]);
            }
        }
    }
}

/// A report that passes validation keeps every value within its limits:
/// it names a valid service id whose label is the calling webview's, and
/// the calling page is on that service's origin; its count, if any, is at
/// most [`MAX_COUNT`]; it keeps at most [`MAX_MESSAGES`] messages, the
/// reported ones in order, each string at most [`MAX_STRING_LEN`]
/// characters and each link an https URL on the service's origin; its
/// recipe id is 1 to [`MAX_RECIPE_ID_LEN`] characters of `[a-z0-9-]`; and
/// it keeps at most [`MAX_ICON_CANDIDATES`] icon candidates, in order,
/// each an http or https URL with a host that is not loopback, private or
/// link-local.
pub proof fn lemma_valid_report_within_limits(
    d: ReportDtoView,
    label: Seq<char>,
    caller: UrlView,
    service: Option<UrlView>,
)
    requires
        report_error(d, label, caller, service) is None,
    ensures
        ({
            let v = valid_report(d);
            let origin = service.unwrap().origin;
            &&& v.service_id == d.service_id && is_valid_id(v.service_id) && label == label_of(v.service_id)
            &&& service is Some && same_origin(caller.origin, origin)
            &&& v.count matches Some(n) ==> n <= MAX_COUNT && d.count == Some(n as i64)
            &&& v.messages.len() == d.messages.len() && d.messages.len() <= MAX_MESSAGES
            &&& forall|i: int|
                0 <= i < v.messages.len() ==> {
                    let m = #[trigger] v.messages[i];
                    &&& m.id == d.messages[i].id && m.id.len() <= MAX_STRING_LEN
                    &&& m.from == d.messages[i].from && (m.from matches Some(f) ==> f.len() <= MAX_STRING_LEN)
                    &&& m.subject == d.messages[i].subject && (m.subject matches Some(t) ==> t.len()
                        <= MAX_STRING_LEN)
                    &&& m.link matches Some(u) ==> u.scheme == "https"@ && same_origin(u.origin, origin)
                }
            &&& v.recipe_id == d.recipe_id && 1 <= v.recipe_id.len() <= MAX_RECIPE_ID_LEN
            &&& forall|i: int| 0 <= i < v.recipe_id.len() ==> is_id_char(#[trigger] v.recipe_id[i])
            &&& v.icon_candidates.len() == d.icon_candidates.len() && d.icon_candidates.len() <= MAX_ICON_CANDIDATES
            &&& forall|i: int|
                0 <= i < v.icon_candidates.len() ==> {
                    let u = #[trigger] v.icon_candidates[i];
                    &&& u.scheme == "http"@ || u.scheme == "https"@
                    &&& !(u.host is NoHost) && !host_disallowed(u.host)
                }
        }),
{
    let v = valid_report(d);
    let origin = service.unwrap().origin;
    lemma_each_message_passes(d.messages, origin);
    lemma_each_candidate_passes(d.icon_candidates);
    assert forall|i: int| 0 <= i < v.messages.len() implies {
        let m = #[trigger] v.messages[i];
        &&& m.id == d.messages[i].id && m.id.len() <= MAX_STRING_LEN
        &&& m.from == d.messages[i].from && (m.from matches Some(f) ==> f.len() <= MAX_STRING_LEN)
        &&& m.subject == d.messages[i].subject && (m.subject matches Some(t) ==> t.len() <= MAX_STRING_LEN)
        &&& m.link matches Some(u) ==> u.scheme == "https"@ && same_origin(u.origin, origin)
    } by {
        assert(message_error(d.messages[i], origin) is None);
        assert(v.messages[i] == valid_message(d.messages[i]));
    }
    assert forall|i: int| 0 <= i < v.icon_candidates.len() implies {
        let u = #[trigger] v.icon_candidates[i];
        &&& u.scheme == "http"@ || u.scheme == "https"@
        &&& !(u.host is NoHost) && !host_disallowed(u.host)
    } by {
        assert(candidate_error(d.icon_candidates[i]) is None);
    }
}

} // verus!
