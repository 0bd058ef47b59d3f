//! Every user-visible notification string.

use vstd::prelude::*;

use crate::text::{decimal, decimal_string, join2, join3};

verus! {

/// The body of a rich notification whose message has neither sender nor
/// subject.
pub const NEW_MESSAGE_FALLBACK: &'static str = "New message";

/// A notification's title: the service's display name, unchanged.
pub fn title(service_name: &str) -> (t: String)
    ensures
        t@ == service_name@,
{
    String::from_str(service_name)
}

/// The body text for one new message: `"{from} — {subject}"`, or the one
/// that is present, or `"New message"`.
pub open spec fn rich_text(from: Option<Seq<char>>, subject: Option<Seq<char>>) -> Seq<char> {
    match (from, subject) {
        (Some(f), Some(s)) => f + " — "@ + s,
        (Some(f), None) => f,
        (None, Some(s)) => s,
        (None, None) => "New message"@,
    }
}

/// A rich notification's body for one new message.
pub fn rich_body(from: Option<&str>, subject: Option<&str>) -> (b: String)
    ensures
        b@ == rich_text(
            match from { Some(f) => Some(f@), None => None },
            match subject { Some(s) => Some(s@), None => None },
        ),
{
    match (from, subject) {
        (Some(f), Some(s)) => join3(f, " — ", s),
        (Some(f), None) => String::from_str(f),
        (None, Some(s)) => String::from_str(s),
        (None, None) => String::from_str(NEW_MESSAGE_FALLBACK),
    }
}

/// `"{n} new messages"`.
pub open spec fn count_text(n: u32) -> Seq<char> {
    decimal(n as nat) + " new messages"@
}

/// A batched or count-increase notification's body.
pub fn count_body(n: u32) -> (b: String)
    ensures
        b@ == count_text(n),
{
    let digits = decimal_string(n as u64);
    join2(digits.as_str(), " new messages")
}

} // verus!
