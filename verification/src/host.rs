//! Naming shared by every webview host (the `svc-<id>` label of a
//! service's webview), and the integer geometry of a host that shows each
//! service in its own top-level window.

pub mod geometry;

use vstd::prelude::*;

use crate::config::ServiceId;
use crate::text::join2;

verus! {

/// The label of service `id`'s webview: `svc-<id>`.
pub open spec fn label_of(id: Seq<char>) -> Seq<char> {
    "svc-"@ + id
}

/// The `svc-<id>` webview label every host uses for a service.
pub fn service_label(id: &ServiceId) -> (label: String)
    ensures
        label@ == label_of(id@),
{
    join2("svc-", id.as_str())
}

} // verus!
