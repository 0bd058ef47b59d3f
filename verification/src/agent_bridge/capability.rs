//! Naming and origin rules for the runtime capability that lets a
//! service's webview post reports.

use vstd::prelude::*;

use crate::config::ServiceId;
use crate::host::{label_of, service_label};
use crate::text::{decimal, decimal_string, join2, join3};
use crate::weburl::ParsedUrl;

verus! {

/// How often the agent re-posts its report, in milliseconds.
pub const REPORT_INTERVAL_MS: u64 = 30_000;

/// The service URL has an opaque origin, which no capability can name.
#[derive(Debug, Clone, Copy, PartialEq, Eq, Structural)]
pub struct OpaqueOriginError;

impl OpaqueOriginError {
    /// The error's text.
    pub fn message(&self) -> (m: &'static str)
        ensures
            m@ == "service URL has an opaque origin and cannot be used for a runtime capability"@,
    {
        "service URL has an opaque origin and cannot be used for a runtime capability"
    }
}

/// The serialized origin (`scheme://host[:port]`) of a service URL, or
/// [`OpaqueOriginError`] for an opaque origin.
pub fn service_origin(url: &ParsedUrl) -> (r: Result<String, OpaqueOriginError>)
    ensures
        url@.origin is None ==> r is Err,
        url@.origin matches Some(o) ==> r matches Ok(s) && s@ == o,
{
    match &url.origin {
        Some(o) => Ok(o.clone()),
        None => Err(OpaqueOriginError),
    }
}

/// The runtime capability's identifier for service `id`: the same
/// `svc-<id>` text as its webview label.
pub fn capability_identifier(id: &ServiceId) -> (s: String)
    ensures
        s@ == label_of(id@),
{
    service_label(id)
}

/// `window.__ELUMA__ = {config_json};` then a newline, then the agent's
/// own script, verbatim.
pub open spec fn injection_text(config_json: Seq<char>, agent_js: Seq<char>) -> Seq<char> {
    "window.__ELUMA__ = "@ + config_json + ";\n"@ + agent_js
}

/// The script injected into a service's webview: its configuration
/// object (already serialized as JSON) assigned to `window.__ELUMA__`,
/// followed by the agent script.
pub fn injection_script(config_json: &str, agent_js: &str) -> (s: String)
    ensures
        s@ == injection_text(config_json@, agent_js@),
{
    let head = join3("window.__ELUMA__ = ", config_json, ";\n");
    join2(head.as_str(), agent_js)
}

/// `serde_json::Error`, the error of a JSON serialization.
#[verifier::external_type_specification]
#[verifier::external_body]
pub struct ExJsonError(serde_json::Error);

/// The lowercase hexadecimal digit for `n`, below 16.
pub open spec fn hex_digit(n: int) -> char {
    seq!['0', '1', '2', '3', '4', '5', '6', '7', '8', '9', 'a', 'b', 'c', 'd', 'e', 'f'][n]
}

/// How a JSON string literal holds `c`: `"` and `\` behind a backslash,
/// the control characters below U+0020 escaped (`\b`, `\t`, `\n`, `\f`,
/// `\r` where JSON has a short form, else `\u00` and two lowercase hex
/// digits), and every other character as it is.
pub open spec fn json_char(c: char) -> Seq<char> {
    if c == '"' {
        seq!['\\', '"']
    } else if c == '\\' {
        seq!['\\', '\\']
    } else if c == '\x08' {
        seq!['\\', 'b']
    } else if c == '\t' {
        seq!['\\', 't']
    } else if c == '\n' {
        seq!['\\', 'n']
    } else if c == '\x0c' {
        seq!['\\', 'f']
    } else if c == '\r' {
        seq!['\\', 'r']
    } else if (c as int) < 0x20 {
        seq!['\\', 'u', '0', '0', hex_digit((c as int) / 16), hex_digit((c as int) % 16)]
    } else {
        seq![c]
    }
}

/// The characters of `s`, each as [`json_char`] writes it.
pub open spec fn json_chars(s: Seq<char>) -> Seq<char>
    decreases s.len(),
{
    if s.len() == 0 {
        Seq::empty()
    } else {
        json_chars(s.drop_last()) + json_char(s.last())
    }
}

/// `s` as a JSON string literal: quoted, its characters escaped.
pub open spec fn json_string(s: Seq<char>) -> Seq<char> {
    seq!['"'] + json_chars(s) + seq!['"']
}

/// `serde_json::to_string(s)`: `s` as a JSON string literal (see
/// [`json_string`]; serde_json's `format_escaped_str` escapes by its
/// `ESCAPE` table, exactly the characters [`json_char`] escapes, and
/// writes every other character as it is). For a string the call always
/// succeeds: it serializes through `serialize_str`, whose only errors are
/// those of the writer, and its writer is a `Vec<u8>`, which never fails
/// to write.
#[verifier::external_body]
fn json_quoted(s: &str) -> (r: Result<String, serde_json::Error>)
    ensures
        r is Ok,
        r matches Ok(t) ==> t@ == json_string(s@),
{
    serde_json::to_string(s)
}

/// The configuration object handed to the agent, as compact JSON with
/// its keys in this order: `serviceId`, `serviceUrl`, `reportIntervalMs`,
/// `reconcileIntervalMs`.
pub open spec fn config_json(id: Seq<char>, url: Seq<char>, report_ms: nat, reconcile_ms: nat) -> Seq<
    char,
> {
    "{\"serviceId\":"@ + json_string(id) + ",\"serviceUrl\":"@ + json_string(url)
        + ",\"reportIntervalMs\":"@ + decimal(report_ms) + ",\"reconcileIntervalMs\":"@
        + decimal(reconcile_ms) + "}"@
}

/// The script injected into service `id`'s webview at `url`: its
/// configuration object (the report interval, and the reconcile interval
/// converted from seconds to milliseconds) followed by `agent_js`. It
/// always succeeds.
pub fn build_injection_script(
    id: &ServiceId,
    url: &ParsedUrl,
    reconcile_interval_seconds: u32,
    agent_js: &str,
) -> (r: Result<String, serde_json::Error>)
    ensures
        r matches Ok(s) && s@ == injection_text(
            config_json(
                id@,
                url@.serialization,
                REPORT_INTERVAL_MS as nat,
                reconcile_interval_seconds as nat * 1000,
            ),
            agent_js@,
        ),
{
    let id_json = json_quoted(id.as_str())?;
    let url_json = json_quoted(url.serialization.as_str())?;
    let report = decimal_string(REPORT_INTERVAL_MS);
    let reconcile = decimal_string(reconcile_interval_ms(reconcile_interval_seconds));
    let a = join3("{\"serviceId\":", id_json.as_str(), ",\"serviceUrl\":");
    let b = join3(a.as_str(), url_json.as_str(), ",\"reportIntervalMs\":");
    let c = join3(b.as_str(), report.as_str(), ",\"reconcileIntervalMs\":");
    let d = join3(c.as_str(), reconcile.as_str(), "}");
    let script = injection_script(d.as_str(), agent_js);
    proof {
        assert(d@ =~= config_json(
            id@,
            url@.serialization,
            REPORT_INTERVAL_MS as nat,
            reconcile_interval_seconds as nat * 1000,
        ));
    }
    Ok(script)
}

/// The agent's reconcile interval in milliseconds, from the setting in
/// seconds.
pub fn reconcile_interval_ms(reconcile_interval_seconds: u32) -> (ms: u64)
    ensures
        ms == reconcile_interval_seconds * 1000,
{
    reconcile_interval_seconds as u64 * 1000
}

} // verus!
