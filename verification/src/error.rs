//! The application's unified error type, surfaced to commands as
//! `{ kind, message }`.

use vstd::prelude::*;

use crate::text::join2;

verus! {

#[verifier::external_type_specification]
#[verifier::external_body]
pub struct ExIoError(std::io::Error);

/// The application's unified error type.
#[derive(Debug)]
pub enum AppError {
    /// A filesystem path could not be resolved.
    Path(String),
    /// An I/O operation failed.
    Io(std::io::Error),
    /// The configuration file is missing, malformed, or fails validation.
    Config(String),
    /// Application state (`state.json`) could not be loaded or is invalid.
    State(String),
    /// A profile's webview data store could not be applied or removed.
    Profile(String),
    /// A webview host operation failed.
    Webview(String),
    /// A notification sink failed to show a notification.
    Notification(String),
    /// An icon could not be fetched, decoded or installed.
    Icon(String),
}

/// The `kind` identifier of each variant.
pub open spec fn kind_of(e: AppError) -> Seq<char> {
    match e {
        AppError::Path(_) => "path"@,
        AppError::Io(_) => "io"@,
        AppError::Config(_) => "config"@,
        AppError::State(_) => "state"@,
        AppError::Profile(_) => "profile"@,
        AppError::Webview(_) => "webview"@,
        AppError::Notification(_) => "notification"@,
        AppError::Icon(_) => "icon"@,
    }
}

/// The human-readable message of every variant that carries its own text:
/// a fixed prefix naming the kind, then that text.
pub open spec fn message_of(e: AppError) -> Option<Seq<char>> {
    match e {
        AppError::Path(m) => Some("path error: "@ + m@),
        AppError::Io(_) => None,
        AppError::Config(m) => Some("config error: "@ + m@),
        AppError::State(m) => Some("state error: "@ + m@),
        AppError::Profile(m) => Some("profile error: "@ + m@),
        AppError::Webview(m) => Some("webview error: "@ + m@),
        AppError::Notification(m) => Some("notification error: "@ + m@),
        AppError::Icon(m) => Some("icon error: "@ + m@),
    }
}

/// The text `std::io::Error`'s `Display` renders for `err`.
#[verifier::external_body]
fn io_error_text(err: &std::io::Error) -> String {
    err.to_string()
}

impl AppError {
    /// A stable, machine-readable identifier for this error's variant.
    pub fn kind(&self) -> (k: &'static str)
        ensures
            k@ == kind_of(*self),
    {
        match self {
            AppError::Path(_) => "path",
            AppError::Io(_) => "io",
            AppError::Config(_) => "config",
            AppError::State(_) => "state",
            AppError::Profile(_) => "profile",
            AppError::Webview(_) => "webview",
            AppError::Notification(_) => "notification",
            AppError::Icon(_) => "icon",
        }
    }

    /// The error's message: `"<kind> error: <detail>"`.
    pub fn message(&self) -> (m: String)
        ensures
            message_of(*self) matches Some(text) ==> m@ == text,
            *self is Io ==> "io error: "@.is_prefix_of(m@),
    {
        match self {
            AppError::Path(m) => join2("path error: ", m.as_str()),
            AppError::Io(err) => {
                let text = io_error_text(err);
                let m = join2("io error: ", text.as_str());
                assert(("io error: "@ + text@).subrange(0, "io error: "@.len() as int) =~= "io error: "@);
                m
            },
            AppError::Config(m) => join2("config error: ", m.as_str()),
            AppError::State(m) => join2("state error: ", m.as_str()),
            AppError::Profile(m) => join2("profile error: ", m.as_str()),
            AppError::Webview(m) => join2("webview error: ", m.as_str()),
            AppError::Notification(m) => join2("notification error: ", m.as_str()),
            AppError::Icon(m) => join2("icon error: ", m.as_str()),
        }
    }
}

impl From<std::io::Error> for AppError {
    fn from(err: std::io::Error) -> (r: Self) {
        AppError::Io(err)
    }
}

impl vstd::std_specs::convert::FromSpecImpl<std::io::Error> for AppError {
    open spec fn obeys_from_spec() -> bool {
        true
    }

    open spec fn from_spec(v: std::io::Error) -> Self {
        AppError::Io(v)
    }
}

} // verus!
