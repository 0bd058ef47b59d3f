//! A read-only view of the service manager's configuration.

use vstd::prelude::*;

use crate::config::{ConfigError, ServiceConfig, Settings};

verus! {

/// The manager's configuration as last loaded. When startup failed to
/// load it, `settings` is `None`, `services` is empty and `config_error`
/// says why; otherwise `config_error` is `None`.
#[derive(Debug)]
pub struct ManagerSnapshot {
    pub settings: Option<Settings>,
    pub services: Vec<ServiceConfig>,
    pub config_error: Option<ConfigError>,
}

} // verus!
