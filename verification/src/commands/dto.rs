//! Patch arguments of the `update_service` and `update_settings`
//! commands, and their conversion into configuration patches. Neither
//! carries a service id: which service a patch is for is always a
//! separate argument.

use vstd::prelude::*;

use crate::config::model::opt_view;
use crate::config::{IconSource, ProfileName, ServicePatch, SettingsPatch};
use crate::weburl::ParsedUrl;

verus! {

/// The `patch` argument of `update_service`; `None` fields are left
/// untouched.
#[derive(Debug)]
pub struct ServicePatchDto {
    pub name: Option<String>,
    pub url: Option<ParsedUrl>,
    pub profile: Option<ProfileName>,
    pub notifications: Option<bool>,
    pub icon: Option<IconSource>,
}

impl Default for ServicePatchDto {
    fn default() -> (p: Self)
        ensures
            p.name is None && p.url is None && p.profile is None && p.notifications is None && p.icon is None,
    {
        ServicePatchDto { name: None, url: None, profile: None, notifications: None, icon: None }
    }
}

impl Clone for ServicePatchDto {
    fn clone(&self) -> (r: Self)
        ensures
            opt_view(r.name) == opt_view(self.name),
            r.notifications == self.notifications,
    {
        ServicePatchDto {
            name: match &self.name {
                Some(n) => Some(n.clone()),
                None => None,
            },
            url: match &self.url {
                Some(u) => Some(u.clone()),
                None => None,
            },
            profile: match &self.profile {
                Some(p) => Some(p.clone()),
                None => None,
            },
            notifications: self.notifications,
            icon: match &self.icon {
                Some(i) => Some(i.clone()),
                None => None,
            },
        }
    }
}

impl From<ServicePatchDto> for ServicePatch {
    fn from(dto: ServicePatchDto) -> (p: Self)
        ensures
            p.name == dto.name,
            p.url == dto.url,
            p.profile == dto.profile,
            p.notifications == dto.notifications,
            p.icon == dto.icon,
    {
        ServicePatch {
            name: dto.name,
            url: dto.url,
            profile: dto.profile,
            notifications: dto.notifications,
            icon: dto.icon,
        }
    }
}

impl vstd::std_specs::convert::FromSpecImpl<ServicePatchDto> for ServicePatch {
    open spec fn obeys_from_spec() -> bool {
        true
    }

    open spec fn from_spec(dto: ServicePatchDto) -> Self {
        ServicePatch {
            name: dto.name,
            url: dto.url,
            profile: dto.profile,
            notifications: dto.notifications,
            icon: dto.icon,
        }
    }
}

/// The `patch` argument of `update_settings`; `None` fields are left
/// untouched.
#[derive(Debug, Clone, Copy, PartialEq, Eq, Structural)]
pub struct SettingsPatchDto {
    pub reconcile_interval_seconds: Option<u32>,
    pub notifications: Option<bool>,
    pub notification_batch_threshold: Option<u32>,
    pub badge_sidebar: Option<bool>,
}

impl Default for SettingsPatchDto {
    fn default() -> (p: Self)
        ensures
            p == (SettingsPatchDto {
                reconcile_interval_seconds: None,
                notifications: None,
                notification_batch_threshold: None,
                badge_sidebar: None,
            }),
    {
        SettingsPatchDto {
            reconcile_interval_seconds: None,
            notifications: None,
            notification_batch_threshold: None,
            badge_sidebar: None,
        }
    }
}

impl From<SettingsPatchDto> for SettingsPatch {
    fn from(dto: SettingsPatchDto) -> (p: Self)
        ensures
            p.reconcile_interval_seconds == dto.reconcile_interval_seconds,
            p.notifications == dto.notifications,
            p.notification_batch_threshold == dto.notification_batch_threshold,
            p.badge_sidebar == dto.badge_sidebar,
    {
        SettingsPatch {
            reconcile_interval_seconds: dto.reconcile_interval_seconds,
            notifications: dto.notifications,
            notification_batch_threshold: dto.notification_batch_threshold,
            badge_sidebar: dto.badge_sidebar,
        }
    }
}

impl vstd::std_specs::convert::FromSpecImpl<SettingsPatchDto> for SettingsPatch {
    open spec fn obeys_from_spec() -> bool {
        true
    }

    open spec fn from_spec(dto: SettingsPatchDto) -> Self {
        SettingsPatch {
            reconcile_interval_seconds: dto.reconcile_interval_seconds,
            notifications: dto.notifications,
            notification_batch_threshold: dto.notification_batch_threshold,
            badge_sidebar: dto.badge_sidebar,
        }
    }
}

} // verus!
