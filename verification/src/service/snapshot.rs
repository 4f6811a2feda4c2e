//! What the daemon reports.

use crate::models;
use crate::models::{ActiveWifi, ProxyProfile, ProxyState, ProxyStatus};
use vstd::prelude::*;

verus! {

/// A point-in-time view of the daemon, replaced as a whole, so that readers never see
/// a torn state.
#[derive(Debug)]
pub struct DaemonSnapshot {
    /// Whether the Wi-Fi radio is on.
    pub wifi_enabled: bool,
    /// The Wi-Fi connection that carries traffic, if any.
    pub active_wifi: Option<ActiveWifi>,
    /// The enabled profile assigned to `active_wifi`.
    pub matched_profile: Option<ProxyProfile>,
    pub proxy_state: ProxyState,
    /// Whether the data plane is up.
    pub proxy_active: bool,
    /// What failed last, if anything.
    pub last_error: Option<String>,
}

impl Clone for DaemonSnapshot {
    fn clone(&self) -> (r: Self)
        ensures
            r == *self,
    {
        DaemonSnapshot {
            wifi_enabled: self.wifi_enabled,
            active_wifi: models::clone_wifi(&self.active_wifi),
            matched_profile: models::clone_profile(&self.matched_profile),
            proxy_state: self.proxy_state,
            proxy_active: self.proxy_active,
            last_error: models::clone_text(&self.last_error),
        }
    }
}

/// The snapshot of a daemon without Wi-Fi.
pub open spec fn idle_snapshot(wifi_enabled: bool) -> DaemonSnapshot {
    DaemonSnapshot {
        wifi_enabled,
        active_wifi: None,
        matched_profile: None,
        proxy_state: ProxyState::Disconnected,
        proxy_active: false,
        last_error: None,
    }
}

impl Default for DaemonSnapshot {
    fn default() -> (r: Self)
        ensures
            r == idle_snapshot(false),
    {
        DaemonSnapshot {
            wifi_enabled: false,
            active_wifi: None,
            matched_profile: None,
            proxy_state: ProxyState::Disconnected,
            proxy_active: false,
            last_error: None,
        }
    }
}

/// What a status says of a snapshot.
pub open spec fn is_status_of(status: ProxyStatus, snap: DaemonSnapshot) -> bool {
    &&& status.wifi == snap.active_wifi
    &&& status.wifi_enabled == snap.wifi_enabled
    &&& status.matched_profile_uuid == (match snap.matched_profile {
        Some(p) => Some(p.connection_uuid),
        None => None,
    })
    &&& status.profile_enabled == (snap.matched_profile matches Some(p) && p.enabled)
    &&& status.proxy_state == snap.proxy_state
    &&& status.proxy_active == snap.proxy_active
    &&& status.tun_name is None
    &&& status.dns_mode == (match snap.matched_profile {
        Some(p) => Some(p.dns),
        None => None,
    })
    &&& status.kill_switch_active == (snap.matched_profile matches Some(p) && p.kill_switch.enabled)
    &&& status.last_health_check is None
    &&& status.message == snap.last_error
}

impl DaemonSnapshot {
    /// The status that clients are shown.
    pub fn status(&self) -> (r: ProxyStatus)
        ensures
            is_status_of(r, *self),
    {
        let (matched_profile_uuid, profile_enabled, dns_mode, kill_switch_active) =
            match &self.matched_profile {
            Some(p) => (Some(p.connection_uuid.clone()), p.enabled, Some(p.dns), p.kill_switch.enabled),
            None => (None, false, None, false),
        };
        ProxyStatus {
            wifi: models::clone_wifi(&self.active_wifi),
            wifi_enabled: self.wifi_enabled,
            matched_profile_uuid,
            profile_enabled,
            proxy_state: self.proxy_state,
            proxy_active: self.proxy_active,
            tun_name: None,
            dns_mode,
            kill_switch_active,
            last_health_check: None,
            message: models::clone_text(&self.last_error),
        }
    }
}

} // verus!
