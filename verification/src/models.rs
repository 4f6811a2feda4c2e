//! Proxy profiles, Wi-Fi connections and the runtime status that the daemon, the
//! command line and the window share.

use vstd::prelude::*;

verus! {

// ---------------------------------------------------------------------------
// Proxy configuration
// ---------------------------------------------------------------------------

/// Supported proxy protocols.
#[derive(Debug, Clone, Copy, PartialEq, Eq, Structural)]
pub enum ProxyType {
    /// SOCKS5: TCP and, where the proxy relays it, UDP.
    Socks5,
    /// HTTP proxy used through `CONNECT` (TCP only).
    Http,
}

impl ProxyType {
    /// The protocol's name.
    pub open spec fn name(self) -> Seq<char> {
        match self {
            ProxyType::Socks5 => "socks5"@,
            ProxyType::Http => "http"@,
        }
    }

    /// The protocol's name, as it stands in a profile and in a proxy URL.
    pub fn text(self) -> (r: String)
        ensures
            r@ == self.name(),
    {
        match self {
            ProxyType::Socks5 => "socks5".to_owned(),
            ProxyType::Http => "http".to_owned(),
        }
    }
}

/// How the proxy engine obtains credentials for the upstream proxy.
#[derive(Debug, Clone, Copy, PartialEq, Eq, Structural)]
pub enum AuthMethod {
    /// No authentication.
    NoAuth,
    /// Credentials are looked up by the profile's secret id when the proxy starts.
    Keyring,
}

impl AuthMethod {
    /// The method's name.
    pub open spec fn name(self) -> Seq<char> {
        match self {
            AuthMethod::NoAuth => "none"@,
            AuthMethod::Keyring => "keyring"@,
        }
    }

    /// The method's name.
    pub fn text(self) -> (r: String)
        ensures
            r@ == self.name(),
    {
        match self {
            AuthMethod::NoAuth => "none".to_owned(),
            AuthMethod::Keyring => "keyring".to_owned(),
        }
    }
}

/// The upstream proxy of a profile.
#[derive(Debug)]
pub struct ProxyConfig {
    pub proxy_type: ProxyType,
    pub host: String,
    pub port: u16,
    pub authentication: AuthMethod,
    /// Opaque id under which the credentials are stored, if there are any. It counts only
    /// where `authentication` is [`AuthMethod::Keyring`].
    pub secret_id: Option<String>,
}

impl Clone for ProxyConfig {
    fn clone(&self) -> (r: Self)
        ensures
            r == *self,
    {
        ProxyConfig {
            proxy_type: self.proxy_type,
            host: self.host.clone(),
            port: self.port,
            authentication: self.authentication,
            secret_id: clone_text(&self.secret_id),
        }
    }
}

/// A copy of an optional text.
pub fn clone_text(t: &Option<String>) -> (r: Option<String>)
    ensures
        r == *t,
{
    match t {
        Some(s) => Some(s.clone()),
        None => None,
    }
}

/// The text of an optional string.
pub open spec fn opt_text(t: Option<String>) -> Option<Seq<char>> {
    match t {
        Some(s) => Some(s@),
        None => None,
    }
}

// ---------------------------------------------------------------------------
// DNS, routing, local networks, kill switch
// ---------------------------------------------------------------------------

/// How applications' DNS queries travel.
#[derive(Debug, Clone, Copy, PartialEq, Eq, Structural)]
pub enum DnsMode {
    Proxied,
    Direct,
}

impl DnsMode {
    /// The mode's name.
    pub open spec fn name(self) -> Seq<char> {
        match self {
            DnsMode::Proxied => "proxied"@,
            DnsMode::Direct => "direct"@,
        }
    }

    /// The mode's name.
    pub fn text(self) -> (r: String)
        ensures
            r@ == self.name(),
    {
        match self {
            DnsMode::Proxied => "proxied".to_owned(),
            DnsMode::Direct => "direct".to_owned(),
        }
    }
}

impl Default for DnsMode {
    fn default() -> (r: Self)
        ensures
            r == DnsMode::Proxied,
    {
        DnsMode::Proxied
    }
}

/// IP versions that the tunnel carries.
#[derive(Debug, Clone, Copy, PartialEq, Eq, Structural)]
pub struct IpVersionConfig {
    pub ipv4: bool,
    pub ipv6: bool,
}

impl Default for IpVersionConfig {
    fn default() -> (r: Self)
        ensures
            r == (IpVersionConfig { ipv4: true, ipv6: false }),
    {
        IpVersionConfig { ipv4: true, ipv6: false }
    }
}

/// What happens to UDP.
#[derive(Debug, Clone, Copy, PartialEq, Eq, Structural)]
pub enum UdpMode {
    Proxy,
    Block,
    Direct,
}

impl UdpMode {
    /// The mode's name.
    pub open spec fn name(self) -> Seq<char> {
        match self {
            UdpMode::Proxy => "proxy"@,
            UdpMode::Block => "block"@,
            UdpMode::Direct => "direct"@,
        }
    }

    /// The mode's name.
    pub fn text(self) -> (r: String)
        ensures
            r@ == self.name(),
    {
        match self {
            UdpMode::Proxy => "proxy".to_owned(),
            UdpMode::Block => "block".to_owned(),
            UdpMode::Direct => "direct".to_owned(),
        }
    }
}

impl Default for UdpMode {
    fn default() -> (r: Self)
        ensures
            r == UdpMode::Proxy,
    {
        UdpMode::Proxy
    }
}

/// What happens to traffic for local networks.
#[derive(Debug, Clone, Copy, PartialEq, Eq, Structural)]
pub enum LocalNetMode {
    /// No exemption. The connected subnet's route still bypasses the tunnel, so
    /// with the kill switch on this behaves like `Block`.
    Proxy,
    /// Local networks are reached directly, never through the proxy.
    Direct,
    Block,
}

impl LocalNetMode {
    /// The mode's name.
    pub open spec fn name(self) -> Seq<char> {
        match self {
            LocalNetMode::Proxy => "proxy"@,
            LocalNetMode::Direct => "direct"@,
            LocalNetMode::Block => "block"@,
        }
    }

    /// The mode's name.
    pub fn text(self) -> (r: String)
        ensures
            r@ == self.name(),
    {
        match self {
            LocalNetMode::Proxy => "proxy".to_owned(),
            LocalNetMode::Direct => "direct".to_owned(),
            LocalNetMode::Block => "block".to_owned(),
        }
    }
}

impl Default for LocalNetMode {
    fn default() -> (r: Self)
        ensures
            r == LocalNetMode::Direct,
    {
        LocalNetMode::Direct
    }
}

/// Whether unproxied traffic is dropped.
#[derive(Debug, Clone, Copy, PartialEq, Eq, Structural)]
pub struct KillSwitchConfig {
    pub enabled: bool,
}

impl Default for KillSwitchConfig {
    fn default() -> (r: Self)
        ensures
            r == (KillSwitchConfig { enabled: true }),
    {
        KillSwitchConfig { enabled: true }
    }
}

// ---------------------------------------------------------------------------
// The profile
// ---------------------------------------------------------------------------

/// A proxy profile, assigned to one NetworkManager connection. Credentials are
/// not part of it: `proxy.secret_id` refers to them.
#[derive(Debug)]
pub struct ProxyProfile {
    pub connection_uuid: String,
    pub label: Option<String>,
    pub enabled: bool,
    pub proxy: ProxyConfig,
    pub dns: DnsMode,
    pub routing: IpVersionConfig,
    pub udp: UdpMode,
    pub local_network: LocalNetMode,
    pub kill_switch: KillSwitchConfig,
    pub auto_connect: bool,
}

impl ProxyProfile {
    /// Whether the daemon may start this profile without being asked.
    pub fn should_auto_activate(&self) -> (r: bool)
        ensures
            r == (self.enabled && self.auto_connect),
    {
        self.enabled && self.auto_connect
    }
}

impl Clone for ProxyProfile {
    fn clone(&self) -> (r: Self)
        ensures
            r == *self,
    {
        ProxyProfile {
            connection_uuid: self.connection_uuid.clone(),
            label: clone_text(&self.label),
            enabled: self.enabled,
            proxy: self.proxy.clone(),
            dns: self.dns,
            routing: self.routing,
            udp: self.udp,
            local_network: self.local_network,
            kill_switch: self.kill_switch,
            auto_connect: self.auto_connect,
        }
    }
}

/// A copy of an optional profile.
pub fn clone_profile(p: &Option<ProxyProfile>) -> (r: Option<ProxyProfile>)
    ensures
        r == *p,
{
    match p {
        Some(x) => Some(x.clone()),
        None => None,
    }
}

// ---------------------------------------------------------------------------
// Wi-Fi connections
// ---------------------------------------------------------------------------

/// A saved Wi-Fi connection.
#[derive(Debug)]
pub struct WifiConnection {
    pub uuid: String,
    pub name: String,
    pub ssid: Option<String>,
    pub state: String,
    pub wifi_enabled: bool,
    pub active_connection_path: Option<String>,
    pub interface: Option<String>,
}

/// What a [`WifiConnection`] says.
#[verifier::ext_equal]
pub struct WifiView {
    pub uuid: Seq<char>,
    pub name: Seq<char>,
    pub ssid: Option<Seq<char>>,
    pub state: Seq<char>,
    pub wifi_enabled: bool,
    pub active_connection_path: Option<Seq<char>>,
    pub interface: Option<Seq<char>>,
}

impl View for WifiConnection {
    type V = WifiView;

    open spec fn view(&self) -> WifiView {
        WifiView {
            uuid: self.uuid@,
            name: self.name@,
            ssid: opt_text(self.ssid),
            state: self.state@,
            wifi_enabled: self.wifi_enabled,
            active_connection_path: opt_text(self.active_connection_path),
            interface: opt_text(self.interface),
        }
    }
}

impl Clone for WifiConnection {
    fn clone(&self) -> (r: Self)
        ensures
            r == *self,
    {
        WifiConnection {
            uuid: self.uuid.clone(),
            name: self.name.clone(),
            ssid: clone_text(&self.ssid),
            state: self.state.clone(),
            wifi_enabled: self.wifi_enabled,
            active_connection_path: clone_text(&self.active_connection_path),
            interface: clone_text(&self.interface),
        }
    }
}

/// The Wi-Fi connection that is up.
#[derive(Debug)]
pub struct ActiveWifi {
    pub uuid: String,
    pub ssid: String,
    pub interface: String,
    pub ipv4: Option<String>,
    pub ipv6: Option<String>,
    pub has_default_route: bool,
}

impl Clone for ActiveWifi {
    fn clone(&self) -> (r: Self)
        ensures
            r == *self,
    {
        ActiveWifi {
            uuid: self.uuid.clone(),
            ssid: self.ssid.clone(),
            interface: self.interface.clone(),
            ipv4: clone_text(&self.ipv4),
            ipv6: clone_text(&self.ipv6),
            has_default_route: self.has_default_route,
        }
    }
}

/// A copy of an optional Wi-Fi connection.
pub fn clone_wifi(w: &Option<ActiveWifi>) -> (r: Option<ActiveWifi>)
    ensures
        r == *w,
{
    match w {
        Some(x) => Some(x.clone()),
        None => None,
    }
}

// ---------------------------------------------------------------------------
// Runtime status
// ---------------------------------------------------------------------------

/// What the daemon reports to its clients.
#[derive(Debug)]
pub struct ProxyStatus {
    pub wifi: Option<ActiveWifi>,
    pub wifi_enabled: bool,
    pub matched_profile_uuid: Option<String>,
    pub profile_enabled: bool,
    pub proxy_state: ProxyState,
    pub proxy_active: bool,
    pub tun_name: Option<String>,
    pub dns_mode: Option<DnsMode>,
    pub kill_switch_active: bool,
    pub last_health_check: Option<u64>,
    pub message: Option<String>,
}

impl Clone for ProxyStatus {
    fn clone(&self) -> (r: Self)
        ensures
            r == *self,
    {
        ProxyStatus {
            wifi: clone_wifi(&self.wifi),
            wifi_enabled: self.wifi_enabled,
            matched_profile_uuid: clone_text(&self.matched_profile_uuid),
            profile_enabled: self.profile_enabled,
            proxy_state: self.proxy_state,
            proxy_active: self.proxy_active,
            tun_name: clone_text(&self.tun_name),
            dns_mode: self.dns_mode,
            kill_switch_active: self.kill_switch_active,
            last_health_check: self.last_health_check,
            message: clone_text(&self.message),
        }
    }
}

/// Where the proxy stands.
#[derive(Debug, Clone, Copy, PartialEq, Eq, Structural)]
pub enum ProxyState {
    Disconnected,
    ProfileLookup,
    Starting,
    HealthCheck,
    Active,
    Stopping,
    Failed,
}

impl ProxyState {
    /// The state's name.
    pub open spec fn name(self) -> Seq<char> {
        match self {
            ProxyState::Disconnected => "disconnected"@,
            ProxyState::ProfileLookup => "profile_lookup"@,
            ProxyState::Starting => "starting"@,
            ProxyState::HealthCheck => "health_check"@,
            ProxyState::Active => "active"@,
            ProxyState::Stopping => "stopping"@,
            ProxyState::Failed => "failed"@,
        }
    }

    /// The state's name.
    pub fn text(self) -> (r: String)
        ensures
            r@ == self.name(),
    {
        match self {
            ProxyState::Disconnected => "disconnected".to_owned(),
            ProxyState::ProfileLookup => "profile_lookup".to_owned(),
            ProxyState::Starting => "starting".to_owned(),
            ProxyState::HealthCheck => "health_check".to_owned(),
            ProxyState::Active => "active".to_owned(),
            ProxyState::Stopping => "stopping".to_owned(),
            ProxyState::Failed => "failed".to_owned(),
        }
    }
}

impl Default for ProxyState {
    fn default() -> (r: Self)
        ensures
            r == ProxyState::Disconnected,
    {
        ProxyState::Disconnected
    }
}

// ---------------------------------------------------------------------------
// Proxy test result
// ---------------------------------------------------------------------------

/// How far a proxy probe got.
#[derive(Debug)]
pub struct ProxyTestResult {
    pub reachable: bool,
    pub authentication_ok: bool,
    pub tcp_ok: bool,
    pub dns_ok: bool,
    pub ipv4_ok: bool,
    pub ipv6_ok: bool,
    pub udp_ok: bool,
    pub external_ip: Option<String>,
    pub error: Option<String>,
}

impl Clone for ProxyTestResult {
    fn clone(&self) -> (r: Self)
        ensures
            r == *self,
    {
        ProxyTestResult {
            reachable: self.reachable,
            authentication_ok: self.authentication_ok,
            tcp_ok: self.tcp_ok,
            dns_ok: self.dns_ok,
            ipv4_ok: self.ipv4_ok,
            ipv6_ok: self.ipv6_ok,
            udp_ok: self.udp_ok,
            external_ip: clone_text(&self.external_ip),
            error: clone_text(&self.error),
        }
    }
}

impl ProxyTestResult {
    /// Whether every check passed.
    pub fn all_passed(&self) -> (r: bool)
        ensures
            r == (self.reachable && self.authentication_ok && self.tcp_ok && self.dns_ok
                && self.ipv4_ok && self.ipv6_ok && self.udp_ok),
    {
        self.reachable && self.authentication_ok && self.tcp_ok && self.dns_ok && self.ipv4_ok
            && self.ipv6_ok && self.udp_ok
    }
}

// ---------------------------------------------------------------------------
// Laws
// ---------------------------------------------------------------------------

/// Values with the same name are the same.
pub proof fn names_tell_apart(
    types: (ProxyType, ProxyType),
    methods: (AuthMethod, AuthMethod),
    dns: (DnsMode, DnsMode),
    udp: (UdpMode, UdpMode),
    local: (LocalNetMode, LocalNetMode),
)
    ensures
        types.0.name() == types.1.name() ==> types.0 == types.1,
        methods.0.name() == methods.1.name() ==> methods.0 == methods.1,
        dns.0.name() == dns.1.name() ==> dns.0 == dns.1,
        udp.0.name() == udp.1.name() ==> udp.0 == udp.1,
        local.0.name() == local.1.name() ==> local.0 == local.1,
{
    reveal_strlit("socks5");
    reveal_strlit("http");
    reveal_strlit("none");
    reveal_strlit("keyring");
    reveal_strlit("proxied");
    reveal_strlit("direct");
    reveal_strlit("proxy");
    reveal_strlit("block");
    assert("proxy"@[0] == 'p' && "block"@[0] == 'b' && "direct"@[0] == 'd');
    assert("socks5"@.len() == 6 && "http"@.len() == 4 && "none"@.len() == 4);
    assert("keyring"@.len() == 7 && "proxied"@.len() == 7);
}

/// States with the same name are the same.
pub proof fn state_names_tell_apart(a: ProxyState, b: ProxyState)
    requires
        a.name() == b.name(),
    ensures
        a == b,
{
    reveal_strlit("disconnected");
    reveal_strlit("profile_lookup");
    reveal_strlit("starting");
    reveal_strlit("health_check");
    reveal_strlit("active");
    reveal_strlit("stopping");
    reveal_strlit("failed");
    assert("disconnected"@[0] == 'd' && "profile_lookup"@[0] == 'p' && "starting"@[2] == 'a');
    assert("health_check"@[0] == 'h' && "active"@[0] == 'a' && "stopping"@[2] == 'o');
    assert("failed"@[0] == 'f');
}

} // verus!
