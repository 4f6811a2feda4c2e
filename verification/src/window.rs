//! The window: what its pages show, and what its form saves.

use crate::cli::commands;
use crate::cli::commands::SecretRequest;
use crate::models;
use crate::models::{
    AuthMethod, DnsMode, IpVersionConfig, KillSwitchConfig, LocalNetMode, ProxyConfig, ProxyProfile,
    ProxyStatus, ProxyTestResult, ProxyType, UdpMode, WifiConnection,
};
use crate::text;
use vstd::prelude::*;

verus! {

// ---------------------------------------------------------------------------
// Choices
// ---------------------------------------------------------------------------

/// The position of a proxy type in its list.
pub open spec fn kind_position(t: ProxyType) -> u32 {
    match t {
        ProxyType::Socks5 => 0,
        ProxyType::Http => 1,
    }
}

/// The position of a UDP mode in its list.
pub open spec fn udp_position(m: UdpMode) -> u32 {
    match m {
        UdpMode::Proxy => 0,
        UdpMode::Block => 1,
        UdpMode::Direct => 2,
    }
}

/// The position of a local-network mode in its list.
pub open spec fn local_position(m: LocalNetMode) -> u32 {
    match m {
        LocalNetMode::Direct => 0,
        LocalNetMode::Proxy => 1,
        LocalNetMode::Block => 2,
    }
}

/// The proxy type at a position.
pub fn kind_at(position: u32) -> (r: Option<ProxyType>)
    ensures
        r is Some <==> position < 2,
        r matches Some(t) ==> kind_position(t) == position,
{
    if position == 0 {
        Some(ProxyType::Socks5)
    } else if position == 1 {
        Some(ProxyType::Http)
    } else {
        None
    }
}

/// The UDP mode at a position.
pub fn udp_at(position: u32) -> (r: Option<UdpMode>)
    ensures
        r is Some <==> position < 3,
        r matches Some(m) ==> udp_position(m) == position,
{
    if position == 0 {
        Some(UdpMode::Proxy)
    } else if position == 1 {
        Some(UdpMode::Block)
    } else if position == 2 {
        Some(UdpMode::Direct)
    } else {
        None
    }
}

/// The local-network mode at a position.
pub fn local_at(position: u32) -> (r: Option<LocalNetMode>)
    ensures
        r is Some <==> position < 3,
        r matches Some(m) ==> local_position(m) == position,
{
    if position == 0 {
        Some(LocalNetMode::Direct)
    } else if position == 1 {
        Some(LocalNetMode::Proxy)
    } else if position == 2 {
        Some(LocalNetMode::Block)
    } else {
        None
    }
}

/// The UDP mode that choosing a proxy type sets: HTTP proxies cannot relay UDP, so it is
/// blocked.
pub fn udp_for(kind: ProxyType) -> (r: Option<UdpMode>)
    ensures
        r == (match kind {
            ProxyType::Http => Some(UdpMode::Block),
            ProxyType::Socks5 => None,
        }),
{
    match kind {
        ProxyType::Http => Some(UdpMode::Block),
        ProxyType::Socks5 => None,
    }
}

// ---------------------------------------------------------------------------
// The form
// ---------------------------------------------------------------------------

/// What the proxy form holds.
pub struct Form {
    pub uuid: String,
    pub enabled: bool,
    pub kind: ProxyType,
    pub host: String,
    pub port: u16,
    pub user: String,
    pub pass: String,
    pub udp: UdpMode,
    pub local: LocalNetMode,
    pub dns: bool,
    pub ipv6: bool,
    pub kill: bool,
    pub auto: bool,
}

/// What the form shows of a profile, or of none: a new one is an enabled SOCKS5 proxy
/// with proxied DNS, the kill switch and automatic activation. The credentials stay
/// blank, which keeps what is stored.
pub open spec fn shows(f: Form, uuid: Seq<char>, p: Option<ProxyProfile>) -> bool {
    &&& f.uuid@ == uuid
    &&& f.user@.len() == 0
    &&& f.pass@.len() == 0
    &&& match p {
        Some(p) => {
            &&& f.enabled == p.enabled
            &&& f.kind == p.proxy.proxy_type
            &&& f.host@ == p.proxy.host@
            &&& f.port == p.proxy.port
            &&& f.udp == p.udp
            &&& f.local == p.local_network
            &&& f.dns == (p.dns == DnsMode::Proxied)
            &&& f.ipv6 == p.routing.ipv6
            &&& f.kill == p.kill_switch.enabled
            &&& f.auto == p.auto_connect
        },
        None => {
            &&& f.enabled
            &&& f.kind == ProxyType::Socks5
            &&& f.host@.len() == 0
            &&& f.port == 1080
            &&& f.udp == UdpMode::Proxy
            &&& f.local == LocalNetMode::Direct
            &&& f.dns
            &&& !f.ipv6
            &&& f.kill
            &&& f.auto
        },
    }
}

/// The first profile for `uuid` in a list.
pub open spec fn profile_in(list: Seq<ProxyProfile>, uuid: Seq<char>) -> Option<ProxyProfile>
    decreases list.len(),
{
    if list.len() == 0 {
        None
    } else if list[0].connection_uuid@ == uuid {
        Some(list[0])
    } else {
        profile_in(list.drop_first(), uuid)
    }
}

fn find_profile(list: &Vec<ProxyProfile>, uuid: &str) -> (r: Option<ProxyProfile>)
    ensures
        r == profile_in(list@, uuid@),
{
    let mut i: usize = 0;
    assert(list@.skip(0) =~= list@);
    while i < list.len()
        invariant
            i <= list@.len(),
            profile_in(list@, uuid@) == profile_in(list@.skip(i as int), uuid@),
        decreases list@.len() - i,
    {
        proof {
            assert(list@.skip(i as int)[0] == list@[i as int]);
            assert(list@.skip(i as int).drop_first() =~= list@.skip(i + 1));
        }
        if text::same_text(list[i].connection_uuid.as_str(), uuid) {
            return Some(list[i].clone());
        }
        i += 1;
    }
    None
}

/// The form for the profile of `uuid` among the daemon's profiles.
pub fn edit(profiles: &Vec<ProxyProfile>, uuid: &str) -> (r: Form)
    ensures
        shows(r, uuid@, profile_in(profiles@, uuid@)),
{
    match find_profile(profiles, uuid) {
        Some(p) => Form {
            uuid: uuid.to_owned(),
            enabled: p.enabled,
            kind: p.proxy.proxy_type,
            host: p.proxy.host,
            port: p.proxy.port,
            user: String::new(),
            pass: String::new(),
            udp: p.udp,
            local: p.local_network,
            dns: p.dns == DnsMode::Proxied,
            ipv6: p.routing.ipv6,
            kill: p.kill_switch.enabled,
            auto: p.auto_connect,
        },
        None => Form {
            uuid: uuid.to_owned(),
            enabled: true,
            kind: ProxyType::Socks5,
            host: String::new(),
            port: 1080,
            user: String::new(),
            pass: String::new(),
            udp: UdpMode::Proxy,
            local: LocalNetMode::Direct,
            dns: true,
            ipv6: false,
            kill: true,
            auto: true,
        },
    }
}

/// Whether a form can be saved: it has a host.
pub fn check_form(f: &Form) -> (r: Result<(), String>)
    ensures
        r is Ok <==> !text::is_blank(f.host@),
        r matches Err(e) ==> e@ == "Enter a proxy host"@,
{
    proof {
        text::blank_iff_trimmed_empty(f.host@);
    }
    if text::trim(f.host.as_str()).as_str().is_empty() {
        return Err("Enter a proxy host".to_owned());
    }
    Ok(())
}

/// The credentials that a form stores: none where both are blank, which keeps what is
/// stored.
pub fn form_secret(f: &Form) -> (r: Option<SecretRequest>)
    ensures
        r is None <==> f.user@.len() == 0 && f.pass@.len() == 0,
        r matches Some(q) ==> q.label@ == commands::secret_label(f.uuid@) && q.username == f.user
            && q.password == f.pass,
{
    if f.user.as_str().is_empty() && f.pass.as_str().is_empty() {
        return None;
    }
    Some(
        SecretRequest {
            label: crate::error::after("ProxyWiFi proxy credentials for ", f.uuid.as_str()),
            username: f.user.clone(),
            password: f.pass.clone(),
        },
    )
}

/// The id of the credentials that the profile for `uuid` refers to.
pub open spec fn known_secret(list: Seq<ProxyProfile>, uuid: Seq<char>) -> Option<String> {
    match profile_in(list, uuid) {
        Some(p) => p.proxy.secret_id,
        None => None,
    }
}

/// Whether `p` is the profile that the form makes; `secret_id` refers to its credentials.
pub open spec fn is_formed(p: ProxyProfile, f: Form, secret_id: Option<String>) -> bool {
    &&& p.connection_uuid == f.uuid
    &&& p.label is None
    &&& p.enabled == f.enabled
    &&& p.proxy.proxy_type == f.kind
    &&& p.proxy.host@ == text::trimmed(f.host@)
    &&& p.proxy.port == f.port
    &&& p.proxy.authentication == (if secret_id is Some {
        AuthMethod::Keyring
    } else {
        AuthMethod::NoAuth
    })
    &&& p.proxy.secret_id == secret_id
    &&& p.dns == (if f.dns {
        DnsMode::Proxied
    } else {
        DnsMode::Direct
    })
    &&& p.routing == (IpVersionConfig { ipv4: true, ipv6: f.ipv6 })
    &&& p.udp == f.udp
    &&& p.local_network == f.local
    &&& p.kill_switch.enabled == f.kill
    &&& p.auto_connect == f.auto
}

/// The profiles of a list that are not for `uuid`, in order.
pub open spec fn others(list: Seq<ProxyProfile>, uuid: Seq<char>) -> Seq<ProxyProfile>
    decreases list.len(),
{
    if list.len() == 0 {
        Seq::empty()
    } else if list.last().connection_uuid@ == uuid {
        others(list.drop_last(), uuid)
    } else {
        others(list.drop_last(), uuid).push(list.last())
    }
}

/// What saving a form leaves: the profiles to hand to the daemon, and the credentials to
/// delete because new ones took their place.
pub struct Saved {
    pub profiles: Vec<ProxyProfile>,
    pub replaced: Option<String>,
}

/// Whether `r` is what saving a form leaves.
pub open spec fn is_saved(
    r: Saved,
    list: Seq<ProxyProfile>,
    f: Form,
    stored: Option<String>,
) -> bool {
    let known = known_secret(list, f.uuid@);
    &&& r.profiles@.len() == others(list, f.uuid@).len() + 1
    &&& r.profiles@.drop_last() == others(list, f.uuid@)
    &&& stored is Some ==> is_formed(r.profiles@.last(), f, stored) && r.replaced == known
    &&& stored is None ==> is_formed(r.profiles@.last(), f, known) && r.replaced is None
}

/// Save a form into the daemon's profiles; `stored` is the id that new credentials were
/// stored under, where the form has any.
pub fn save(profiles: &Vec<ProxyProfile>, f: Form, stored: Option<String>) -> (r: Saved)
    ensures
        is_saved(r, profiles@, f, stored),
        ({
            let known = known_secret(profiles@, f.uuid@);
            &&& r.profiles@.len() > 0
            &&& r.profiles@.drop_last() == others(profiles@, f.uuid@)
            &&& is_formed(
                r.profiles@.last(),
                f,
                if stored is Some {
                    stored
                } else {
                    known
                },
            )
            &&& r.replaced == (if stored is Some {
                known
            } else {
                None
            })
        }),
{
    let known = match find_profile(profiles, f.uuid.as_str()) {
        Some(p) => p.proxy.secret_id,
        None => None,
    };
    let mut out: Vec<ProxyProfile> = Vec::new();
    let mut i: usize = 0;
    assert(profiles@.take(0) =~= Seq::<ProxyProfile>::empty());
    while i < profiles.len()
        invariant
            i <= profiles@.len(),
            out@ == others(profiles@.take(i as int), f.uuid@),
        decreases profiles@.len() - i,
    {
        proof {
            let seen = profiles@.take(i + 1);
            assert(seen.drop_last() =~= profiles@.take(i as int));
            assert(seen.last() == profiles@[i as int]);
        }
        if !text::same_text(profiles[i].connection_uuid.as_str(), f.uuid.as_str()) {
            out.push(profiles[i].clone());
        }
        i += 1;
    }
    assert(profiles@.take(i as int) =~= profiles@);
    let (secret_id, replaced) = match stored {
        Some(id) => (Some(id), known),
        None => (known, None),
    };
    let authentication = if secret_id.is_some() {
        AuthMethod::Keyring
    } else {
        AuthMethod::NoAuth
    };
    let host = text::trim(f.host.as_str());
    let ghost kept = out@;
    out.push(
        ProxyProfile {
            connection_uuid: f.uuid,
            label: None,
            enabled: f.enabled,
            proxy: ProxyConfig {
                proxy_type: f.kind,
                host,
                port: f.port,
                authentication,
                secret_id,
            },
            dns: if f.dns {
                DnsMode::Proxied
            } else {
                DnsMode::Direct
            },
            routing: IpVersionConfig { ipv4: true, ipv6: f.ipv6 },
            udp: f.udp,
            local_network: f.local,
            kill_switch: KillSwitchConfig { enabled: f.kill },
            auto_connect: f.auto,
        },
    );
    assert(out@.drop_last() =~= kept);
    Saved { profiles: out, replaced }
}

// ---------------------------------------------------------------------------
// Status
// ---------------------------------------------------------------------------

/// What the status rows show. Without a daemon only the network and the proxy rows
/// change.
pub struct StatusRows {
    pub network: String,
    pub proxy: String,
    pub details: Option<DetailRows>,
}

/// The rows of the diagnostics page besides network and proxy.
pub struct DetailRows {
    pub interface: String,
    pub tunnel: String,
    pub dns: String,
    pub kill_switch: String,
}

/// What the network row shows.
pub open spec fn network_text(status: Result<ProxyStatus, String>, ssid: Option<String>) -> Seq<char> {
    match status {
        Ok(s) => match s.wifi {
            Some(w) => w.ssid@,
            None => "Not connected"@,
        },
        Err(_) => match ssid {
            Some(s) => s@,
            None => "Not connected"@,
        },
    }
}

/// What the proxy row shows.
pub open spec fn proxy_text(status: Result<ProxyStatus, String>) -> Seq<char> {
    match status {
        Ok(s) => match s.message {
            Some(m) => s.proxy_state.name() + " — "@ + m@,
            None => s.proxy_state.name(),
        },
        Err(e) => "Daemon not running ("@ + e@ + ")"@,
    }
}

/// Whether the detail rows show a status.
pub open spec fn shows_details(d: DetailRows, s: ProxyStatus) -> bool {
    &&& d.interface@ == (match s.wifi {
        Some(w) => w.interface@,
        None => "—"@,
    })
    &&& d.tunnel@ == (match s.tun_name {
        Some(t) => t@,
        None => "—"@,
    })
    &&& d.dns@ == (match s.dns_mode {
        Some(m) => m.name(),
        None => "—"@,
    })
    &&& d.kill_switch@ == (if s.kill_switch_active {
        "Active"@
    } else {
        "Off"@
    })
}

/// What the status rows show, given the daemon's status or why there is none, and the
/// SSID that NetworkManager knows.
pub fn status_rows(status: &Result<ProxyStatus, String>, ssid: &Option<String>) -> (r: StatusRows)
    ensures
        r.network@ == network_text(*status, *ssid),
        r.proxy@ == proxy_text(*status),
        match *status {
            Ok(s) => r.details matches Some(d) && shows_details(d, s),
            Err(_) => r.details is None,
        },
{
    match status {
        Ok(s) => {
            let (network, interface) = match &s.wifi {
                Some(w) => (w.ssid.clone(), w.interface.clone()),
                None => ("Not connected".to_owned(), "—".to_owned()),
            };
            let mut proxy = s.proxy_state.text();
            if let Some(m) = &s.message {
                proxy.append(" — ");
                proxy.append(m.as_str());
            }
            let tunnel = match &s.tun_name {
                Some(t) => t.clone(),
                None => "—".to_owned(),
            };
            let dns = match s.dns_mode {
                Some(m) => m.text(),
                None => "—".to_owned(),
            };
            let kill_switch = if s.kill_switch_active {
                "Active".to_owned()
            } else {
                "Off".to_owned()
            };
            StatusRows {
                network,
                proxy,
                details: Some(DetailRows { interface, tunnel, dns, kill_switch }),
            }
        },
        Err(e) => {
            let network = match ssid {
                Some(s) => s.clone(),
                None => "Not connected".to_owned(),
            };
            let mut proxy = "Daemon not running (".to_owned();
            proxy.append(e.as_str());
            proxy.append(")");
            StatusRows { network, proxy, details: None }
        },
    }
}

/// A check mark or a cross.
pub open spec fn mark(b: bool) -> Seq<char> {
    if b {
        "✓"@
    } else {
        "✗"@
    }
}

fn show_mark(b: bool) -> (r: String)
    ensures
        r@ == mark(b),
{
    if b {
        "✓".to_owned()
    } else {
        "✗".to_owned()
    }
}

/// What is shown of a test result, or why there is none.
pub open spec fn test_text(r: Result<ProxyTestResult, String>) -> Seq<char> {
    match r {
        Ok(t) => {
            let checks = "reachable "@ + mark(t.reachable) + " · login "@ + mark(
                t.authentication_ok,
            ) + " · TCP "@ + mark(t.tcp_ok) + " · DNS "@ + mark(t.dns_ok) + " · UDP "@ + mark(
                t.udp_ok,
            );
            match t.error {
                Some(e) => checks + " — "@ + e@,
                None => checks,
            }
        },
        Err(e) => e@,
    }
}

/// What is shown of a test result, or why there is none.
pub fn show_test(result: &Result<ProxyTestResult, String>) -> (r: String)
    ensures
        r@ == test_text(*result),
{
    match result {
        Ok(t) => {
            let mut r = "reachable ".to_owned();
            r.append(show_mark(t.reachable).as_str());
            r.append(" · login ");
            r.append(show_mark(t.authentication_ok).as_str());
            r.append(" · TCP ");
            r.append(show_mark(t.tcp_ok).as_str());
            r.append(" · DNS ");
            r.append(show_mark(t.dns_ok).as_str());
            r.append(" · UDP ");
            r.append(show_mark(t.udp_ok).as_str());
            if let Some(e) = &t.error {
                r.append(" — ");
                r.append(e.as_str());
            }
            r
        },
        Err(e) => e.clone(),
    }
}

// ---------------------------------------------------------------------------
// Networks
// ---------------------------------------------------------------------------

/// A saved network as it is listed.
pub struct SavedEntry {
    pub uuid: String,
    pub name: String,
    /// The SSID, or the name where it is unknown.
    pub ssid: String,
    pub active: bool,
    /// The signal strength, where the network is in range.
    pub signal: Option<u8>,
}

/// What a [`SavedEntry`] says.
#[verifier::ext_equal]
pub struct EntryView {
    pub uuid: Seq<char>,
    pub name: Seq<char>,
    pub ssid: Seq<char>,
    pub active: bool,
    pub signal: Option<u8>,
}

impl View for SavedEntry {
    type V = EntryView;

    open spec fn view(&self) -> EntryView {
        EntryView {
            uuid: self.uuid@,
            name: self.name@,
            ssid: self.ssid@,
            active: self.active,
            signal: self.signal,
        }
    }
}

/// The signal strength of a visible network.
pub open spec fn signal_of(near: Seq<(String, u8)>, ssid: Seq<char>) -> Option<u8>
    decreases near.len(),
{
    if near.len() == 0 {
        None
    } else if near[0].0@ == ssid {
        Some(near[0].1)
    } else {
        signal_of(near.drop_first(), ssid)
    }
}

/// Whether a saved connection is up.
pub open spec fn is_active(c: WifiConnection) -> bool {
    c.state@ == "activated"@
}

/// A saved connection as it is listed.
pub open spec fn entry_of(c: WifiConnection, near: Seq<(String, u8)>) -> EntryView {
    let ssid = match c.ssid {
        Some(s) => s@,
        None => c.name@,
    };
    EntryView {
        uuid: c.uuid@,
        name: c.name@,
        ssid,
        active: is_active(c),
        signal: signal_of(near, ssid),
    }
}

/// Whether `a` is listed before `b`: the connected network first, then the strongest
/// signal; networks out of range come last.
pub open spec fn comes_first(a: EntryView, b: EntryView) -> bool {
    ||| a.active && !b.active
    ||| a.active == b.active && (match (a.signal, b.signal) {
        (Some(x), Some(y)) => x > y,
        (Some(_), None) => true,
        (None, _) => false,
    })
}

/// `x` in its place in an ordered list: behind those that it does not come before.
pub open spec fn placed(s: Seq<EntryView>, x: EntryView) -> Seq<EntryView>
    decreases s.len(),
{
    if s.len() > 0 && comes_first(x, s.last()) {
        placed(s.drop_last(), x).push(s.last())
    } else {
        s.push(x)
    }
}

/// The saved networks as they are listed; those that are alike keep their order.
pub open spec fn entries(saved: Seq<WifiConnection>, near: Seq<(String, u8)>) -> Seq<EntryView>
    decreases saved.len(),
{
    if saved.len() == 0 {
        Seq::empty()
    } else {
        placed(entries(saved.drop_last(), near), entry_of(saved.last(), near))
    }
}

/// What a list of entries says.
pub open spec fn entries_view(v: Seq<SavedEntry>) -> Seq<EntryView> {
    v.map_values(|e: SavedEntry| e@)
}

fn find_signal(near: &Vec<(String, u8)>, ssid: &str) -> (r: Option<u8>)
    ensures
        r == signal_of(near@, ssid@),
{
    let mut i: usize = 0;
    assert(near@.skip(0) =~= near@);
    while i < near.len()
        invariant
            i <= near@.len(),
            signal_of(near@, ssid@) == signal_of(near@.skip(i as int), ssid@),
        decreases near@.len() - i,
    {
        proof {
            assert(near@.skip(i as int)[0] == near@[i as int]);
            assert(near@.skip(i as int).drop_first() =~= near@.skip(i + 1));
        }
        if text::same_text(near[i].0.as_str(), ssid) {
            return Some(near[i].1);
        }
        i += 1;
    }
    None
}

fn is_first(a: &SavedEntry, b: &SavedEntry) -> (r: bool)
    ensures
        r == comes_first(a@, b@),
{
    let stronger = match (a.signal, b.signal) {
        (Some(x), Some(y)) => x > y,
        (Some(_), None) => true,
        (None, _) => false,
    };
    (a.active && !b.active) || (a.active == b.active && stronger)
}

fn place(list: &mut Vec<SavedEntry>, x: SavedEntry)
    ensures
        entries_view(final(list)@) == placed(entries_view(old(list)@), x@),
{
    let ghost all = entries_view(list@);
    let mut n: usize = list.len();
    proof {
        assert(all.take(n as int) =~= all);
        assert(all.skip(n as int) =~= Seq::<EntryView>::empty());
        assert(placed(all.take(n as int), x@) + all.skip(n as int) =~= placed(all, x@));
    }
    while n > 0 && is_first(&x, &list[n - 1])
        invariant
            n <= list@.len(),
            all == entries_view(list@),
            placed(all.take(n as int), x@) + all.skip(n as int) == placed(all, x@),
        decreases n,
    {
        proof {
            let part = all.take(n as int);
            assert(part.last() == list@[n - 1]@);
            assert(part.drop_last() =~= all.take(n - 1));
            assert(placed(all.take(n - 1), x@).push(part.last()) + all.skip(n as int) =~= placed(
                all.take(n - 1),
                x@,
            ) + all.skip(n - 1));
        }
        n -= 1;
    }
    proof {
        let part = all.take(n as int);
        if n > 0 {
            assert(part.last() == list@[n - 1]@);
        }
        assert(placed(part, x@) == part.push(x@));
        assert(part.push(x@) + all.skip(n as int) =~= all.insert(n as int, x@));
    }
    let ghost before = list@;
    list.insert(n, x);
    assert(entries_view(list@) =~= entries_view(before).insert(n as int, x@));
}

/// The saved networks as they are listed.
pub fn saved_entries(saved: &Vec<WifiConnection>, near: &Vec<(String, u8)>) -> (r: Vec<SavedEntry>)
    ensures
        entries_view(r@) == entries(saved@, near@),
{
    let mut out: Vec<SavedEntry> = Vec::new();
    let mut i: usize = 0;
    assert(saved@.take(0) =~= Seq::<WifiConnection>::empty());
    assert(entries_view(out@) =~= Seq::<EntryView>::empty());
    while i < saved.len()
        invariant
            i <= saved@.len(),
            entries_view(out@) == entries(saved@.take(i as int), near@),
        decreases saved@.len() - i,
    {
        proof {
            let seen = saved@.take(i + 1);
            assert(seen.drop_last() =~= saved@.take(i as int));
            assert(seen.last() == saved@[i as int]);
        }
        let c = &saved[i];
        let ssid = match &c.ssid {
            Some(s) => s.clone(),
            None => c.name.clone(),
        };
        let signal = find_signal(near, ssid.as_str());
        let entry = SavedEntry {
            uuid: c.uuid.clone(),
            name: c.name.clone(),
            ssid,
            active: text::same_text(c.state.as_str(), "activated"),
            signal,
        };
        place(&mut out, entry);
        i += 1;
    }
    assert(saved@.take(i as int) =~= saved@);
    out
}

/// What is shown below the name of a saved network.
pub open spec fn entry_text(active: bool, signal: Option<u8>) -> Seq<char> {
    (if active {
        "Connected"@
    } else {
        "Saved"@
    }) + match signal {
        Some(s) => " · Signal "@ + text::decimal_text(s as nat) + "%"@,
        None => " · Out of range"@,
    }
}

/// What is shown below the name of a saved network.
pub fn entry_subtitle(e: &SavedEntry) -> (r: String)
    ensures
        r@ == entry_text(e.active, e.signal),
{
    let mut r = if e.active {
        "Connected".to_owned()
    } else {
        "Saved".to_owned()
    };
    let tail = match e.signal {
        Some(s) => {
            let mut t = " · Signal ".to_owned();
            t.append(text::decimal(s as u64).as_str());
            t.append("%");
            t
        },
        None => " · Out of range".to_owned(),
    };
    r.append(tail.as_str());
    r
}

/// What is shown below the name of a visible network.
pub fn signal_subtitle(strength: u8) -> (r: String)
    ensures
        r@ == "Signal "@ + text::decimal_text(strength as nat) + "%"@,
{
    let mut r = "Signal ".to_owned();
    r.append(text::decimal(strength as u64).as_str());
    r.append("%");
    r
}

/// The first saved connection that is up.
pub open spec fn connected(saved: Seq<WifiConnection>) -> Option<WifiConnection>
    decreases saved.len(),
{
    if saved.len() == 0 {
        None
    } else if is_active(saved[0]) {
        Some(saved[0])
    } else {
        connected(saved.drop_first())
    }
}

/// The connection to edit where none was picked yet.
pub open spec fn edited_first(picked: Option<String>, saved: Seq<WifiConnection>) -> Option<
    WifiConnection,
> {
    match picked {
        Some(_) => None,
        None => connected(saved),
    }
}

/// The connection to edit where none was picked yet: the one that is up.
pub fn default_edit(picked: &Option<String>, saved: &Vec<WifiConnection>) -> (r: Option<WifiConnection>)
    ensures
        r == edited_first(*picked, saved@),
        r == (if *picked is Some {
            None
        } else {
            connected(saved@)
        }),
{
    if picked.is_some() {
        return None;
    }
    let mut i: usize = 0;
    assert(saved@.skip(0) =~= saved@);
    while i < saved.len()
        invariant
            i <= saved@.len(),
            picked is None,
            connected(saved@) == connected(saved@.skip(i as int)),
        decreases saved@.len() - i,
    {
        proof {
            assert(saved@.skip(i as int)[0] == saved@[i as int]);
            assert(saved@.skip(i as int).drop_first() =~= saved@.skip(i + 1));
        }
        if text::same_text(saved[i].state.as_str(), "activated") {
            return Some(saved[i].clone());
        }
        i += 1;
    }
    None
}

// ---------------------------------------------------------------------------
// Laws
// ---------------------------------------------------------------------------

/// Whether a list is in order.
pub open spec fn is_in_order(s: Seq<EntryView>) -> bool {
    forall|i: int, j: int| 0 <= i < j < s.len() ==> !comes_first(#[trigger] s[j], #[trigger] s[i])
}

proof fn placed_keeps_order(s: Seq<EntryView>, x: EntryView)
    requires
        is_in_order(s),
    ensures
        is_in_order(placed(s, x)),
        placed(s, x).to_multiset() == s.to_multiset().insert(x),
        forall|k: int|
            0 <= k < placed(s, x).len() ==> (#[trigger] placed(s, x)[k]) == x || s.contains(
                placed(s, x)[k],
            ),
    decreases s.len(),
{
    broadcast use vstd::seq_lib::group_to_multiset_ensures;

    let r = placed(s, x);
    if s.len() > 0 && comes_first(x, s.last()) {
        let t = s.drop_last();
        assert forall|i: int, j: int| 0 <= i < j < t.len() implies !comes_first(
            #[trigger] t[j],
            #[trigger] t[i],
        ) by {
            assert(t[i] == s[i] && t[j] == s[j]);
        }
        placed_keeps_order(t, x);
        let p = placed(t, x);
        assert(s =~= t.push(s.last()));
        assert(r.to_multiset() =~= s.to_multiset().insert(x));
        assert forall|k: int| 0 <= k < r.len() implies (#[trigger] r[k]) == x || s.contains(r[k]) by {
            if k < p.len() {
                assert(r[k] == p[k]);
                if p[k] != x {
                    let m = choose|m: int| 0 <= m < t.len() && t[m] == p[k];
                    assert(s[m] == p[k]);
                }
            } else {
                assert(r[k] == s[s.len() - 1]);
            }
        }
        assert forall|i: int, j: int| 0 <= i < j < r.len() implies !comes_first(
            #[trigger] r[j],
            #[trigger] r[i],
        ) by {
            assert(r[i] == p[i]);
            if j < p.len() {
                assert(r[j] == p[j]);
            } else if p[i] != x {
                let m = choose|m: int| 0 <= m < t.len() && t[m] == p[i];
                assert(s[m] == p[i]);
                assert(!comes_first(s[s.len() - 1], s[m]));
            }
        }
    } else {
        assert forall|i: int, j: int| 0 <= i < j < r.len() implies !comes_first(
            #[trigger] r[j],
            #[trigger] r[i],
        ) by {
            assert(r[i] == s[i]);
            if j < s.len() {
                assert(r[j] == s[j]);
            } else if i < s.len() - 1 {
                assert(!comes_first(s[s.len() - 1], s[i]));
            }
        }
        assert forall|k: int| 0 <= k < r.len() implies (#[trigger] r[k]) == x || s.contains(r[k]) by {
            if k < s.len() {
                assert(r[k] == s[k]);
            }
        }
    }
}

/// The saved networks are listed in order, each once for each time that it is saved.
pub proof fn entries_are_in_order(saved: Seq<WifiConnection>, near: Seq<(String, u8)>)
    ensures
        is_in_order(entries(saved, near)),
        entries(saved, near).to_multiset() == saved.map_values(
            |c: WifiConnection| entry_of(c, near),
        ).to_multiset(),
    decreases saved.len(),
{
    broadcast use vstd::seq_lib::group_to_multiset_ensures;

    let all = saved.map_values(|c: WifiConnection| entry_of(c, near));
    if saved.len() > 0 {
        let rest = saved.drop_last();
        entries_are_in_order(rest, near);
        placed_keeps_order(entries(rest, near), entry_of(saved.last(), near));
        assert(all =~= rest.map_values(|c: WifiConnection| entry_of(c, near)).push(
            entry_of(saved.last(), near),
        ));
    } else {
        assert(all =~= entries(saved, near));
    }
}

/// Saving the form that shows a profile, without new credentials, keeps the profile but
/// for its label and the white space around its host.
pub proof fn unchanged_form_keeps_the_profile(
    f: Form,
    old_profile: ProxyProfile,
    new_profile: ProxyProfile,
)
    requires
        shows(f, old_profile.connection_uuid@, Some(old_profile)),
        is_formed(new_profile, f, old_profile.proxy.secret_id),
        old_profile.routing.ipv4,
        (old_profile.proxy.authentication == AuthMethod::Keyring) <==> old_profile.proxy.secret_id is Some,
    ensures
        new_profile.connection_uuid@ == old_profile.connection_uuid@,
        new_profile.label is None,
        new_profile.proxy.host@ == text::trimmed(old_profile.proxy.host@),
        new_profile == (ProxyProfile {
            connection_uuid: new_profile.connection_uuid,
            label: None,
            proxy: ProxyConfig { host: new_profile.proxy.host, ..old_profile.proxy },
            ..old_profile
        }),
{
}

/// Saving a form touches no profile of another connection.
pub proof fn saving_leaves_the_others(list: Seq<ProxyProfile>, uuid: Seq<char>, i: int)
    requires
        0 <= i < list.len(),
        list[i].connection_uuid@ != uuid,
    ensures
        others(list, uuid).contains(list[i]),
    decreases list.len(),
{
    let rest = list.drop_last();
    if i < rest.len() {
        saving_leaves_the_others(rest, uuid, i);
        let k = choose|k: int| 0 <= k < others(rest, uuid).len() && others(rest, uuid)[k] == rest[i];
        assert(others(list, uuid)[k] == list[i]);
    } else {
        assert(others(list, uuid).last() == list[i]);
    }
}

/// A profile that a form saves says what was entered, field by field; its host is what
/// stands between the white space of the entry.
pub proof fn saved_profile_is_as_entered(p: ProxyProfile, f: Form, secret_id: Option<String>)
    requires
        is_formed(p, f, secret_id),
    ensures
        p.connection_uuid@ == f.uuid@,
        p.enabled == f.enabled,
        p.proxy.proxy_type == f.kind,
        p.proxy.port == f.port,
        !text::is_blank(f.host@) ==> commands::stands_in(p.proxy.host@, f.host@),
        p.proxy.secret_id == secret_id,
        p.proxy.authentication is Keyring <==> secret_id is Some,
        p.dns is Proxied <==> f.dns,
        p.routing.ipv4,
        p.routing.ipv6 == f.ipv6,
        p.udp == f.udp,
        p.local_network == f.local,
        p.kill_switch.enabled == f.kill,
        p.auto_connect == f.auto,
{
    let cut = text::trimming_cuts_white_space_only(f.host@);
    assert(p.proxy.host@ == f.host@.subrange(cut.0, cut.1));
    if !text::is_blank(f.host@) {
        if cut.0 == cut.1 {
            assert forall|i: int| 0 <= i < f.host@.len() implies text::is_white(
                #[trigger] f.host@[i],
            ) by {
                if i >= cut.0 {
                    assert(cut.1 <= i < f.host@.len());
                }
            }
        }
        assert(commands::stands_in(p.proxy.host@, f.host@));
    }
}

/// A connection without a profile gets, from the form as it is first shown, an enabled
/// SOCKS5 proxy that starts by itself, with proxied DNS and UDP, local networks reached
/// directly, no IPv6 and the kill switch on.
pub proof fn new_profile_is_guarded(
    list: Seq<ProxyProfile>,
    f: Form,
    uuid: Seq<char>,
    p: ProxyProfile,
)
    requires
        forall|i: int| 0 <= i < list.len() ==> (#[trigger] list[i]).connection_uuid@ != uuid,
        shows(f, uuid, profile_in(list, uuid)),
        is_formed(p, f, known_secret(list, uuid)),
    ensures
        p.connection_uuid@ == uuid,
        p.enabled && p.auto_connect && p.kill_switch.enabled,
        p.proxy.proxy_type is Socks5 && p.proxy.port == 1080,
        p.proxy.authentication is NoAuth && p.proxy.secret_id is None,
        p.dns is Proxied && p.udp is Proxy && p.local_network is Direct,
        p.routing.ipv4 && !p.routing.ipv6,
{
    shown_profile_is_the_first(list, uuid);
}

/// The profile that a form shows is the first one for its connection; there is none just
/// where no profile is for it.
pub proof fn shown_profile_is_the_first(list: Seq<ProxyProfile>, uuid: Seq<char>)
    ensures
        profile_in(list, uuid) is None <==> forall|i: int|
            0 <= i < list.len() ==> (#[trigger] list[i]).connection_uuid@ != uuid,
        profile_in(list, uuid) is Some ==> exists|i: int|
            0 <= i < list.len() && #[trigger] list[i] == profile_in(list, uuid)->0
                && list[i].connection_uuid@ == uuid && (forall|j: int|
                0 <= j < i ==> (#[trigger] list[j]).connection_uuid@ != uuid),
    decreases list.len(),
{
    if list.len() > 0 {
        let rest = list.drop_first();
        if list[0].connection_uuid@ == uuid {
            assert(list[0] == profile_in(list, uuid)->0);
        } else {
            shown_profile_is_the_first(rest, uuid);
            if profile_in(rest, uuid) is Some {
                let i = choose|i: int|
                    0 <= i < rest.len() && #[trigger] rest[i] == profile_in(rest, uuid)->0
                        && rest[i].connection_uuid@ == uuid && (forall|j: int|
                        0 <= j < i ==> (#[trigger] rest[j]).connection_uuid@ != uuid);
                assert(list[i + 1] == rest[i]);
                assert forall|j: int| 0 <= j < i + 1 implies (#[trigger] list[j]).connection_uuid@
                    != uuid by {
                    if j > 0 {
                        assert(rest[j - 1] == list[j]);
                    }
                }
            } else {
                assert forall|i: int| 0 <= i < list.len() implies (#[trigger] list[i]).connection_uuid@
                    != uuid by {
                    if i > 0 {
                        assert(rest[i - 1] == list[i]);
                    }
                }
            }
        }
    }
}

/// The profiles that saving a form keeps are those for other connections, all of them, in
/// their order.
pub proof fn kept_profiles_are_the_others(list: Seq<ProxyProfile>, uuid: Seq<char>)
    ensures
        others(list, uuid) == list.filter(|p: ProxyProfile| p.connection_uuid@ != uuid),
        forall|i: int|
            0 <= i < others(list, uuid).len() ==> (#[trigger] others(list, uuid)[i]).connection_uuid@
                != uuid,
    decreases list.len(),
{
    reveal(Seq::filter);
    if list.len() > 0 {
        kept_profiles_are_the_others(list.drop_last(), uuid);
    } else {
        assert(others(list, uuid) =~= list.filter(|p: ProxyProfile| p.connection_uuid@ != uuid));
    }
}

/// A saved network shows the strength of the first visible network of that name, and none
/// where no visible network has the name.
pub proof fn signal_is_of_the_network(near: Seq<(String, u8)>, ssid: Seq<char>)
    ensures
        signal_of(near, ssid) is None <==> forall|i: int|
            0 <= i < near.len() ==> (#[trigger] near[i]).0@ != ssid,
        signal_of(near, ssid) is Some ==> exists|i: int|
            0 <= i < near.len() && (#[trigger] near[i]).0@ == ssid && near[i].1 == signal_of(
                near,
                ssid,
            )->0 && (forall|j: int| 0 <= j < i ==> (#[trigger] near[j]).0@ != ssid),
    decreases near.len(),
{
    if near.len() > 0 {
        let rest = near.drop_first();
        if near[0].0@ == ssid {
            assert(near[0].1 == signal_of(near, ssid)->0);
        } else {
            signal_is_of_the_network(rest, ssid);
            if signal_of(rest, ssid) is Some {
                let i = choose|i: int|
                    0 <= i < rest.len() && (#[trigger] rest[i]).0@ == ssid && rest[i].1
                        == signal_of(rest, ssid)->0 && (forall|j: int|
                        0 <= j < i ==> (#[trigger] rest[j]).0@ != ssid);
                assert(near[i + 1] == rest[i]);
                assert forall|j: int| 0 <= j < i + 1 implies (#[trigger] near[j]).0@ != ssid by {
                    if j > 0 {
                        assert(rest[j - 1] == near[j]);
                    }
                }
            } else {
                assert forall|i: int| 0 <= i < near.len() implies (#[trigger] near[i]).0@ != ssid by {
                    if i > 0 {
                        assert(rest[i - 1] == near[i]);
                    }
                }
            }
        }
    }
}

/// In the list of saved networks no network stands before one that is connected while it
/// is not; of others, none stands before one with a stronger signal, nor one out of range
/// before one in range.
pub proof fn nearest_networks_come_first(
    saved: Seq<WifiConnection>,
    near: Seq<(String, u8)>,
    i: int,
    j: int,
)
    requires
        0 <= i < j < entries(saved, near).len(),
    ensures
        ({
            let (a, b) = (entries(saved, near)[i], entries(saved, near)[j]);
            &&& b.active ==> a.active
            &&& a.active == b.active && b.signal is Some ==> a.signal is Some && a.signal->0
                >= b.signal->0
        }),
{
    entries_are_in_order(saved, near);
    let list = entries(saved, near);
    assert(!comes_first(list[j], list[i]));
}

/// A saved network is listed under its SSID, or its name where that is unknown, as
/// connected where it is up, and with the strength of that SSID.
pub proof fn entry_is_of_the_connection(c: WifiConnection, near: Seq<(String, u8)>)
    ensures
        ({
            let e = entry_of(c, near);
            &&& e.uuid == c.uuid@
            &&& e.name == c.name@
            &&& c.ssid is Some ==> e.ssid == c.ssid->0@
            &&& c.ssid is None ==> e.ssid == c.name@
            &&& e.active <==> c.state@ == "activated"@
            &&& e.signal == signal_of(near, e.ssid)
        }),
{
}

/// The connection that is edited first is the first one that is up, where one is.
pub proof fn connected_is_the_first_that_is_up(saved: Seq<WifiConnection>)
    ensures
        connected(saved) is None <==> forall|i: int|
            0 <= i < saved.len() ==> (#[trigger] saved[i]).state@ != "activated"@,
        connected(saved) is Some ==> exists|i: int|
            0 <= i < saved.len() && #[trigger] saved[i] == connected(saved)->0 && saved[i].state@
                == "activated"@ && (forall|j: int|
                0 <= j < i ==> (#[trigger] saved[j]).state@ != "activated"@),
    decreases saved.len(),
{
    if saved.len() > 0 {
        let rest = saved.drop_first();
        if saved[0].state@ == "activated"@ {
            assert(saved[0] == connected(saved)->0);
        } else {
            connected_is_the_first_that_is_up(rest);
            if connected(rest) is Some {
                let i = choose|i: int|
                    0 <= i < rest.len() && #[trigger] rest[i] == connected(rest)->0 && rest[i].state@
                        == "activated"@ && (forall|j: int|
                        0 <= j < i ==> (#[trigger] rest[j]).state@ != "activated"@);
                assert(saved[i + 1] == rest[i]);
                assert forall|j: int| 0 <= j < i + 1 implies (#[trigger] saved[j]).state@
                    != "activated"@ by {
                    if j > 0 {
                        assert(rest[j - 1] == saved[j]);
                    }
                }
            } else {
                assert forall|i: int| 0 <= i < saved.len() implies (#[trigger] saved[i]).state@
                    != "activated"@ by {
                    if i > 0 {
                        assert(rest[i - 1] == saved[i]);
                    }
                }
            }
        }
    }
}

/// Each mark of a test result says whether that check passed: results that are shown alike
/// passed the same checks.
pub proof fn shown_checks_are_those_that_passed(a: ProxyTestResult, b: ProxyTestResult)
    requires
        test_text(Ok(a)) == test_text(Ok(b)),
    ensures
        a.reachable == b.reachable,
        a.authentication_ok == b.authentication_ok,
        a.tcp_ok == b.tcp_ok,
        a.dns_ok == b.dns_ok,
        a.udp_ok == b.udp_ok,
{
    marks_stand_in_place(a);
    marks_stand_in_place(b);
}

/// Where the mark of each check stands: behind the name of the check.
pub proof fn marks_stand_in_place(t: ProxyTestResult)
    ensures
        ({
            let s = test_text(Ok(t));
            &&& s.len() >= 45
            &&& s.take(10) == "reachable "@
            &&& s[10] == '✓' <==> t.reachable
            &&& s.subrange(11, 20) == " · login "@
            &&& s[20] == '✓' <==> t.authentication_ok
            &&& s.subrange(21, 28) == " · TCP "@
            &&& s[28] == '✓' <==> t.tcp_ok
            &&& s.subrange(29, 36) == " · DNS "@
            &&& s[36] == '✓' <==> t.dns_ok
            &&& s.subrange(37, 44) == " · UDP "@
            &&& s[44] == '✓' <==> t.udp_ok
        }),
{
    reveal_strlit("reachable ");
    reveal_strlit(" · login ");
    reveal_strlit(" · TCP ");
    reveal_strlit(" · DNS ");
    reveal_strlit(" · UDP ");
    reveal_strlit("✓");
    reveal_strlit("✗");
    let s = test_text(Ok(t));
    assert(s.take(10) =~= "reachable "@);
    assert(s.subrange(11, 20) =~= " · login "@);
    assert(s.subrange(21, 28) =~= " · TCP "@);
    assert(s.subrange(29, 36) =~= " · DNS "@);
    assert(s.subrange(37, 44) =~= " · UDP "@);
}

/// The proxy row begins with the state that the daemon reports, and says that the daemon
/// does not run where there is no report.
pub proof fn proxy_row_tells_the_state(status: Result<ProxyStatus, String>)
    ensures
        status matches Ok(s) ==> s.proxy_state.name().is_prefix_of(proxy_text(status)),
        status matches Ok(s) ==> s.message is None ==> proxy_text(status) == s.proxy_state.name(),
        status matches Ok(s) ==> s.message is Some ==> s.message->0@.is_suffix_of(
            proxy_text(status),
        ),
        status is Err ==> "Daemon not running"@.is_prefix_of(proxy_text(status)),
{
    reveal_strlit("Daemon not running");
    reveal_strlit("Daemon not running (");
    reveal_strlit(" — ");
    match status {
        Ok(s) => {
            let (name, all) = (s.proxy_state.name(), proxy_text(status));
            assert(all.take(name.len() as int) =~= name);
            if s.message is Some {
                let m = s.message->0@;
                assert(all.skip(all.len() - m.len()) =~= m);
            }
        },
        Err(_) => {
            assert(proxy_text(status).take(18) =~= "Daemon not running"@);
        },
    }
}

/// The lists of choices have each value at a place of its own, SOCKS5 first, UDP through the
/// proxy first, and local networks reached directly first, as a new form has them.
pub proof fn choices_have_their_places(
    t: (ProxyType, ProxyType),
    u: (UdpMode, UdpMode),
    l: (LocalNetMode, LocalNetMode),
)
    ensures
        kind_position(t.0) < 2 && udp_position(u.0) < 3 && local_position(l.0) < 3,
        kind_position(t.0) == kind_position(t.1) ==> t.0 == t.1,
        udp_position(u.0) == udp_position(u.1) ==> u.0 == u.1,
        local_position(l.0) == local_position(l.1) ==> l.0 == l.1,
        kind_position(t.0) == 0 <==> t.0 is Socks5,
        udp_position(u.0) == 0 <==> u.0 is Proxy,
        udp_position(u.0) == 1 <==> u.0 is Block,
        local_position(l.0) == 0 <==> l.0 is Direct,
        local_position(l.0) == 1 <==> l.0 is Proxy,
{
}

/// The network row shows the network that the daemon reports, and, without a report, the
/// one that is known otherwise.
pub proof fn network_row_tells_the_network(status: Result<ProxyStatus, String>, ssid: Option<String>)
    ensures
        status matches Ok(s) ==> s.wifi is Some ==> network_text(status, ssid) == s.wifi->0.ssid@,
        status is Err && ssid is Some ==> network_text(status, ssid) == ssid->0@,
        status matches Ok(s) ==> s.wifi is None ==> network_text(status, ssid) == "Not connected"@,
        status is Err && ssid is None ==> network_text(status, ssid) == "Not connected"@,
{
}

/// The detail rows show the interface, the tunnel and the DNS mode that the daemon reports,
/// and that the kill switch is active just where it is.
pub proof fn detail_rows_tell_the_status(d: DetailRows, s: ProxyStatus)
    requires
        shows_details(d, s),
    ensures
        s.wifi is Some ==> d.interface@ == s.wifi->0.interface@,
        s.tun_name is Some ==> d.tunnel@ == s.tun_name->0@,
        s.dns_mode is Some ==> d.dns@ == s.dns_mode->0.name(),
        d.kill_switch@ == "Active"@ <==> s.kill_switch_active,
{
    reveal_strlit("Active");
    reveal_strlit("Off");
    assert("Active"@.len() == 6 && "Off"@.len() == 3);
}

/// The line below a saved network begins with whether it is connected, and tells the
/// strength of its signal where it is in range.
pub proof fn entry_line_tells_the_state(active: bool, signal: Option<u8>)
    ensures
        "Connected"@.is_prefix_of(entry_text(active, signal)) <==> active,
        "Saved"@.is_prefix_of(entry_text(active, signal)) <==> !active,
        "Out of range"@.is_suffix_of(entry_text(active, signal)) <==> signal is None,
        signal matches Some(s) ==> (text::decimal_text(s as nat).push('%')).is_suffix_of(
            entry_text(active, signal),
        ),
{
    reveal_strlit("Connected");
    reveal_strlit("Saved");
    reveal_strlit(" · Signal ");
    reveal_strlit("%");
    reveal_strlit(" · Out of range");
    reveal_strlit("Out of range");
    let line = entry_text(active, signal);
    let head = if active {
        "Connected"@
    } else {
        "Saved"@
    };
    assert(line.take(head.len() as int) =~= head);
    assert(line[0] == head[0]);
    assert("Connected"@[0] == 'C' && "Saved"@[0] == 'S');
    match signal {
        Some(s) => {
            let tail = text::decimal_text(s as nat).push('%');
            assert(line.skip(line.len() - tail.len()) =~= tail);
            assert(line.last() == '%');
            if "Out of range"@.is_suffix_of(line) {
                assert(line.skip(line.len() - 12).last() == 'e');
            }
        },
        None => {
            assert(line.skip(line.len() - 12) =~= "Out of range"@);
        },
    }
}

/// A form without new credentials keeps those of the profile that it shows, the first one
/// for its connection; there are none to keep where there is no profile for it.
pub proof fn kept_credentials_are_of_the_profile(list: Seq<ProxyProfile>, uuid: Seq<char>, i: int)
    requires
        0 <= i <= list.len(),
        forall|j: int| 0 <= j < i ==> (#[trigger] list[j]).connection_uuid@ != uuid,
        i < list.len() ==> list[i].connection_uuid@ == uuid,
    ensures
        i < list.len() ==> known_secret(list, uuid) == list[i].proxy.secret_id,
        i == list.len() ==> known_secret(list, uuid) is None,
{
    shown_profile_is_the_first(list, uuid);
    if i < list.len() {
        let n = choose|n: int|
            0 <= n < list.len() && #[trigger] list[n] == profile_in(list, uuid)->0
                && list[n].connection_uuid@ == uuid && (forall|j: int|
                0 <= j < n ==> (#[trigger] list[j]).connection_uuid@ != uuid);
        if n < i {
            assert(list[n].connection_uuid@ != uuid);
        } else if i < n {
            assert(list[i].connection_uuid@ != uuid);
        }
    }
}

/// Saving a form leaves just one profile for its connection, which says what was entered,
/// and all the profiles for others. New credentials take the place of those that were known,
/// which are then to be deleted; without new ones those that were known stay.
pub proof fn saving_leaves_one_profile(
    r: Saved,
    list: Seq<ProxyProfile>,
    f: Form,
    stored: Option<String>,
    i: int,
)
    requires
        is_saved(r, list, f, stored),
        0 <= i < r.profiles@.len(),
    ensures
        r.profiles@[i].connection_uuid@ == f.uuid@ <==> i == r.profiles@.len() - 1,
        forall|j: int|
            0 <= j < list.len() && (#[trigger] list[j]).connection_uuid@ != f.uuid@
                ==> r.profiles@.contains(list[j]),
        stored is Some ==> r.profiles@.last().proxy.secret_id == stored && r.replaced == known_secret(
            list,
            f.uuid@,
        ),
        stored is None ==> r.profiles@.last().proxy.secret_id == known_secret(list, f.uuid@)
            && r.replaced is None,
{
    let kept = others(list, f.uuid@);
    kept_profiles_are_the_others(list, f.uuid@);
    if i < kept.len() {
        assert(r.profiles@[i] == r.profiles@.drop_last()[i]);
        assert(kept[i].connection_uuid@ != f.uuid@);
    }
    assert forall|j: int|
        0 <= j < list.len() && (#[trigger] list[j]).connection_uuid@ != f.uuid@ implies r.profiles@.contains(
        list[j],
    ) by {
        saving_leaves_the_others(list, f.uuid@, j);
        let n = choose|n: int| 0 <= n < kept.len() && kept[n] == list[j];
        assert(r.profiles@[n] == r.profiles@.drop_last()[n]);
    }
}

/// The connection that is up is edited only as long as none was picked.
pub proof fn picked_connection_stays(picked: Option<String>, saved: Seq<WifiConnection>)
    ensures
        picked is Some ==> edited_first(picked, saved) is None,
        edited_first(picked, saved) matches Some(c) ==> c.state@ == "activated"@ && saved.contains(c),
        picked is None && edited_first(picked, saved) is None ==> forall|i: int|
            0 <= i < saved.len() ==> (#[trigger] saved[i]).state@ != "activated"@,
{
    connected_is_the_first_that_is_up(saved);
}

} // verus!
