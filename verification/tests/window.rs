use proxywifi::models::{
    ActiveWifi, AuthMethod, DnsMode, LocalNetMode, ProxyProfile, ProxyState, ProxyStatus,
    ProxyTestResult, ProxyType, UdpMode, WifiConnection,
};
use proxywifi::window::{
    check_form, default_edit, edit, entry_subtitle, form_secret, kind_at, local_at, save,
    saved_entries, show_test, signal_subtitle, status_rows, udp_at, udp_for, Form,
};

fn s(text: &str) -> String {
    text.to_string()
}

fn filled(uuid: &str) -> Form {
    let mut f = edit(&vec![], uuid);
    f.host = s(" 10.0.0.1 ");
    f
}

fn connection(name: &str, ssid: Option<&str>, state: &str) -> WifiConnection {
    WifiConnection {
        uuid: format!("uuid of {name}"),
        name: s(name),
        ssid: ssid.map(s),
        state: s(state),
        wifi_enabled: true,
        active_connection_path: None,
        interface: None,
    }
}

fn status() -> ProxyStatus {
    ProxyStatus {
        wifi: Some(ActiveWifi {
            uuid: s("u"),
            ssid: s("home"),
            interface: s("wlan0"),
            ipv4: None,
            ipv6: None,
            has_default_route: true,
        }),
        wifi_enabled: true,
        matched_profile_uuid: None,
        profile_enabled: false,
        proxy_state: ProxyState::Failed,
        proxy_active: false,
        tun_name: None,
        dns_mode: Some(DnsMode::Proxied),
        kill_switch_active: true,
        last_health_check: None,
        message: Some(s("engine died")),
    }
}

#[test]
fn new_profiles_have_defaults() {
    let f = edit(&vec![], "u");
    assert_eq!((f.uuid.as_str(), f.host.as_str(), f.port), ("u", "", 1080));
    assert!(f.enabled && f.dns && f.kill && f.auto && !f.ipv6);
    assert_eq!(f.kind, ProxyType::Socks5);
    assert_eq!(f.udp, UdpMode::Proxy);
    assert_eq!(f.local, LocalNetMode::Direct);
    assert_eq!(check_form(&f).unwrap_err(), "Enter a proxy host");
    assert!(check_form(&filled("u")).is_ok());
}

#[test]
fn choices_are_listed_in_order() {
    assert_eq!(kind_at(0), Some(ProxyType::Socks5));
    assert_eq!(kind_at(1), Some(ProxyType::Http));
    assert!(kind_at(2).is_none());
    assert_eq!(udp_at(1), Some(UdpMode::Block));
    assert!(udp_at(3).is_none());
    assert_eq!(local_at(0), Some(LocalNetMode::Direct));
    assert_eq!(local_at(2), Some(LocalNetMode::Block));
    assert!(local_at(3).is_none());
    assert_eq!(udp_for(ProxyType::Http), Some(UdpMode::Block));
    assert!(udp_for(ProxyType::Socks5).is_none());
}

#[test]
fn saved_form_is_shown_again() {
    let mut f = filled("u");
    f.kind = ProxyType::Http;
    f.udp = UdpMode::Block;
    f.dns = false;
    f.auto = false;
    let saved = save(&vec![], f, None);
    let p = &saved.profiles[0];
    assert_eq!(p.proxy.host, "10.0.0.1");
    assert_eq!(p.dns, DnsMode::Direct);
    assert!(p.label.is_none() && p.routing.ipv4);
    let g = edit(&saved.profiles, "u");
    assert_eq!((g.host.as_str(), g.port), ("10.0.0.1", 1080));
    assert_eq!((g.kind, g.udp), (ProxyType::Http, UdpMode::Block));
    assert!(!g.dns && !g.auto && g.kill);
    assert!(g.user.is_empty() && g.pass.is_empty());
}

#[test]
fn blank_credentials_keep_what_is_stored() {
    assert!(form_secret(&filled("u")).is_none());
    let mut f = filled("u");
    f.pass = s("pw");
    let q = form_secret(&f).unwrap();
    assert_eq!(q.label, "ProxyWiFi proxy credentials for u");
    assert_eq!((q.username.as_str(), q.password.as_str()), ("", "pw"));

    let first = save(&vec![], f, Some(s("id1")));
    assert!(first.replaced.is_none());
    assert_eq!(first.profiles[0].proxy.authentication, AuthMethod::Keyring);
    let second = save(&first.profiles, filled("u"), None);
    assert!(second.replaced.is_none());
    assert_eq!(second.profiles[0].proxy.secret_id.as_deref(), Some("id1"));
    let third = save(&second.profiles, filled("u"), Some(s("id2")));
    assert_eq!(third.replaced.as_deref(), Some("id1"));
    assert_eq!(third.profiles[0].proxy.secret_id.as_deref(), Some("id2"));
}

#[test]
fn saving_keeps_the_other_profiles() {
    let mut list: Vec<ProxyProfile> = Vec::new();
    for u in ["a", "b", "c"] {
        list = save(&list, filled(u), None).profiles;
    }
    let saved = save(&list, filled("b"), None).profiles;
    let uuids: Vec<&str> = saved.iter().map(|p| p.connection_uuid.as_str()).collect();
    assert_eq!(uuids, vec!["a", "c", "b"]);
    assert_eq!(saved[2].proxy.authentication, AuthMethod::NoAuth);
}

#[test]
fn status_is_shown() {
    let rows = status_rows(&Ok(status()), &None);
    assert_eq!(rows.network, "home");
    assert_eq!(rows.proxy, "failed — engine died");
    let d = rows.details.unwrap();
    assert_eq!(d.interface, "wlan0");
    assert_eq!(d.tunnel, "—");
    assert_eq!(d.dns, "proxied");
    assert_eq!(d.kill_switch, "Active");

    let mut idle = status();
    idle.wifi = None;
    idle.message = None;
    idle.kill_switch_active = false;
    let rows = status_rows(&Ok(idle), &Some(s("ignored")));
    assert_eq!(
        (rows.network.as_str(), rows.proxy.as_str()),
        ("Not connected", "failed")
    );
    assert_eq!(rows.details.unwrap().kill_switch, "Off");

    let rows = status_rows(&Err(s("no name")), &Some(s("home")));
    assert_eq!(rows.network, "home");
    assert_eq!(rows.proxy, "Daemon not running (no name)");
    assert!(rows.details.is_none());
    assert_eq!(status_rows(&Err(s("x")), &None).network, "Not connected");
}

#[test]
fn test_results_are_shown() {
    let mut t = ProxyTestResult {
        reachable: true,
        authentication_ok: true,
        tcp_ok: true,
        dns_ok: false,
        ipv4_ok: true,
        ipv6_ok: false,
        udp_ok: false,
        external_ip: None,
        error: None,
    };
    assert_eq!(
        show_test(&Ok(t.clone())),
        "reachable ✓ · login ✓ · TCP ✓ · DNS ✗ · UDP ✗"
    );
    t.error = Some(s("no relay"));
    assert!(show_test(&Ok(t)).ends_with("UDP ✗ — no relay"));
    assert_eq!(show_test(&Err(s("busy"))), "busy");
}

#[test]
fn saved_networks_are_listed_by_signal() {
    let near = vec![(s("far"), 20), (s("near"), 90), (s("named"), 50)];
    let saved = vec![
        connection("gone", Some("gone"), "disconnected"),
        connection("x", Some("far"), "disconnected"),
        connection("named", None, "disconnected"),
        connection("y", Some("near"), "disconnected"),
        connection("lost", None, "disconnected"),
        connection("here", Some("hidden"), "activated"),
    ];
    let list = saved_entries(&saved, &near);
    let names: Vec<&str> = list.iter().map(|e| e.name.as_str()).collect();
    assert_eq!(names, vec!["here", "y", "named", "x", "gone", "lost"]);
    assert_eq!(entry_subtitle(&list[0]), "Connected · Out of range");
    assert_eq!(entry_subtitle(&list[1]), "Saved · Signal 90%");
    assert_eq!(list[2].ssid, "named");
    assert_eq!(signal_subtitle(7), "Signal 7%");
}

#[test]
fn connected_network_is_edited_by_default() {
    let saved = vec![
        connection("a", None, "disconnected"),
        connection("b", None, "activated"),
    ];
    assert_eq!(default_edit(&None, &saved).unwrap().name, "b");
    assert!(default_edit(&Some(s("a")), &saved).is_none());
    assert!(default_edit(&None, &saved[..1].to_vec()).is_none());
}
