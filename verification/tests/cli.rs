use proxywifi::cli::commands::{
    is_write, list_profiles, overwrite_warning, run_command, secret_ids, secret_request, sorted_profiles,
    unused_secrets, AddRequest, CommandError, ProfileCommand,
};
use proxywifi::cli::options::{parse_local_network, parse_proxy_type, parse_udp, passphrase};
use proxywifi::cli::status::{report_offline, report_online, Reading};
use proxywifi::models::{
    ActiveWifi, AuthMethod, DnsMode, IpVersionConfig, KillSwitchConfig, LocalNetMode, ProxyConfig,
    ProxyProfile, ProxyType, UdpMode, WifiConnection,
};
use proxywifi::profiles::ProfileStore;

fn request(uuid: &str) -> AddRequest {
    AddRequest {
        uuid: uuid.to_string(),
        host: " 10.0.0.1 ".to_string(),
        port: 1080,
        proxy_type: "socks5".to_string(),
        label: None,
        disable: false,
        auto_connect: false,
        direct_dns: false,
        no_kill_switch: false,
        udp: "proxy".to_string(),
        local_network: "direct".to_string(),
        ipv6: false,
        secret_id: None,
    }
}

fn run(store: &mut ProfileStore, c: ProfileCommand) -> Result<Vec<String>, String> {
    let mut printed: Vec<String> = overwrite_warning(store, &c).into_iter().collect();
    let lines = run_command(store, c).map_err(|e| match e {
        CommandError::Refused(why) => why,
        CommandError::Store(e) => e.message(),
    })?;
    printed.extend(lines);
    Ok(printed)
}

fn store_with(uuids: &[&str]) -> ProfileStore {
    let mut store = ProfileStore::in_memory(vec![]);
    for u in uuids {
        run(&mut store, ProfileCommand::Add(request(u))).unwrap();
    }
    store
}

fn s(text: &str) -> String {
    text.to_string()
}

#[test]
fn options_are_read() {
    assert_eq!(parse_udp("Block").unwrap(), UdpMode::Block);
    assert_eq!(parse_udp("direct").unwrap(), UdpMode::Direct);
    assert_eq!(
        parse_udp("Some").unwrap_err(),
        "unknown UDP mode 'some' (proxy, block, direct)"
    );
    assert_eq!(parse_local_network("PROXY").unwrap(), LocalNetMode::Proxy);
    assert_eq!(
        parse_local_network("").unwrap_err(),
        "unknown local-network mode '' (proxy, direct, block)"
    );
    assert_eq!(parse_proxy_type("socks").unwrap(), ProxyType::Socks5);
    assert_eq!(parse_proxy_type("HTTP").unwrap(), ProxyType::Http);
    assert_eq!(
        parse_proxy_type("ftp").unwrap_err(),
        "unsupported proxy type 'ftp' (supported: socks5, http)"
    );
    // Only ASCII letters are lowered.
    assert_eq!(
        parse_proxy_type("\u{c9}T").unwrap_err(),
        "unsupported proxy type '\u{c9}t' (supported: socks5, http)"
    );
}

#[test]
fn passphrase_is_the_line_without_its_end() {
    assert_eq!(passphrase("secret \r\n"), "secret ");
    assert_eq!(passphrase("secret"), "secret");
    assert_eq!(passphrase("\n\n"), "");
}

#[test]
fn add_saves_a_profile() {
    let mut store = ProfileStore::in_memory(vec![]);
    let lines = run(&mut store, ProfileCommand::Add(request("u1"))).unwrap();
    assert_eq!(
        lines,
        vec![
            "Profile saved for connection u1.",
            "Profile is enabled but auto-connect is off; it will only be used when started manually."
        ]
    );
    let p = store.get("u1").unwrap();
    assert_eq!(p.proxy.host, "10.0.0.1");
    assert_eq!(p.proxy.authentication, AuthMethod::NoAuth);
    assert_eq!(p.dns, DnsMode::Proxied);
    assert!(p.enabled && !p.auto_connect && p.kill_switch.enabled);
    assert!(p.routing.ipv4 && !p.routing.ipv6);

    let mut q = request("u1");
    q.auto_connect = true;
    q.direct_dns = true;
    q.no_kill_switch = true;
    q.ipv6 = true;
    q.secret_id = Some(s("id"));
    q.udp = s("BLOCK");
    let lines = run(&mut store, ProfileCommand::Add(q)).unwrap();
    assert_eq!(
        lines[1],
        "The daemon will activate this proxy whenever that Wi-Fi connects."
    );
    let p = store.get("u1").unwrap();
    assert_eq!(p.proxy.authentication, AuthMethod::Keyring);
    assert_eq!(p.proxy.secret_id.as_deref(), Some("id"));
    assert_eq!(p.dns, DnsMode::Direct);
    assert_eq!(p.udp, UdpMode::Block);
    assert!(!p.kill_switch.enabled && p.routing.ipv6);
    assert_eq!(store.len(), 1);

    let mut q = request("u2");
    q.disable = true;
    let lines = run(&mut store, ProfileCommand::Add(q)).unwrap();
    assert_eq!(
        lines[1],
        "Profile is disabled; enable it with `proxywifi profiles enable <uuid>`."
    );
}

#[test]
fn bad_requests_change_nothing() {
    let mut store = store_with(&["u1"]);
    let mut q = request("u2");
    q.host = s(" \t");
    q.port = 0;
    assert_eq!(
        run(&mut store, ProfileCommand::Add(q)).unwrap_err(),
        "proxy host must not be empty"
    );
    let mut q = request("u2");
    q.port = 0;
    assert_eq!(
        run(&mut store, ProfileCommand::Add(q)).unwrap_err(),
        "proxy port must be between 1 and 65535"
    );
    // The first option that cannot be read is the one that is reported.
    let mut q = request("u2");
    q.proxy_type = s("x");
    q.udp = s("y");
    q.host = s("");
    assert_eq!(
        run(&mut store, ProfileCommand::Add(q)).unwrap_err(),
        "unsupported proxy type 'x' (supported: socks5, http)"
    );
    let mut q = request("u2");
    q.udp = s("y");
    q.local_network = s("z");
    assert_eq!(
        run(&mut store, ProfileCommand::Add(q)).unwrap_err(),
        "unknown UDP mode 'y' (proxy, block, direct)"
    );
    assert_eq!(store.len(), 1);
}

#[test]
fn profiles_are_removed_enabled_and_assigned() {
    let mut store = store_with(&["u1", "u2"]);
    assert_eq!(
        run(&mut store, ProfileCommand::Disable(s("u1"))).unwrap(),
        vec!["Profile u1 disabled."]
    );
    assert!(!store.get("u1").unwrap().enabled && store.get("u2").unwrap().enabled);
    assert_eq!(
        run(&mut store, ProfileCommand::Enable(s("u1"))).unwrap(),
        vec!["Profile u1 enabled."]
    );
    assert!(store.get("u1").unwrap().enabled);
    assert_eq!(
        run(&mut store, ProfileCommand::Enable(s("nope"))).unwrap_err(),
        "profile store error: profile store internal error: no profile for uuid nope"
    );
    assert_eq!(
        run(&mut store, ProfileCommand::Assign(s("u3"), s("u1"))).unwrap(),
        vec!["Assigned profile to connection u3."]
    );
    assert_eq!(store.get("u3").unwrap().connection_uuid, "u3");
    assert_eq!(
        run(&mut store, ProfileCommand::Assign(s("u2"), s("u1"))).unwrap(),
        vec![
            "warning: overwriting the existing profile for u2",
            "Assigned profile to connection u2."
        ]
    );
    assert_eq!(
        run(&mut store, ProfileCommand::Assign(s("u2"), s("nope"))).unwrap_err(),
        "no profile with uuid nope"
    );
    assert_eq!(
        run(&mut store, ProfileCommand::Remove(s("u2"))).unwrap(),
        vec!["Removed profile for connection u2."]
    );
    assert_eq!(
        run(&mut store, ProfileCommand::Remove(s("u2"))).unwrap_err(),
        "no profile for connection u2"
    );
    assert_eq!(store.len(), 2);
    assert!(is_write(&ProfileCommand::Remove(s("u2"))) && !is_write(&ProfileCommand::List));
}

#[test]
fn profiles_are_listed_in_order() {
    let mut store = ProfileStore::in_memory(vec![]);
    assert_eq!(
        list_profiles(&store),
        vec![
            "No proxy profiles configured.",
            "Add one with: proxywifi profiles add <connection-uuid> --host <host> --port <port>"
        ]
    );
    for u in ["b", "a"] {
        run(&mut store, ProfileCommand::Add(request(u))).unwrap();
    }
    let uuids: Vec<String> = sorted_profiles(&store)
        .into_iter()
        .map(|p| p.connection_uuid)
        .collect();
    assert_eq!(uuids, vec!["a", "b"]);
    let lines = run(&mut store, ProfileCommand::List).unwrap();
    assert_eq!(lines[1], "2 profile(s).");
    let expected = "\
┌─────────────────┬───────┬─────────┬──────┬────────────────────────┬─────────┬─────────────┬──────┐
│ Connection UUID ┆ Label ┆ Status  ┆ Auto ┆ Proxy                  ┆ DNS     ┆ Kill switch ┆ Auth │
╞═════════════════╪═══════╪═════════╪══════╪════════════════════════╪═════════╪═════════════╪══════╡
│ a               ┆ -     ┆ enabled ┆ no   ┆ socks5://10.0.0.1:1080 ┆ proxied ┆ on          ┆ none │
├╌╌╌╌╌╌╌╌╌╌╌╌╌╌╌╌╌┼╌╌╌╌╌╌╌┼╌╌╌╌╌╌╌╌╌┼╌╌╌╌╌╌┼╌╌╌╌╌╌╌╌╌╌╌╌╌╌╌╌╌╌╌╌╌╌╌╌┼╌╌╌╌╌╌╌╌╌┼╌╌╌╌╌╌╌╌╌╌╌╌╌┼╌╌╌╌╌╌┤
│ b               ┆ -     ┆ enabled ┆ no   ┆ socks5://10.0.0.1:1080 ┆ proxied ┆ on          ┆ none │
└─────────────────┴───────┴─────────┴──────┴────────────────────────┴─────────┴─────────────┴──────┘";
    assert_eq!(lines[0], expected);
}

fn wifi() -> ActiveWifi {
    ActiveWifi {
        uuid: s("u1"),
        ssid: s("home"),
        interface: s("wlan0"),
        ipv4: Some(s("192.168.1.2")),
        ipv6: None,
        has_default_route: true,
    }
}

fn cells(table: &str) -> Vec<Vec<String>> {
    table
        .lines()
        .filter(|l| l.starts_with('│'))
        .map(|l| {
            l.trim_matches('│')
                .split('┆')
                .map(|c| c.trim().to_string())
                .collect()
        })
        .collect()
}

fn row(name: &str, value: &str) -> Vec<String> {
    vec![s(name), s(value)]
}

#[test]
fn status_without_networkmanager() {
    let r = report_offline(3, "/etc/p.json");
    assert_eq!(
        r.lines,
        vec![
            "NetworkManager: NOT REACHABLE (system D-Bus)",
            "Stored proxy profiles: 3 (/etc/p.json profile file)"
        ]
    );
    assert_eq!(
        r.error.as_deref(),
        Some("cannot read Wi-Fi state without NetworkManager")
    );
    assert!(r.warning.is_none());
}

#[test]
fn status_of_a_connected_machine() {
    let reading = Reading {
        wifi_enabled: true,
        active: Some(wifi()),
        saved: Ok(vec![]),
    };
    let r = report_online(&store_with(&["u1"]), &reading);
    assert!(r.error.is_none() && r.warning.is_none());
    assert_eq!(r.lines.len(), 1);
    assert_eq!(
        cells(&r.lines[0]),
        vec![
            row("Property", "Value"),
            row("Wi-Fi enabled", "true"),
            row("Connected SSID", "home"),
            row("Connection UUID", "u1"),
            row("Interface", "wlan0"),
            row("IPv4", "192.168.1.2"),
            row("IPv6", "-"),
            row("Default route", "true"),
            row("Matched profile", "<no label>"),
            row("Profile enabled", "true"),
            row("Auto-activate", "false"),
            row("Proxy", "socks5://10.0.0.1:1080"),
            row("DNS mode", "proxied"),
            row("Kill switch", "true"),
        ]
    );
    let r = report_online(&store_with(&[]), &reading);
    assert_eq!(
        cells(&r.lines[0]).last().unwrap(),
        &row("Matched profile", "none assigned to this connection")
    );
}

#[test]
fn status_without_a_connection_lists_the_saved_ones() {
    let saved = vec![WifiConnection {
        uuid: s("u9"),
        name: s("cafe"),
        ssid: None,
        state: s("disconnected"),
        wifi_enabled: false,
        active_connection_path: None,
        interface: None,
    }];
    let mut reading = Reading {
        wifi_enabled: false,
        active: None,
        saved: Ok(saved),
    };
    let r = report_online(&store_with(&[]), &reading);
    assert_eq!(
        cells(&r.lines[0])[1..],
        [
            row("Wi-Fi enabled", "false"),
            row("Connected SSID", "(not connected)"),
            row("Matched profile", "n/a")
        ]
    );
    assert_eq!(r.lines[1], "\nSaved Wi-Fi connections:");
    assert_eq!(
        cells(&r.lines[2]),
        vec![
            vec![s("UUID"), s("Name"), s("SSID"), s("State")],
            vec![s("u9"), s("cafe"), s("-"), s("disconnected")]
        ]
    );

    reading.saved = Err(s("bus is gone"));
    let r = report_online(&store_with(&[]), &reading);
    assert_eq!(r.lines.len(), 1);
    assert_eq!(
        r.warning.as_deref(),
        Some("warning: could not list saved Wi-Fi connections: bus is gone")
    );
    reading.saved = Ok(vec![]);
    let r = report_online(&store_with(&[]), &reading);
    assert!(r.lines.len() == 1 && r.warning.is_none());
}

#[test]
fn credentials_are_stored_and_dropped() {
    assert!(secret_request("u1", None, None).is_none());
    let q = secret_request("u1", None, Some(s("pw"))).unwrap();
    assert_eq!(q.label, "ProxyWiFi proxy credentials for u1");
    assert_eq!((q.username.as_str(), q.password.as_str()), ("", "pw"));

    let mut store = ProfileStore::in_memory(vec![]);
    for (uuid, id) in [("u1", "s1"), ("u2", "s2")] {
        let mut q = request(uuid);
        q.secret_id = Some(s(id));
        run(&mut store, ProfileCommand::Add(q)).unwrap();
    }
    run(&mut store, ProfileCommand::Assign(s("u3"), s("u1"))).unwrap();
    let before = secret_ids(&store);
    assert_eq!(before.len(), 2);
    run(&mut store, ProfileCommand::Remove(s("u1"))).unwrap();
    assert!(unused_secrets(&before, &store).is_empty(), "u3 shares s1");
    run(&mut store, ProfileCommand::Remove(s("u3"))).unwrap();
    assert_eq!(unused_secrets(&before, &store), vec!["s1"]);
    run(&mut store, ProfileCommand::Add(request("u2"))).unwrap();
    assert_eq!(unused_secrets(&before, &store).len(), 2);
}

#[test]
fn overwriting_is_announced_before_it_is_done() {
    let store = store_with(&["u1", "u2"]);
    let assign = |to: &str, from: &str| ProfileCommand::Assign(s(to), s(from));
    assert_eq!(
        overwrite_warning(&store, &assign("u2", "u1")).unwrap(),
        "warning: overwriting the existing profile for u2"
    );
    assert!(overwrite_warning(&store, &assign("u3", "u1")).is_none());
    assert!(overwrite_warning(&store, &assign("u2", "nope")).is_none());
    assert!(overwrite_warning(&store, &ProfileCommand::Remove(s("u1"))).is_none());
}

#[test]
fn get_proxy_profiles_returns_the_stored_profiles() {
    let seeded = ProxyProfile {
        connection_uuid: s("00000000-0000-0000-0000-000000000000"),
        label: Some(s("dbus surface test")),
        enabled: true,
        proxy: ProxyConfig {
            proxy_type: ProxyType::Socks5,
            host: s("127.0.0.1"),
            port: 11080,
            authentication: AuthMethod::NoAuth,
            secret_id: None,
        },
        dns: DnsMode::Proxied,
        routing: IpVersionConfig::default(),
        udp: UdpMode::default(),
        local_network: LocalNetMode::default(),
        kill_switch: KillSwitchConfig::default(),
        auto_connect: true,
    };
    let mut store = ProfileStore::in_memory(vec![]);
    store.upsert(seeded);
    let list: Vec<ProxyProfile> = store.all();
    assert_eq!(list.len(), 1, "seeded exactly one profile");
    assert_eq!(
        list[0].connection_uuid,
        "00000000-0000-0000-0000-000000000000"
    );
    assert!(list[0].enabled);
    assert_eq!(list[0].proxy.host, "127.0.0.1");
    assert_eq!(list[0].proxy.port, 11080);
}
