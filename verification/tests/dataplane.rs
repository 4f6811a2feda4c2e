use proxywifi::addr::{parse_ipv4, ProxyAddr};
use proxywifi::config::FilePath;
use proxywifi::dataplane::probe::{
    first_line, http_request, http_result, http_unreachable, http_verdict, tests_dns, with_dns,
    Credentials,
};
use proxywifi::dataplane::setup::{bind_failure, SetupOutcome, SetupPhase, TunnelSetup};
use proxywifi::dataplane::socks5::{
    after_method, greeting, ProbeOutcome, ProbePhase, Request, Socks5Probe, Stage, Talk,
};
use proxywifi::dataplane::tunnel::{
    command_failure, command_failure_text, config_path, engine_args, gateway_in, gateway_of,
    render_config, show_link_command, show_route_command, spawn_failure, teardown_commands,
    CONFIG_MODE,
};
use proxywifi::models::{
    AuthMethod, DnsMode, IpVersionConfig, KillSwitchConfig, LocalNetMode, ProxyConfig, ProxyProfile,
    ProxyType, UdpMode,
};
use proxywifi::service::route::RouteContext;

fn profile() -> ProxyProfile {
    ProxyProfile {
        connection_uuid: "u".to_string(),
        label: None,
        enabled: true,
        proxy: ProxyConfig {
            proxy_type: ProxyType::Socks5,
            host: "10.9.0.2".to_string(),
            port: 1080,
            authentication: AuthMethod::NoAuth,
            secret_id: None,
        },
        dns: DnsMode::Proxied,
        routing: IpVersionConfig::default(),
        udp: UdpMode::Proxy,
        local_network: LocalNetMode::Direct,
        kill_switch: KillSwitchConfig::default(),
        auto_connect: true,
    }
}

fn route() -> RouteContext {
    RouteContext {
        iface: "wlan0".to_string(),
        proxy_ip: parse_ipv4("10.9.0.2").unwrap(),
    }
}

fn creds(u: &str, p: &str) -> Credentials {
    Credentials {
        username: u.to_string(),
        password: p.to_string(),
    }
}

// ---- the configuration of tun2socks ----------------------------------------

#[test]
fn configuration_carries_the_credentials() {
    assert_eq!(
        render_config(&profile(), &route(), None).unwrap(),
        "device: tun://pwtun0\nproxy: socks5://10.9.0.2:1080\ninterface: wlan0\nloglevel: info\n"
    );
    let mut p = profile();
    p.proxy.proxy_type = ProxyType::Http;
    let r = RouteContext {
        iface: "wlan0".to_string(),
        proxy_ip: ProxyAddr::v6("2001:db8::1".to_string()).unwrap(),
    };
    assert_eq!(
        render_config(&p, &r, Some(&creds("me@x", "a:b"))).unwrap(),
        "device: tun://pwtun0\nproxy: http://me%40x:a%3Ab@[2001:db8::1]:1080\ninterface: wlan0\nloglevel: info\n"
    );
}

#[test]
fn configuration_is_refused_for_an_unusual_interface() {
    let r = RouteContext {
        iface: "wlan0\nx: y".to_string(),
        proxy_ip: parse_ipv4("10.9.0.2").unwrap(),
    };
    assert_eq!(
        render_config(&profile(), &r, None).unwrap_err(),
        "refusing unusual interface name \"wlan0\\nx: y\""
    );
}

// ---- building the tunnel ---------------------------------------------------

/// Run a set-up in which everything succeeds; returns its phases and commands.
fn walk(mut t: TunnelSetup, gateway: Option<&str>) -> (Vec<SetupPhase>, Vec<String>, TunnelSetup) {
    let (mut phases, mut commands) = (Vec::new(), Vec::new());
    loop {
        let phase = t.phase();
        if phase == SetupPhase::Finished {
            return (phases, commands, t);
        }
        phases.push(phase);
        let outcome = match phase {
            SetupPhase::RunIp => {
                commands.push(t.command().unwrap().join(" "));
                SetupOutcome::Done(Ok(()))
            }
            SetupPhase::FindGateway => SetupOutcome::Gateway(gateway.map(str::to_string)),
            _ => SetupOutcome::Done(Ok(())),
        };
        t = t.resume(outcome);
    }
}

#[test]
fn tunnel_is_built_in_order() {
    let (phases, commands, t) = walk(TunnelSetup::new(&profile(), &route(), None), None);
    assert!(t.error().is_none());
    assert_eq!(
        phases,
        vec![
            SetupPhase::WriteConfig,
            SetupPhase::Spawn,
            SetupPhase::ShowLink,
            SetupPhase::RunIp,
            SetupPhase::RunIp,
            SetupPhase::RunIp,
            SetupPhase::RunIp,
            SetupPhase::ServeDns,
        ]
    );
    assert_eq!(
        commands,
        vec![
            "addr add 198.18.0.1/30 dev pwtun0",
            "link set pwtun0 up",
            "route add 0.0.0.0/1 dev pwtun0",
            "route add 128.0.0.0/1 dev pwtun0",
        ]
    );
}

#[test]
fn direct_udp_and_ipv6_take_more_commands() {
    let mut p = profile();
    p.udp = UdpMode::Direct;
    p.dns = DnsMode::Direct;
    p.routing.ipv6 = true;
    let (phases, commands, _) = walk(
        TunnelSetup::new(&p, &route(), Some("10.99.0.1")),
        Some("10.9.0.254"),
    );
    assert!(!phases.contains(&SetupPhase::ServeDns));
    assert_eq!(commands[0], "addr add 10.99.0.1/30 dev pwtun0");
    assert_eq!(
        commands[4..],
        [
            "-6 addr add fd00:5057::1/64 dev pwtun0",
            "-6 route add ::/1 dev pwtun0",
            "-6 route add 8000::/1 dev pwtun0",
            "route replace default via 10.9.0.254 dev wlan0 table 20567",
            "rule add fwmark 0x5057 lookup 20567 priority 20567",
        ]
    );
    let (_, commands, _) = walk(TunnelSetup::new(&p, &route(), None), None);
    assert_eq!(commands[7], "route replace default dev wlan0 table 20567");
}

#[test]
fn device_is_waited_for_thirty_times() {
    let mut t = TunnelSetup::new(&profile(), &route(), None)
        .resume(SetupOutcome::Done(Ok(())))
        .resume(SetupOutcome::Done(Ok(())));
    let mut looks = 0;
    while t.phase() != SetupPhase::Finished {
        assert_eq!(t.phase(), SetupPhase::ShowLink);
        looks += 1;
        t = t
            .resume(SetupOutcome::Done(Err("no such device".to_string())))
            .resume(SetupOutcome::Running(true))
            .resume(SetupOutcome::Waited);
    }
    assert_eq!(looks, 30);
    assert_eq!(t.error().unwrap(), "tun2socks did not create pwtun0");
}

#[test]
fn failed_steps_end_the_set_up() {
    let fresh = || TunnelSetup::new(&profile(), &route(), None);
    let t = fresh().resume(SetupOutcome::Done(Err("disk full".to_string())));
    assert_eq!(t.phase(), SetupPhase::Finished);
    assert_eq!(t.error().unwrap(), "disk full");

    let t = fresh()
        .resume(SetupOutcome::Done(Ok(())))
        .resume(SetupOutcome::Done(Ok(())))
        .resume(SetupOutcome::Done(Err("not yet".to_string())))
        .resume(SetupOutcome::Running(false));
    assert_eq!(
        t.error().unwrap(),
        "tun2socks exited during start-up (see the journal)"
    );

    let t = fresh()
        .resume(SetupOutcome::Done(Ok(())))
        .resume(SetupOutcome::Done(Ok(())))
        .resume(SetupOutcome::Done(Ok(())))
        .resume(SetupOutcome::Done(Err("ip said no".to_string())));
    assert_eq!(t.phase(), SetupPhase::Finished);
    assert_eq!(t.error().unwrap(), "ip said no");
    assert_eq!(
        bind_failure("198.18.0.1", "in use"),
        "cannot bind the DNS forwarder on 198.18.0.1:5335: in use"
    );
}

#[test]
fn commands_are_exact() {
    let lines: Vec<String> = teardown_commands().iter().map(|c| c.join(" ")).collect();
    assert_eq!(
        lines,
        vec![
            "link del pwtun0",
            "rule del priority 20567",
            "route flush table 20567"
        ]
    );
    assert_eq!(show_link_command().join(" "), "link show dev pwtun0");
    assert_eq!(
        show_route_command("wlan0").join(" "),
        "route show default dev wlan0"
    );
}

#[test]
fn gateway_is_the_word_after_via() {
    let out = "default via 10.9.0.254 proto dhcp metric 600 \n";
    assert_eq!(gateway_in(out).as_deref(), Some("10.9.0.254"));
    assert_eq!(gateway_of(out.as_bytes()).as_deref(), Some("10.9.0.254"));
    assert_eq!(gateway_of(b"\xff via \xff\n").as_deref(), Some("\u{fffd}"));
    assert!(gateway_in("default dev wlan0 scope link").is_none());
    assert!(gateway_in("default via").is_none());
    assert!(gateway_in("").is_none());
}

#[test]
fn failures_name_the_command() {
    let args = vec!["link".to_string(), "show".to_string()];
    assert_eq!(
        command_failure("ip", &args, b"  Device does not exist.\n"),
        "ip link show failed: Device does not exist."
    );
    assert_eq!(
        command_failure("ip", &args, b"\xe9"),
        "ip link show failed: \u{fffd}"
    );
    assert_eq!(
        command_failure_text("nft", &vec!["-f".to_string()], "x"),
        "nft -f failed: x"
    );
    assert_eq!(
        spawn_failure("nft", "not found"),
        "could not run nft: not found"
    );
}

// ---- SOCKS5 ----------------------------------------------------------------

/// Answer a session from a script of replies; returns what was sent.
fn converse(mut t: Talk, replies: &[&[u8]]) -> (Vec<Vec<u8>>, Result<(), String>) {
    let mut sent = Vec::new();
    let mut next = replies.iter();
    loop {
        t = match t.stage() {
            Stage::Greeting | Stage::Login | Stage::Asking => {
                sent.push(t.message().to_vec());
                t.sent()
            }
            Stage::Method | Stage::LoginReply | Stage::Head => t.received(next.next().unwrap()),
            Stage::Over => {
                return (sent, t.error().map_or(Ok(()), |e| Err(e.clone())));
            }
        };
    }
}

#[test]
fn session_without_credentials() {
    let (sent, r) = converse(Talk::new(None, None), &[&[5, 0]]);
    assert_eq!(sent, vec![vec![5, 1, 0]]);
    assert!(r.is_ok());
    assert_eq!(greeting(false), vec![5, 1, 0]);
    assert_eq!(greeting(true), vec![5, 1, 2]);
}

#[test]
fn session_with_a_login() {
    let (sent, r) = converse(
        Talk::new(Some(creds("user", "pass")), None),
        &[&[5, 2], &[1, 0]],
    );
    assert_eq!(sent[0], vec![5, 1, 2]);
    assert_eq!(sent[1], b"\x01\x04user\x04pass");
    assert!(r.is_ok());
}

#[test]
fn refusals_end_a_session() {
    let with = || Talk::new(Some(creds("user", "pass")), None);
    assert_eq!(
        converse(with(), &[&[5, 0xff]]).1.unwrap_err(),
        "proxy rejected the authentication method"
    );
    assert_eq!(
        converse(with(), &[&[4, 0]]).1.unwrap_err(),
        "proxy rejected the authentication method"
    );
    let (sent, r) = converse(with(), &[&[5, 2], &[1, 1]]);
    assert_eq!(sent.len(), 2);
    assert_eq!(r.unwrap_err(), "proxy rejected the credentials");
    let long = "x".repeat(256);
    let (sent, r) = converse(Talk::new(Some(creds("u", &long)), None), &[&[5, 2]]);
    assert_eq!(sent.len(), 1);
    assert_eq!(r.unwrap_err(), "credentials too long for SOCKS5");
    let fits = "x".repeat(255);
    assert_eq!(
        after_method(&[5, 2], &Some(creds("u", &fits)))
            .unwrap()
            .unwrap()
            .len(),
        259
    );
    let request = Request {
        bytes: vec![1, 2, 3],
        what: "the moon".to_string(),
    };
    let (sent, r) = converse(Talk::new(None, Some(request)), &[&[5, 0], &[5, 7, 0, 1]]);
    assert_eq!(sent[1], vec![1, 2, 3]);
    assert_eq!(r.unwrap_err(), "proxy refused the moon (reply code 7)");
}

#[test]
fn asked_for_a_login_without_credentials() {
    let (sent, r) = converse(Talk::new(None, None), &[&[5, 2], &[1, 0]]);
    assert_eq!(sent[1], vec![1, 0, 0]);
    assert!(r.is_ok());
}

#[test]
fn probe_asks_for_a_connection_and_a_relay() {
    let p = Socks5Probe::new();
    assert_eq!(p.phase(), ProbePhase::Session);
    assert_eq!(converse(p.talk(None), &[&[5, 0]]).0.len(), 1);
    let p = p.resume(ProbeOutcome::Session(Ok(())));
    assert_eq!(p.phase(), ProbePhase::Connect);
    let (sent, r) = converse(p.talk(None), &[&[5, 0], &[5, 0, 0, 1]]);
    assert_eq!(sent[1], vec![5, 1, 0, 1, 1, 1, 1, 1, 0x01, 0xbb]);
    let p = p.resume(ProbeOutcome::Session(r));
    assert_eq!(p.phase(), ProbePhase::Relay);
    let (sent, r) = converse(p.talk(None), &[&[5, 0], &[5, 7, 0, 1]]);
    assert_eq!(sent[1], vec![5, 3, 0, 1, 0, 0, 0, 0, 0, 0]);
    let p = p.resume(ProbeOutcome::Session(r));
    assert_eq!(p.phase(), ProbePhase::Finished);
    let result = p.result();
    assert!(result.reachable && result.authentication_ok && result.tcp_ok && result.ipv4_ok);
    assert!(!result.udp_ok && !result.dns_ok && !result.ipv6_ok);
    assert_eq!(
        result.error.as_deref(),
        Some("proxy refused UDP ASSOCIATE (reply code 7)")
    );
}

#[test]
fn probe_tells_a_refused_login_from_a_dead_proxy() {
    for reachable in [true, false] {
        let p = Socks5Probe::new().resume(ProbeOutcome::Session(Err("no".to_string())));
        assert_eq!(p.phase(), ProbePhase::Reach);
        let result = p.resume(ProbeOutcome::Reached(reachable)).result();
        assert_eq!(result.reachable, reachable);
        assert!(!result.authentication_ok && !result.tcp_ok);
        assert_eq!(result.error.as_deref(), Some("no"));
    }
}

#[test]
fn probe_shows_the_first_error() {
    let result = Socks5Probe::new()
        .resume(ProbeOutcome::Session(Ok(())))
        .resume(ProbeOutcome::Session(Err("first".to_string())))
        .resume(ProbeOutcome::Session(Err("second".to_string())))
        .result();
    assert_eq!(result.error.as_deref(), Some("first"));
    assert!(!result.tcp_ok && !result.ipv4_ok && !result.udp_ok);
}

// ---- HTTP ------------------------------------------------------------------

#[test]
fn http_request_is_exact() {
    assert_eq!(
        http_request(None),
        "CONNECT 1.1.1.1:443 HTTP/1.1\r\nHost: 1.1.1.1:443\r\n\r\n"
    );
    assert_eq!(
        http_request(Some(&creds("user", "pass"))),
        "CONNECT 1.1.1.1:443 HTTP/1.1\r\nHost: 1.1.1.1:443\r\n\
         Proxy-Authorization: Basic dXNlcjpwYXNz\r\n\r\n"
    );
}

#[test]
fn http_answers_are_judged() {
    let ok = http_result(b"HTTP/1.1 200 Connection established\r\n\r\n");
    assert!(ok.reachable && ok.authentication_ok && ok.tcp_ok && ok.ipv4_ok);
    assert!(ok.error.is_none());

    let denied = http_result(b"HTTP/1.1 407 Proxy \"Auth\" Required\r\nX: y\r\n");
    assert!(denied.reachable && !denied.authentication_ok && !denied.tcp_ok);
    assert_eq!(
        denied.error.as_deref(),
        Some("proxy answered \"HTTP/1.1 407 Proxy \\\"Auth\\\" Required\" to CONNECT")
    );

    let silent = http_result(b"");
    assert!(silent.reachable && silent.authentication_ok && !silent.tcp_ok);
    assert_eq!(
        silent.error.as_deref(),
        Some("proxy answered \"nothing\" to CONNECT")
    );

    let noise = http_result(b"\xff\xfe");
    assert_eq!(
        noise.error.as_deref(),
        Some("proxy answered \"\u{fffd}\u{fffd}\" to CONNECT")
    );
    assert!(http_verdict("HTTP/1.0 200", "unused").tcp_ok);
    assert_eq!(first_line("a\r\nb"), "a");
    assert_eq!(first_line(""), "nothing");
    let dead = http_unreachable("refused".to_string());
    assert!(!dead.reachable && !dead.authentication_ok);
}

#[test]
fn dns_result_is_added() {
    assert!(tests_dns(&profile(), true) && !tests_dns(&profile(), false));
    let mut direct = profile();
    direct.dns = DnsMode::Direct;
    assert!(!tests_dns(&direct, true));
    let r = with_dns(http_result(b"HTTP/1.1 200 OK\r\n"), true);
    assert!(r.dns_ok && r.error.is_none());
    let r = with_dns(http_result(b"HTTP/1.1 200 OK\r\n"), false);
    assert_eq!(r.error.as_deref(), Some("DNS through the tunnel failed"));
    let r = with_dns(http_unreachable("refused".to_string()), false);
    assert_eq!(r.error.as_deref(), Some("refused"));
}

// ---- where the password goes -----------------------------------------------

#[test]
fn password_stands_in_the_configuration_alone() {
    assert_eq!(CONFIG_MODE, 0o600);
    let config = config_path(&FilePath::of("/run/proxywifi"));
    assert_eq!(config.bytes, b"/run/proxywifi/tun2socks.yaml");
    let args: Vec<Vec<u8>> = engine_args(&config).into_iter().map(|a| a.bytes).collect();
    assert_eq!(
        args,
        vec![b"-config".to_vec(), b"/run/proxywifi/tun2socks.yaml".to_vec()]
    );
    let yaml = render_config(&profile(), &route(), Some(&creds("user", "hunter2"))).unwrap();
    assert!(yaml.contains("user:hunter2@"));
}

// ---- outcomes out of turn --------------------------------------------------

#[test]
fn stray_setup_outcomes_change_nothing() {
    let t = TunnelSetup::new(&profile(), &route(), None)
        .resume(SetupOutcome::Waited)
        .resume(SetupOutcome::Running(false))
        .resume(SetupOutcome::Gateway(None));
    assert_eq!(t.phase(), SetupPhase::WriteConfig);
    assert!(t.error().is_none());
    let t = t
        .resume(SetupOutcome::Done(Ok(())))
        .resume(SetupOutcome::Done(Ok(())))
        .resume(SetupOutcome::Done(Err("not yet".to_string())))
        .resume(SetupOutcome::Done(Err("out of turn".to_string())))
        .resume(SetupOutcome::Done(Ok(())));
    assert_eq!(t.phase(), SetupPhase::CheckChild);
    assert!(t.error().is_none());
    let (_, _, t) = walk(TunnelSetup::new(&profile(), &route(), None), None);
    let t = t.resume(SetupOutcome::Done(Err("too late".to_string())));
    assert_eq!(t.phase(), SetupPhase::Finished);
    assert!(t.error().is_none());
}

#[test]
fn stray_session_steps_change_nothing() {
    let t = Talk::new(None, None);
    assert_eq!(t.wanted(), 0);
    let t = t.received(&[5, 0]);
    assert_eq!(t.stage(), Stage::Greeting);
    let t = t.sent().sent();
    assert_eq!((t.stage(), t.wanted()), (Stage::Method, 2));
    let t = t.received(&[5]).received(&[5, 0, 0]).received(&[]);
    assert_eq!(t.stage(), Stage::Method);
    let t = t.received(&[5, 0]);
    assert_eq!(t.stage(), Stage::Over);
    let t = t.sent().received(&[]);
    assert_eq!(t.stage(), Stage::Over);
    assert!(t.error().is_none());
}

#[test]
fn stray_probe_outcomes_change_nothing() {
    let p = Socks5Probe::new().resume(ProbeOutcome::Reached(true));
    assert_eq!(p.phase(), ProbePhase::Session);
    let p = p
        .resume(ProbeOutcome::Session(Err("no".to_string())))
        .resume(ProbeOutcome::Session(Ok(())));
    assert_eq!(p.phase(), ProbePhase::Reach);
    let p = p
        .resume(ProbeOutcome::Reached(true))
        .resume(ProbeOutcome::Session(Ok(())));
    assert_eq!(p.phase(), ProbePhase::Finished);
    let r = p.result();
    assert!(r.reachable && !r.authentication_ok);
    assert_eq!(r.error.as_deref(), Some("no"));
    let r = Socks5Probe::new().result();
    assert!(!r.reachable && r.error.is_none());
}
