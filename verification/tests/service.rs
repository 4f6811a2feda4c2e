use proxywifi::addr::{parse_ipv4, ProxyAddr};
use proxywifi::models::{
    ActiveWifi, AuthMethod, DnsMode, IpVersionConfig, KillSwitchConfig, LocalNetMode, ProxyConfig,
    ProxyProfile, ProxyState, ProxyTestResult, ProxyType, UdpMode,
};
use proxywifi::config::FilePath;
use proxywifi::profiles::ProfileStore;
use proxywifi::service::engine::{FirewallOps, NoOpFirewall, NoOpProxyEngine, ProxyEngine};
use proxywifi::service::machine::{
    begin_manual_start, begin_poll, begin_stop, finish_manual_start, finish_manual_stop,
    poll_snapshot, should_auto_start, test_target, AfterStop, DaemonStateInner, Outcome, Phase,
    Transition,
};
use proxywifi::service::route::RouteContext;
use proxywifi::service::snapshot::DaemonSnapshot;
use proxywifi::service::startup::{
    choose_data_plane, find_program, program_paths, Candidate, DataPlane,
};

fn profile(enabled: bool, auto_connect: bool) -> ProxyProfile {
    ProxyProfile {
        connection_uuid: "uuid-under-test".to_string(),
        label: None,
        enabled,
        proxy: ProxyConfig {
            proxy_type: ProxyType::Socks5,
            host: "127.0.0.1".to_string(),
            port: 1080,
            authentication: AuthMethod::NoAuth,
            secret_id: None,
        },
        dns: DnsMode::Proxied,
        routing: IpVersionConfig::default(),
        udp: UdpMode::default(),
        local_network: LocalNetMode::default(),
        kill_switch: KillSwitchConfig::default(),
        auto_connect,
    }
}

fn wifi(uuid: &str) -> ActiveWifi {
    ActiveWifi {
        uuid: uuid.to_string(),
        ssid: "home".to_string(),
        interface: "wlan0".to_string(),
        ipv4: None,
        ipv6: None,
        has_default_route: true,
    }
}

/// Stands in for the daemon: answers every phase and notes it.
struct World {
    store: ProfileStore,
    lookup: Result<Vec<ProxyAddr>, String>,
    apply: Result<(), String>,
    start: Result<String, String>,
    running: bool,
    phases: Vec<Phase>,
    routes: Vec<String>,
}

impl World {
    fn with(profile: ProxyProfile) -> World {
        World {
            store: ProfileStore::in_memory(vec![profile]),
            lookup: Ok(vec![parse_ipv4("10.0.0.1").unwrap()]),
            apply: Ok(()),
            start: Ok("pwtun0".to_string()),
            running: true,
            phases: Vec::new(),
            routes: Vec::new(),
        }
    }

    fn run(&mut self, mut t: Transition, state: &mut DaemonStateInner) -> Transition {
        loop {
            let phase = t.phase();
            if phase == Phase::Finished {
                return t;
            }
            self.phases.push(phase);
            let outcome = match phase {
                Phase::StopEngine(_) | Phase::RemoveRules(_) | Phase::Disarm(_) | Phase::UndoRules => {
                    Outcome::Done(Err("only logged".to_string()))
                }
                Phase::FindProfile => Outcome::Profile(self.store.find_enabled_for(t.uuid())),
                Phase::Resolve => Outcome::Addresses(match &self.lookup {
                    Ok(a) => Ok(a.to_vec()),
                    Err(e) => Err(e.clone()),
                }),
                Phase::ApplyRules => {
                    let route = t.route().unwrap();
                    self.routes.push(format!("{} {}", route.iface, route.proxy_ip.text()));
                    assert_eq!(t.profile().unwrap().proxy.port, 1080);
                    Outcome::Done(self.apply.clone())
                }
                Phase::StartEngine => Outcome::Started(self.start.clone()),
                Phase::CheckStarted | Phase::CheckActive => Outcome::Running(self.running),
                Phase::Finished => unreachable!(),
            };
            t = t.resume(state, outcome);
        }
    }

    fn poll(&mut self, state: &mut DaemonStateInner, up: Option<&ActiveWifi>) -> DaemonSnapshot {
        self.phases.clear();
        let profile = up.and_then(|w| self.store.find_enabled_for(&w.uuid));
        let t = begin_poll(state, up, profile.as_ref());
        self.run(t, state);
        poll_snapshot(state, true, up.cloned(), profile)
    }
}

#[test]
fn no_matched_profile_means_no_auto_start() {
    assert!(!should_auto_start(None));
}

#[test]
fn enabled_profile_without_auto_connect_stays_idle() {
    assert!(!should_auto_start(Some(&profile(true, false))));
}

#[test]
fn auto_connect_requires_an_enabled_profile() {
    assert!(!should_auto_start(Some(&profile(false, true))));
}

#[test]
fn enabled_and_auto_connecting_profile_starts() {
    assert!(should_auto_start(Some(&profile(true, true))));
}

#[test]
fn poll_starts_behind_the_rules() {
    let mut w = World::with(profile(true, true));
    let mut s = DaemonStateInner::new();
    let snap = w.poll(&mut s, Some(&wifi("uuid-under-test")));
    assert_eq!(
        w.phases,
        vec![
            Phase::FindProfile,
            Phase::Resolve,
            Phase::ApplyRules,
            Phase::StartEngine,
            Phase::CheckStarted
        ]
    );
    assert_eq!(w.routes, vec!["wlan0 10.0.0.1"]);
    assert_eq!(snap.proxy_state, ProxyState::Active);
    assert!(snap.proxy_active);
    assert!(snap.last_error.is_none());
    let status = snap.status();
    assert_eq!(status.matched_profile_uuid.as_deref(), Some("uuid-under-test"));
    assert!(status.profile_enabled && status.kill_switch_active && status.proxy_active);
    assert_eq!(status.dns_mode, Some(DnsMode::Proxied));
    assert_eq!(status.wifi.unwrap().ssid, "home");
    assert!(status.tun_name.is_none() && status.last_health_check.is_none());
}

#[test]
fn poll_loop_leaves_a_non_auto_connecting_profile_alone() {
    let mut w = World::with(profile(true, false));
    let mut s = DaemonStateInner::new();
    let snap = w.poll(&mut s, Some(&wifi("uuid-under-test")));
    assert_eq!(
        snap.status().matched_profile_uuid.as_deref(),
        Some("uuid-under-test")
    );
    assert_eq!(snap.status().proxy_state.text(), "disconnected");
    assert!(!snap.proxy_active);
    assert!(w.phases.is_empty());
}

#[test]
fn poll_loop_starts_an_auto_connecting_profile() {
    // An engine that proxies nothing reports that it is not running.
    let mut w = World::with(profile(true, true));
    w.running = NoOpProxyEngine.is_running();
    let mut s = DaemonStateInner::new();
    let snap = w.poll(&mut s, Some(&wifi("uuid-under-test")));
    assert_ne!(snap.status().proxy_state.text(), "disconnected");
    assert!(snap.status().message.is_some());
}

#[test]
fn wifi_without_the_default_route_is_left_alone() {
    let mut w = World::with(profile(true, true));
    let mut s = DaemonStateInner::new();
    let mut other = wifi("uuid-under-test");
    other.has_default_route = false;
    w.poll(&mut s, Some(&other));
    assert!(w.phases.is_empty());
}

#[test]
fn unresolved_host_fails_the_start() {
    let mut w = World::with(profile(true, true));
    w.lookup = Err("no such host".to_string());
    let mut s = DaemonStateInner::new();
    let snap = w.poll(&mut s, Some(&wifi("uuid-under-test")));
    assert_eq!(snap.proxy_state, ProxyState::Failed);
    assert_eq!(
        snap.last_error.as_deref(),
        Some("cannot resolve proxy host 127.0.0.1: no such host")
    );
    assert_eq!(w.phases, vec![Phase::FindProfile, Phase::Resolve]);

    let mut s = DaemonStateInner::new();
    w.lookup = Ok(vec![]);
    let snap = w.poll(&mut s, Some(&wifi("uuid-under-test")));
    assert_eq!(
        snap.last_error.as_deref(),
        Some("proxy host 127.0.0.1 has no address")
    );
}

#[test]
fn ipv4_is_preferred() {
    let v6 = ProxyAddr::v6("::1".to_string()).unwrap();
    let both = vec![v6.clone(), parse_ipv4("10.0.0.2").unwrap()];
    let r = RouteContext::resolve(&profile(true, true), "wlan0", Ok(both)).unwrap();
    assert_eq!(r.proxy_ip.text(), "10.0.0.2");
    assert_eq!(r.iface, "wlan0");
    let r = RouteContext::resolve(&profile(true, true), "wlan0", Ok(vec![v6])).unwrap();
    assert_eq!(r.proxy_ip.text(), "::1");
}

#[test]
fn failed_rules_start_nothing() {
    let mut w = World::with(profile(true, true));
    w.apply = Err("nft says no".to_string());
    let mut s = DaemonStateInner::new();
    let snap = w.poll(&mut s, Some(&wifi("uuid-under-test")));
    assert_eq!(
        snap.last_error.as_deref(),
        Some("firewall setup failed: nft says no")
    );
    assert!(!w.phases.contains(&Phase::StartEngine));
}

#[test]
fn failed_engine_removes_the_rules() {
    let mut w = World::with(profile(true, true));
    w.start = Err("no tun".to_string());
    let mut s = DaemonStateInner::new();
    let snap = w.poll(&mut s, Some(&wifi("uuid-under-test")));
    assert_eq!(
        snap.last_error.as_deref(),
        Some("proxy engine failed to start: no tun")
    );
    assert_eq!(w.phases.last(), Some(&Phase::UndoRules));
    assert!(!snap.proxy_active);
}

#[test]
fn unhealthy_start_keeps_the_rules_only_with_the_kill_switch() {
    let mut w = World::with(profile(true, true));
    w.running = false;
    let mut s = DaemonStateInner::new();
    let snap = w.poll(&mut s, Some(&wifi("uuid-under-test")));
    assert_eq!(snap.proxy_state, ProxyState::Failed);
    assert_eq!(
        snap.last_error.as_deref(),
        Some("health check failed: proxy engine is not running")
    );
    assert_eq!(w.phases.last(), Some(&Phase::CheckStarted));

    let mut open = profile(true, true);
    open.kill_switch = KillSwitchConfig { enabled: false };
    let mut w = World::with(open);
    w.running = false;
    let mut s = DaemonStateInner::new();
    let snap = w.poll(&mut s, Some(&wifi("uuid-under-test")));
    assert_eq!(snap.proxy_state, ProxyState::Disconnected);
    assert_eq!(w.phases.last(), Some(&Phase::Disarm(AfterStop::Finish)));
}

#[test]
fn dead_engine_is_noticed_by_a_poll() {
    let mut w = World::with(profile(true, true));
    let mut s = DaemonStateInner::new();
    w.poll(&mut s, Some(&wifi("uuid-under-test")));
    w.running = false;
    let snap = w.poll(&mut s, Some(&wifi("uuid-under-test")));
    assert_eq!(w.phases, vec![Phase::CheckActive]);
    assert_eq!(snap.proxy_state, ProxyState::Failed);
    assert!(!snap.proxy_active);
}

#[test]
fn failed_proxy_backs_off() {
    let mut w = World::with(profile(true, true));
    w.apply = Err("nft says no".to_string());
    let mut s = DaemonStateInner::new();
    w.poll(&mut s, Some(&wifi("uuid-under-test")));
    for _ in 0..5 {
        w.poll(&mut s, Some(&wifi("uuid-under-test")));
        assert!(w.phases.is_empty());
    }
    w.apply = Ok(());
    let snap = w.poll(&mut s, Some(&wifi("uuid-under-test")));
    assert_eq!(w.phases.first(), Some(&Phase::FindProfile));
    assert_eq!(snap.proxy_state, ProxyState::Active);
}

#[test]
fn lost_wifi_stops_the_proxy() {
    let mut w = World::with(profile(true, true));
    let mut s = DaemonStateInner::new();
    w.poll(&mut s, Some(&wifi("uuid-under-test")));
    let snap = w.poll(&mut s, None);
    assert_eq!(
        w.phases,
        vec![
            Phase::StopEngine(AfterStop::Finish),
            Phase::RemoveRules(AfterStop::Finish),
            Phase::Disarm(AfterStop::Finish)
        ]
    );
    assert_eq!(snap.proxy_state, ProxyState::Disconnected);
    assert!(snap.active_wifi.is_none() && snap.wifi_enabled);
    w.poll(&mut s, None);
    assert!(w.phases.is_empty());
}

#[test]
fn disabled_profile_stops_the_proxy() {
    let mut w = World::with(profile(true, true));
    let mut s = DaemonStateInner::new();
    w.poll(&mut s, Some(&wifi("uuid-under-test")));
    w.store.set_enabled("uuid-under-test", false).unwrap();
    let snap = w.poll(&mut s, Some(&wifi("uuid-under-test")));
    assert_eq!(snap.proxy_state, ProxyState::Disconnected);
    assert!(snap.matched_profile.is_none());
}

#[test]
fn roaming_takes_the_old_tunnel_down_first() {
    let mut w = World::with(profile(true, true));
    let mut second = profile(true, true);
    second.connection_uuid = "other".to_string();
    w.store.upsert(second);
    let mut s = DaemonStateInner::new();
    w.poll(&mut s, Some(&wifi("uuid-under-test")));
    let snap = w.poll(&mut s, Some(&wifi("other")));
    assert_eq!(
        w.phases[..4],
        [
            Phase::StopEngine(AfterStop::Start),
            Phase::RemoveRules(AfterStop::Start),
            Phase::Disarm(AfterStop::Start),
            Phase::FindProfile
        ]
    );
    assert_eq!(snap.proxy_state, ProxyState::Active);
    assert_eq!(s.active_uuid.as_deref(), Some("other"));
}

#[test]
fn manual_stop_sticks_until_the_wifi_changes() {
    let mut w = World::with(profile(true, true));
    let mut s = DaemonStateInner::new();
    let mut snap = w.poll(&mut s, Some(&wifi("uuid-under-test")));
    let (t, stopped) = begin_stop(&s);
    assert_eq!(stopped.as_deref(), Some("uuid-under-test"));
    w.run(t, &mut s);
    finish_manual_stop(&mut s, stopped, &mut snap);
    assert_eq!(snap.proxy_state, ProxyState::Disconnected);
    assert!(!snap.proxy_active);

    w.poll(&mut s, Some(&wifi("uuid-under-test")));
    assert!(w.phases.is_empty());
    w.poll(&mut s, None);
    w.poll(&mut s, Some(&wifi("uuid-under-test")));
    assert_eq!(w.phases.first(), Some(&Phase::FindProfile));
}

#[test]
fn stop_proxy_succeeds_when_nothing_is_running() {
    let mut w = World::with(profile(true, true));
    let mut s = DaemonStateInner::new();
    let mut snap = DaemonSnapshot::default();
    let (t, stopped) = begin_stop(&s);
    assert!(stopped.is_none());
    let t = w.run(t, &mut s);
    assert!(t.error().is_none());
    finish_manual_stop(&mut s, stopped, &mut snap);
    assert_eq!(snap.status().proxy_state.text(), "disconnected");
    assert!(!snap.status().proxy_active);
    assert!(s.user_stopped.is_none());
}

#[test]
fn manual_start_needs_no_auto_connect_and_stays_up() {
    let mut w = World::with(profile(true, false));
    let mut s = DaemonStateInner::new();
    let snap = w.poll(&mut s, Some(&wifi("uuid-under-test")));
    let t = begin_manual_start(&mut s, &snap, None).ok().unwrap();
    let t = w.run(t, &mut s);
    let (snap, answer) = finish_manual_start(&mut s, &snap, &t);
    assert!(answer.is_ok());
    assert_eq!(snap.proxy_state, ProxyState::Active);
    assert!(s.manual);
    let snap = w.poll(&mut s, Some(&wifi("uuid-under-test")));
    assert_eq!(w.phases, vec![Phase::CheckActive]);
    assert_eq!(snap.proxy_state, ProxyState::Active);
}

#[test]
fn start_proxy_reports_a_helpful_error_for_unknown_profiles() {
    let mut s = DaemonStateInner::new();
    let snap = DaemonSnapshot::default();
    let err = begin_manual_start(&mut s, &snap, Some("does-not-exist".to_string()))
        .err()
        .unwrap();
    assert!(err.contains("Wi-Fi connection"));
    let err = begin_manual_start(&mut s, &snap, None).err().unwrap();
    assert_eq!(err, "no active Wi-Fi connection");
    let err = test_target(&snap).err().unwrap();
    assert_eq!(err, "no proxy profile is currently matched");
}

#[test]
fn manual_start_is_for_the_active_connection_only() {
    let mut w = World::with(profile(false, false));
    let mut s = DaemonStateInner::new();
    let snap = w.poll(&mut s, Some(&wifi("uuid-under-test")));
    assert_eq!(
        begin_manual_start(&mut s, &snap, Some("other".to_string()))
            .err()
            .unwrap(),
        "connection other is not the active Wi-Fi connection (uuid-under-test)"
    );
    let t = begin_manual_start(&mut s, &snap, Some(String::new())).ok().unwrap();
    let t = w.run(t, &mut s);
    let (_, answer) = finish_manual_start(&mut s, &snap, &t);
    assert_eq!(
        answer.unwrap_err(),
        "no enabled proxy profile for connection uuid-under-test"
    );
    assert!(!s.manual);
}

#[test]
fn manual_start_reports_a_failed_health_check() {
    let mut w = World::with(profile(true, false));
    w.running = false;
    let mut s = DaemonStateInner::new();
    let snap = w.poll(&mut s, Some(&wifi("uuid-under-test")));
    let t = begin_manual_start(&mut s, &snap, Some("uuid-under-test".to_string()))
        .ok()
        .unwrap();
    let t = w.run(t, &mut s);
    let (snap, answer) = finish_manual_start(&mut s, &snap, &t);
    assert_eq!(
        answer.unwrap_err(),
        "health check failed: proxy engine is not running"
    );
    assert_eq!(snap.proxy_state, ProxyState::Failed);
    assert!(s.manual, "the kill switch keeps its rules for the user");
}

#[test]
fn manual_start_reports_a_failed_health_check_without_the_kill_switch() {
    let mut open = profile(true, false);
    open.kill_switch = KillSwitchConfig { enabled: false };
    let mut w = World::with(open);
    w.running = false;
    let mut s = DaemonStateInner::new();
    let snap = w.poll(&mut s, Some(&wifi("uuid-under-test")));
    let t = begin_manual_start(&mut s, &snap, None).ok().unwrap();
    let t = w.run(t, &mut s);
    let (snap, answer) = finish_manual_start(&mut s, &snap, &t);
    assert_eq!(
        answer.unwrap_err(),
        "health check failed: proxy engine is not running"
    );
    assert_eq!(snap.proxy_state, ProxyState::Disconnected);
    assert!(!snap.proxy_active);
    assert!(!s.manual);
    assert!(s.active_uuid.is_none());
    assert_eq!(w.phases.last(), Some(&Phase::Disarm(AfterStop::Finish)));

    // Once the engine runs, the same start succeeds.
    w.running = true;
    let t = begin_manual_start(&mut s, &snap, None).ok().unwrap();
    let t = w.run(t, &mut s);
    let (snap, answer) = finish_manual_start(&mut s, &snap, &t);
    assert!(answer.is_ok());
    assert_eq!(snap.proxy_state, ProxyState::Active);
    assert!(s.manual);
}

#[test]
fn test_runs_on_the_matched_profile() {
    let mut w = World::with(profile(true, false));
    let mut s = DaemonStateInner::new();
    let snap = w.poll(&mut s, Some(&wifi("uuid-under-test")));
    let (p, iface) = test_target(&snap).unwrap();
    assert_eq!(p.connection_uuid, "uuid-under-test");
    assert_eq!(iface, "wlan0");
    let mut torn = snap.clone();
    torn.active_wifi = None;
    assert_eq!(
        test_target(&torn).err().unwrap(),
        "no active Wi-Fi connection"
    );
}

#[test]
fn get_status_returns_a_well_formed_proxy_status() {
    let status = DaemonSnapshot::default().status();
    assert!(status.wifi.is_none());
    assert_eq!(status.proxy_state.text(), "disconnected");
    assert!(!status.proxy_active);
    assert!(!status.wifi_enabled);
    assert!(!status.kill_switch_active);
    assert!(status.matched_profile_uuid.is_none());
    assert!(status.message.is_none());
}

#[test]
fn stubs_do_nothing() {
    let route = RouteContext {
        iface: "wlan0".to_string(),
        proxy_ip: parse_ipv4("10.0.0.1").unwrap(),
    };
    let p = profile(true, true);
    assert_eq!(NoOpProxyEngine.start(&p, &route).unwrap(), "");
    assert!(NoOpProxyEngine.stop().is_ok());
    assert!(!NoOpProxyEngine.is_running());
    let t = NoOpProxyEngine.test(&p, &route).unwrap();
    assert!(!t.reachable && !t.all_passed());
    assert_eq!(
        t.error.as_deref(),
        Some("proxy engine not implemented in prototype")
    );
    assert!(NoOpFirewall.apply(&p, &route).is_ok());
    assert!(NoOpFirewall.remove().is_ok());
    assert!(NoOpFirewall.set_kill_switch(true).is_ok());
}

#[test]
fn every_check_has_to_pass() {
    let all = || ProxyTestResult {
        reachable: true,
        authentication_ok: true,
        tcp_ok: true,
        dns_ok: true,
        ipv4_ok: true,
        ipv6_ok: true,
        udp_ok: true,
        external_ip: None,
        error: None,
    };
    assert!(all().all_passed());
    let mut t = all();
    t.udp_ok = false;
    assert!(!t.all_passed());
}

#[test]
fn names_are_the_ones_on_the_wire() {
    assert_eq!(ProxyType::Socks5.text(), "socks5");
    assert_eq!(ProxyType::Http.text(), "http");
    assert_eq!(AuthMethod::NoAuth.text(), "none");
    assert_eq!(AuthMethod::Keyring.text(), "keyring");
    assert_eq!(DnsMode::default().text(), "proxied");
    assert_eq!(DnsMode::Direct.text(), "direct");
    assert_eq!(UdpMode::default().text(), "proxy");
    assert_eq!(UdpMode::Block.text(), "block");
    assert_eq!(LocalNetMode::default().text(), "direct");
    assert_eq!(LocalNetMode::Proxy.text(), "proxy");
    assert_eq!(ProxyState::default().text(), "disconnected");
    assert_eq!(ProxyState::HealthCheck.text(), "health_check");
    assert_eq!(ProxyState::ProfileLookup.text(), "profile_lookup");
    assert!(KillSwitchConfig::default().enabled);
    assert!(IpVersionConfig::default().ipv4 && !IpVersionConfig::default().ipv6);
}

#[test]
fn daemon_does_not_run_unprotected_by_accident() {
    let at = |name: &str| Some(FilePath::of(&format!("/usr/bin/{name}")));
    match choose_data_plane(at("nft"), at("ip"), at("tun2socks"), true).unwrap() {
        DataPlane::Tunnel { nft, ip, tun2socks } => assert_eq!(
            (nft.bytes, ip.bytes, tun2socks.bytes),
            (
                b"/usr/bin/nft".to_vec(),
                b"/usr/bin/ip".to_vec(),
                b"/usr/bin/tun2socks".to_vec()
            )
        ),
        DataPlane::Stubs => panic!("the programs are there"),
    }
    assert_eq!(
        choose_data_plane(at("nft"), None, at("tun2socks"), false)
            .err()
            .unwrap(),
        "nft, ip and tun2socks must all be installed; \
         set PROXYWIFI_ALLOW_PROTOTYPE=1 to run the observe-only prototype"
    );
    assert!(matches!(
        choose_data_plane(None, None, None, true),
        Ok(DataPlane::Stubs)
    ));
}

#[test]
fn programs_are_looked_for_along_the_path() {
    let at = |path: &str| -> Vec<Vec<u8>> {
        program_paths(&FilePath::of(path), "ip")
            .into_iter()
            .map(|p| p.bytes)
            .collect()
    };
    assert_eq!(
        at("/usr/sbin:/usr/bin/"),
        vec![b"/usr/sbin/ip".to_vec(), b"/usr/bin/ip".to_vec()]
    );
    assert_eq!(at(""), vec![b"ip".to_vec()]);
    assert_eq!(at("/a::"), vec![b"/a/ip".to_vec(), b"ip".to_vec(), b"ip".to_vec()]);
    let raw = FilePath {
        bytes: b"/opt/\xff".to_vec(),
    };
    assert_eq!(program_paths(&raw, "nft")[0].bytes, b"/opt/\xff/nft");
}

#[test]
fn first_executable_on_the_path_is_taken() {
    let place = |path: &str, file_mode: Option<u32>| Candidate {
        path: FilePath::of(path),
        file_mode,
    };
    let candidates = vec![
        place("/missing/ip", None),
        place("/plain/ip", Some(0o100644)),
        place("/first/ip", Some(0o100755)),
        place("/second/ip", Some(0o100755)),
    ];
    assert_eq!(find_program(&candidates).unwrap().bytes, b"/first/ip");
    assert_eq!(
        find_program(&vec![place("/g/ip", Some(0o100010))]).unwrap().bytes,
        b"/g/ip"
    );
    assert_eq!(
        find_program(&vec![place("/o/ip", Some(0o100001))]).unwrap().bytes,
        b"/o/ip"
    );
    assert!(find_program(&vec![place("/plain/ip", Some(0o100666))]).is_none());
    assert!(find_program(&vec![]).is_none());
}

#[test]
fn failed_manual_start_backs_off() {
    let mut w = World::with(profile(true, true));
    w.apply = Err("nft says no".to_string());
    let mut s = DaemonStateInner::new();
    let snap = w.poll(&mut s, Some(&wifi("uuid-under-test")));
    w.poll(&mut s, Some(&wifi("uuid-under-test")));
    w.poll(&mut s, Some(&wifi("uuid-under-test")));
    let t = begin_manual_start(&mut s, &snap, None).ok().unwrap();
    let t = w.run(t, &mut s);
    let (snap, answer) = finish_manual_start(&mut s, &snap, &t);
    assert!(answer.is_err());
    assert_eq!(snap.proxy_state, ProxyState::Failed);
    // The polls before it do not count.
    for _ in 0..5 {
        w.poll(&mut s, Some(&wifi("uuid-under-test")));
        assert!(w.phases.is_empty());
    }
    w.poll(&mut s, Some(&wifi("uuid-under-test")));
    assert_eq!(w.phases.first(), Some(&Phase::FindProfile));
}

#[test]
fn poll_leaves_no_proxy_for_another_connection() {
    let mut w = World::with(profile(true, true));
    let mut s = DaemonStateInner::new();
    w.poll(&mut s, Some(&wifi("uuid-under-test")));
    assert_eq!(s.active_uuid.as_deref(), Some("uuid-under-test"));
    let snap = w.poll(&mut s, Some(&wifi("another")));
    assert!(s.active_uuid.is_none());
    assert_eq!(snap.proxy_state, ProxyState::Disconnected);
}

#[test]
fn stray_outcomes_change_nothing() {
    let mut s = DaemonStateInner::new();
    let up = wifi("uuid-under-test");
    let p = profile(true, true);
    let t = begin_poll(&mut s, Some(&up), Some(&p));
    let t = t
        .resume(&mut s, Outcome::Running(true))
        .resume(&mut s, Outcome::Done(Err("out of turn".to_string())))
        .resume(&mut s, Outcome::Started(Ok("pwtun0".to_string())));
    assert_eq!(t.phase(), Phase::FindProfile);
    assert!(t.error().is_none());
    assert_eq!(s.proxy_state, ProxyState::Disconnected);
    let (t, _) = begin_stop(&s);
    let t = t.resume(&mut s, Outcome::Profile(Some(p)));
    assert_eq!(t.phase(), Phase::StopEngine(AfterStop::Finish));
}
