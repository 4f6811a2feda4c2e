use proxywifi::dbus_server::{
    access_denied, failure, given, requested_uuid, uid_may_control, API_VERSION, CONTROL_GROUP,
    DAEMON_BUS_NAME, DAEMON_OBJECT_PATH,
};
use proxywifi::networkmanager::{
    active_wifi, available_wifi_networks, connect_wifi, saved_wifi_connections, ssid_to_string,
    trim_nuls, wifi_devices, wifi_enabled, AccessPointRecord, ActiveEntry, ActiveRecord,
    ConnectPlan, DeviceRecord, LinkRecord, SavedRecord,
};

fn s(text: &str) -> Option<String> {
    Some(text.to_string())
}

fn active(path: &str, kind: &str, state: u32, ssid: &[u8]) -> ActiveRecord {
    ActiveRecord {
        path: path.to_string(),
        connection_type: s(kind),
        state: Some(state),
        uuid: Some(format!("uuid of {path}")),
        link: Some(LinkRecord {
            interface: s("wlan0"),
            ssid: Some(ssid.to_vec()),
            ipv4: s("192.168.1.2"),
            ipv6: None,
        }),
    }
}

fn saved(path: &str, name: &str, ssid: Option<&[u8]>) -> SavedRecord {
    SavedRecord {
        path: path.to_string(),
        connection_type: s("802-11-wireless"),
        uuid: Some(format!("uuid of {path}")),
        id: s(name),
        ssid: ssid.map(|b| b.to_vec()),
    }
}

fn reading(ssid: &[u8], strength: Option<u8>) -> AccessPointRecord {
    AccessPointRecord {
        ssid: Some(ssid.to_vec()),
        strength,
    }
}

#[test]
fn ssids_are_decoded_lossily() {
    assert_eq!(ssid_to_string(b"home\0\0"), "home");
    assert_eq!(ssid_to_string("caf\u{e9}".as_bytes()), "caf\u{e9}");
    assert_eq!(ssid_to_string(b"caf\xe9"), "caf\u{fffd}");
    assert_eq!(ssid_to_string(b"\0"), "");
    assert_eq!(trim_nuls("a\0b\0"), "a\0b");
}

#[test]
fn wifi_is_on_where_both_answers_say_so() {
    assert!(wifi_enabled(Some(true), Some(true)));
    assert!(!wifi_enabled(Some(true), Some(false)));
    assert!(!wifi_enabled(None, Some(true)));
    assert!(!wifi_enabled(Some(true), None));
}

#[test]
fn wifi_devices_have_an_interface_name() {
    let device = |n: u32, kind: u32, iface: &str| DeviceRecord {
        path: format!("/org/freedesktop/NetworkManager/Devices/{n}"),
        device_type: Some(kind),
        interface: s(iface),
    };
    let devices = wifi_devices(&vec![
        device(1, 32, "lo"),
        device(2, 1, "eth0"),
        device(3, 2, "wlan0"),
        device(4, 2, "wlan1"),
    ]);
    assert_eq!(devices.len(), 2);
    for (path, iface) in &devices {
        assert!(
            path.as_str()
                .starts_with("/org/freedesktop/NetworkManager/Devices/"),
            "unexpected device object path {path}"
        );
        assert!(
            !iface.is_empty(),
            "device {path} was reported without an interface name"
        );
    }
    assert_eq!((devices[0].1.as_str(), devices[1].1.as_str()), ("wlan0", "wlan1"));
}

#[test]
fn unread_device_properties_have_defaults() {
    let device = |path: &str, kind: Option<u32>, iface: Option<String>| DeviceRecord {
        path: path.to_string(),
        device_type: kind,
        interface: iface,
    };
    let devices = vec![
        device("/1", Some(1), s("eth0")),
        device("/2", Some(2), s("wlan0")),
        device("/3", None, s("lo")),
        device("/4", Some(2), None),
    ];
    assert_eq!(
        wifi_devices(&devices),
        vec![
            ("/2".to_string(), "wlan0".to_string()),
            ("/4".to_string(), String::new())
        ]
    );
}

#[test]
fn active_wifi_is_the_one_with_the_default_route() {
    let records = vec![
        active("/eth", "802-3-ethernet", 2, b""),
        active("/a", "802-11-wireless", 2, b"first"),
        active("/b", "802-11-wireless", 2, b"second\0"),
    ];
    let w = active_wifi(&records, Some("/b")).unwrap();
    assert_eq!((w.ssid.as_str(), w.uuid.as_str()), ("second", "uuid of /b"));
    assert!(w.has_default_route);
    assert_eq!(w.interface, "wlan0");
    assert_eq!(w.ipv4.as_deref(), Some("192.168.1.2"));
    assert!(w.ipv6.is_none());

    let w = active_wifi(&records, Some("/eth")).unwrap();
    assert_eq!(w.ssid, "first");
    assert!(!w.has_default_route);
    assert!(!active_wifi(&records, None).unwrap().has_default_route);
}

#[test]
fn incomplete_connections_are_not_reported() {
    let mut unlinked = active("/a", "802-11-wireless", 2, b"x");
    unlinked.link = None;
    let mut untyped = active("/b", "802-11-wireless", 2, b"x");
    untyped.connection_type = None;
    let activating = active("/c", "802-11-wireless", 1, b"x");
    assert!(active_wifi(&vec![unlinked, untyped, activating], Some("/a")).is_none());
    let mut nameless = active("/d", "802-11-wireless", 2, b"");
    nameless.uuid = None;
    let w = active_wifi(&vec![nameless], None).unwrap();
    assert_eq!((w.ssid.as_str(), w.uuid.as_str()), ("", ""));
}

#[test]
fn saved_wifi_connections_are_well_formed() {
    let mut wired = saved("/w", "wired", None);
    wired.connection_type = s("802-3-ethernet");
    let records = vec![
        saved("/2", "zoo", Some(b"zoo-ssid")),
        wired,
        saved("/1", "", Some(b"beach")),
        saved("/3", "Alpha", Some(b"\0")),
    ];
    let up = vec![ActiveEntry {
        settings_path: "/2".to_string(),
        active_path: "/active/7".to_string(),
    }];
    let list = saved_wifi_connections(&records, &up, true);
    let names: Vec<&str> = list.iter().map(|c| c.name.as_str()).collect();
    assert_eq!(names, vec!["Alpha", "beach", "zoo"]);
    assert!(list[0].ssid.is_none());
    assert_eq!(list[1].ssid.as_deref(), Some("beach"));
    assert_eq!(list[1].state, "disconnected");
    assert!(list[1].active_connection_path.is_none());
    assert_eq!(list[2].state, "activated");
    assert_eq!(list[2].active_connection_path.as_deref(), Some("/active/7"));
    assert_eq!(list[2].uuid, "uuid of /2");
    assert!(list.iter().all(|c| c.wifi_enabled && c.interface.is_none()));
}

#[test]
fn connections_of_one_name_keep_their_order() {
    let records = vec![saved("/b", "n", None), saved("/a", "n", None)];
    let list = saved_wifi_connections(&records, &vec![], false);
    assert_eq!(list[0].uuid, "uuid of /b");
    assert_eq!(list[1].uuid, "uuid of /a");
    assert!(!list[0].wifi_enabled);
}

#[test]
fn available_networks_are_strongest_first_and_listed_once() {
    let records = vec![
        reading(b"weak", Some(10)),
        reading(b"home", Some(40)),
        reading(b"", Some(99)),
        reading(b"\0", Some(98)),
        AccessPointRecord {
            ssid: None,
            strength: Some(97),
        },
        reading(b"home\0", Some(80)),
        reading(b"home", Some(70)),
        reading(b"silent", None),
        reading(b"tie", Some(10)),
    ];
    let expected: Vec<(String, u8)> = [("home", 80), ("weak", 10), ("tie", 10), ("silent", 0)]
        .iter()
        .map(|(n, x)| (n.to_string(), *x))
        .collect();
    assert_eq!(available_wifi_networks(&records), expected);
}

#[test]
fn saved_connections_are_reused() {
    let devices = vec![("/dev/1".to_string(), "wlan0".to_string())];
    let mut wired = saved("/w", "home", Some(b"home"));
    wired.connection_type = None;
    let known = vec![wired, saved("/s", "other name", Some(b"home"))];
    match connect_wifi(&devices, &known, "home", Some("ignored")).unwrap() {
        ConnectPlan::Activate { connection, device } => {
            assert_eq!((connection.as_str(), device.as_str()), ("/s", "/dev/1"));
        }
        ConnectPlan::Add { .. } => panic!("the saved connection applies"),
    }
}

#[test]
fn new_connections_are_added() {
    let devices = vec![("/dev/1".to_string(), "wlan0".to_string())];
    for (password, expected) in [(Some("pw"), Some("pw")), (Some(""), None), (None, None)] {
        match connect_wifi(&devices, &vec![], "cafe", password).unwrap() {
            ConnectPlan::Add {
                device,
                id,
                ssid,
                psk,
            } => {
                assert_eq!((device.as_str(), id.as_str()), ("/dev/1", "cafe"));
                assert_eq!(ssid, b"cafe");
                assert_eq!(psk.as_deref(), expected);
            }
            ConnectPlan::Activate { .. } => panic!("nothing is saved"),
        }
    }
    let err = connect_wifi(&vec![], &vec![], "cafe", None).err().unwrap();
    assert_eq!(
        err.message(),
        "NetworkManager is not reachable: no Wi-Fi device found"
    );
}

// ---- the daemon on the bus -------------------------------------------------

const PASSWD: &str = "root:x:0:0:root:/root:/bin/sh\nann:x:1000:1000::/home/ann:/bin/sh\nbob:x:1001:1001::/:/bin/sh\n";
const GROUP: &str = "wheel:x:10:bob\nproxywifi:x:970:ann,carl\n";

#[test]
fn properties_report_version_and_api_level() {
    assert_eq!(API_VERSION, 1);
    assert_eq!(DAEMON_BUS_NAME, "org.proxywifi.Daemon");
    assert_eq!(DAEMON_OBJECT_PATH, "/org/proxywifi/Daemon");
    assert_eq!(CONTROL_GROUP, "proxywifi");
}

#[test]
fn root_and_group_members_may_control() {
    assert!(uid_may_control(0, None, None));
    assert!(uid_may_control(1000, Some(PASSWD), Some(GROUP)));
    assert!(!uid_may_control(1001, Some(PASSWD), Some(GROUP)));
    assert!(!uid_may_control(1002, Some(PASSWD), Some(GROUP)));
    assert!(!uid_may_control(1000, None, Some(GROUP)));
    assert!(!uid_may_control(1000, Some(PASSWD), None));
    assert!(!uid_may_control(
        1000,
        Some(PASSWD),
        Some("proxywifi:x:970\nproxywifi2:x:971:ann\n")
    ));
    assert!(uid_may_control(
        1000,
        Some(PASSWD),
        Some("proxywifi:x:1:bob\nproxywifi:x:2:ann")
    ));
}

#[test]
fn calls_are_answered() {
    assert_eq!(
        access_denied(1001),
        "uid 1001 is not root or a member of group proxywifi"
    );
    assert_eq!(
        failure("could not start proxy", "no active Wi-Fi connection"),
        "could not start proxy: no active Wi-Fi connection"
    );
    assert!(requested_uuid(" \t".to_string()).is_none());
    assert_eq!(requested_uuid(" u ".to_string()).as_deref(), Some(" u "));
    assert!(given(String::new()).is_none());
    assert_eq!(given(" ".to_string()).as_deref(), Some(" "));
}
