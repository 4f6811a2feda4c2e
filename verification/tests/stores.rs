use proxywifi::config::{ConfigPaths, FilePath};
use proxywifi::error::Error;
use proxywifi::models::{
    AuthMethod, DnsMode, IpVersionConfig, KillSwitchConfig, LocalNetMode, ProxyConfig, ProxyProfile,
    ProxyType, UdpMode,
};
use proxywifi::networkmanager::NmError;
use proxywifi::profiles::{
    backup_name, corrupt_message, next_backup_path, store_mode, ProfileStore, ProfileStoreError,
    StoreFile, MAX_BACKUP_ATTEMPTS,
};
use proxywifi::saving::{SavePhase, Saving};
use proxywifi::secrets::{
    file_error_message, new_id, secret_to_look_up, FileSecrets, NoOpSecrets, SecretServiceError,
    SecretServiceOps, SecretValue, SecretsFile,
};
use std::collections::HashMap;

/// A file: what it holds, and its permission bits.
#[derive(Clone)]
struct File {
    text: String,
    profiles: Result<Vec<ProxyProfile>, String>,
    mode: u32,
}

/// Stands in for the disk. The phase in `fails` does not succeed.
struct Disk {
    files: HashMap<Vec<u8>, File>,
    fails: Option<SavePhase>,
}

const PID: u32 = 42;

impl Disk {
    fn new() -> Disk {
        Disk {
            files: HashMap::new(),
            fails: None,
        }
    }

    fn store() -> FilePath {
        FilePath::of("/scratch/profiles.json")
    }

    fn quarantine() -> FilePath {
        FilePath::of("/scratch/profiles.json.corrupt")
    }

    fn holds(&self, path: &FilePath) -> bool {
        self.files.contains_key(&path.bytes)
    }

    fn write(&mut self, path: &FilePath, text: &str) {
        let file = File {
            text: text.to_string(),
            profiles: Err("expected value".to_string()),
            mode: 0o644,
        };
        self.files.insert(path.bytes.clone(), file);
    }

    /// Load the store, moving a corrupt file aside.
    fn load(&mut self) -> Result<ProfileStore, Error> {
        let path = Disk::store();
        let taken = (0..=MAX_BACKUP_ATTEMPTS)
            .map(|n| self.holds(&backup_name(&path, n)))
            .collect();
        let file = match self.files.get(&path.bytes) {
            None => StoreFile::Missing,
            Some(f) => StoreFile::Read(f.text.clone(), f.profiles.clone()),
        };
        let loaded = ProfileStore::load_or_create(path, file, &taken);
        if let Err(Error::Profiles(ProfileStoreError::Corrupt { path, backup, .. })) = &loaded {
            let bytes = self.files.remove(&path.bytes).unwrap();
            self.files.insert(backup.bytes.clone(), bytes);
        }
        loaded
    }

    /// Save the store, doing what each phase asks for; the phases, and how it ended.
    fn try_save(&mut self, store: &ProfileStore) -> (Vec<SavePhase>, Result<(), String>) {
        let plan = store.save(PID).unwrap();
        let current = self.files.get(&plan.path.bytes).map(|f| f.mode);
        let mut saving = plan.saving(current);
        let mut phases = Vec::new();
        while saving.phase() != SavePhase::Finished {
            phases.push(saving.phase());
            if self.fails == Some(saving.phase()) {
                saving = saving.resume(Err("no space left".to_string()));
                continue;
            }
            match saving.phase() {
                SavePhase::Write => {
                    let file = File {
                        text: "[...]".to_string(),
                        profiles: Ok(plan.profiles.clone()),
                        mode: saving.mode(),
                    };
                    self.files.insert(saving.tmp().bytes.clone(), file);
                }
                SavePhase::Rename => {
                    let written = self.files.remove(&saving.tmp().bytes).unwrap();
                    self.files.insert(saving.path().bytes.clone(), written);
                }
                SavePhase::SyncDir | SavePhase::Finished => {}
            }
            saving = saving.resume(Ok(()));
        }
        (phases, saving.outcome())
    }

    fn save(&mut self, store: &ProfileStore) {
        self.try_save(store).1.unwrap();
    }
}

fn profile(uuid: &str, enabled: bool, auto_connect: bool) -> ProxyProfile {
    ProxyProfile {
        connection_uuid: uuid.to_string(),
        label: Some(format!("label for {uuid}")),
        enabled,
        proxy: ProxyConfig {
            proxy_type: ProxyType::Socks5,
            host: "127.0.0.1".to_string(),
            port: 1080,
            authentication: AuthMethod::NoAuth,
            secret_id: None,
        },
        dns: DnsMode::Proxied,
        routing: IpVersionConfig::default(),
        udp: UdpMode::default(),
        local_network: LocalNetMode::default(),
        kill_switch: KillSwitchConfig::default(),
        auto_connect,
    }
}

#[test]
fn missing_store_loads_empty_and_is_not_created() {
    let mut disk = Disk::new();
    let store = disk.load().expect("load");

    assert!(store.is_empty());
    assert!(
        !disk.holds(&Disk::store()),
        "loading must not create the store file"
    );
}

#[test]
fn profiles_round_trip_through_disk() {
    let mut disk = Disk::new();
    {
        let mut store = disk.load().expect("load");
        store.upsert(profile("uuid-a", true, true));
        disk.save(&store);
        store.upsert(profile("uuid-b", false, false));
        disk.save(&store);
    }

    let reloaded = disk.load().expect("reload");
    assert_eq!(reloaded.len(), 2);

    let a = reloaded.get("uuid-a").expect("uuid-a present");
    assert!(a.enabled);
    assert!(a.auto_connect);
    assert_eq!(a.proxy.port, 1080);

    let b = reloaded.get("uuid-b").expect("uuid-b present");
    assert!(!b.enabled);
    assert!(!b.auto_connect);
}

#[test]
fn enable_disable_and_remove_persist() {
    let mut disk = Disk::new();
    let mut store = disk.load().expect("load");
    store.upsert(profile("uuid-a", true, true));
    disk.save(&store);

    store.set_enabled("uuid-a", false).expect("disable");
    disk.save(&store);
    assert!(!store.get("uuid-a").expect("present").enabled);

    let mut store = disk.load().expect("reload");
    assert!(!store.get("uuid-a").expect("present").enabled);

    store.remove("uuid-a").expect("remove");
    disk.save(&store);
    assert!(disk.load().expect("reload").is_empty());
}

#[test]
fn disabling_an_unknown_profile_is_an_error() {
    let mut disk = Disk::new();
    let mut store = disk.load().expect("load");

    let err = store
        .set_enabled("nope", false)
        .expect_err("must not silently succeed");
    assert!(
        matches!(err, Error::Profiles(ProfileStoreError::Internal(_))),
        "unexpected error: {err:?}"
    );
    assert_eq!(
        err.message(),
        "profile store error: profile store internal error: no profile for uuid nope"
    );
}

#[test]
fn corrupt_store_is_quarantined_not_discarded() {
    let mut disk = Disk::new();
    let garbage = "this is not json at all";
    disk.write(&Disk::store(), garbage);

    let err = disk.load().expect_err("must fail loudly");
    assert!(
        matches!(err, Error::Profiles(ProfileStoreError::Corrupt { .. })),
        "unexpected error: {err:?}"
    );
    assert_eq!(
        err.message(),
        "profile store error: profile store /scratch/profiles.json is not valid JSON; the original \
         bytes were kept at /scratch/profiles.json.corrupt: expected value"
    );

    // The original bytes survive in the backup, and the bad file is gone
    // so a later save cannot overwrite the evidence.
    assert_eq!(disk.files[&Disk::quarantine().bytes].text, garbage);
    assert!(
        !disk.holds(&Disk::store()),
        "the corrupt store must be moved aside"
    );

    // ...and the next load starts clean instead of failing forever.
    assert!(disk.load().expect("second load").is_empty());
}

#[test]
fn each_quarantine_keeps_its_own_backup() {
    let mut disk = Disk::new();

    disk.write(&Disk::store(), "first bad file");
    disk.load().expect_err("first load fails");

    disk.write(&Disk::store(), "second bad file");
    disk.load().expect_err("second load fails");

    assert_eq!(disk.files[&Disk::quarantine().bytes].text, "first bad file");
    assert_eq!(
        disk.files[&FilePath::of("/scratch/profiles.json.corrupt.1").bytes].text,
        "second bad file"
    );
}

#[test]
fn blank_store_file_is_not_treated_as_corruption() {
    let mut disk = Disk::new();
    disk.write(&Disk::store(), "  \n\t\n");

    let store = disk.load().expect("blank file loads");
    assert!(store.is_empty());
    assert!(
        !disk.holds(&Disk::quarantine()),
        "a blank file is not corruption"
    );
}

#[test]
fn save_is_owner_only_and_never_widens_the_store() {
    let mut disk = Disk::new();
    let mut store = disk.load().expect("load");

    // A fresh store is owner-only regardless of the process umask.
    store.upsert(profile("uuid-a", true, true));
    disk.save(&store);
    assert_eq!(disk.files[&Disk::store().bytes].mode, 0o600);

    // A store the user tightened by hand keeps that mode across saves.
    disk.files.get_mut(&Disk::store().bytes).unwrap().mode = 0o400;
    store.upsert(profile("uuid-b", true, true));
    disk.save(&store);
    assert_eq!(disk.files[&Disk::store().bytes].mode, 0o400);

    // A store left group/world-readable is brought back to owner-only.
    disk.files.get_mut(&Disk::store().bytes).unwrap().mode = 0o644;
    store.upsert(profile("uuid-c", true, true));
    disk.save(&store);
    assert_eq!(disk.files[&Disk::store().bytes].mode, 0o600);

    // The save is still a complete, parseable store.
    let reloaded = disk.load().expect("reload");
    assert_eq!(reloaded.len(), 3);
}

#[test]
fn save_leaves_no_temp_file_behind() {
    let mut disk = Disk::new();
    let mut store = disk.load().expect("load");
    store.upsert(profile("uuid-a", true, true));
    let plan = store.save(PID).unwrap();
    assert_eq!(plan.tmp.bytes, b"/scratch/profiles.json.tmp.42");
    assert_eq!(plan.path.bytes, b"/scratch/profiles.json");
    let (phases, ended) = disk.try_save(&store);
    assert_eq!(
        phases,
        vec![SavePhase::Write, SavePhase::Rename, SavePhase::SyncDir]
    );
    assert!(ended.is_ok());
    assert!(
        !disk.holds(&plan.tmp),
        "the temp file must be renamed into place, not left behind"
    );
    assert!(!disk.holds(&FilePath::of("/scratch/profiles.json.tmp")));
    assert_eq!(disk.files.len(), 1);
}

#[test]
fn failed_save_keeps_the_old_store() {
    let mut disk = Disk::new();
    let mut store = disk.load().expect("load");
    store.upsert(profile("uuid-a", true, true));
    disk.save(&store);
    store.upsert(profile("uuid-b", true, true));

    disk.fails = Some(SavePhase::Write);
    let (phases, ended) = disk.try_save(&store);
    assert_eq!(phases, vec![SavePhase::Write]);
    assert_eq!(ended.unwrap_err(), "no space left");
    assert_eq!(disk.load().expect("reload").len(), 1);

    disk.fails = Some(SavePhase::Rename);
    let (phases, ended) = disk.try_save(&store);
    assert_eq!(phases, vec![SavePhase::Write, SavePhase::Rename]);
    assert_eq!(ended.unwrap_err(), "no space left");
    assert_eq!(disk.load().expect("reload").len(), 1);

    disk.fails = Some(SavePhase::SyncDir);
    let (_, ended) = disk.try_save(&store);
    assert_eq!(ended.unwrap_err(), "no space left");
    assert_eq!(disk.load().expect("reload").len(), 2);
}

#[test]
fn saving_without_a_directory_ends_with_the_rename() {
    let saving = Saving::new(FilePath::of("a"), FilePath::of("b"), 0o400, false);
    assert_eq!(saving.mode(), 0o400);
    let saving = saving.resume(Ok(()));
    assert_eq!(saving.phase(), SavePhase::Rename);
    let saving = saving.resume(Ok(()));
    assert_eq!(saving.phase(), SavePhase::Finished);
    let saving = saving.resume(Err("too late".to_string()));
    assert!(saving.outcome().is_ok());
}

#[test]
fn replaced_profiles_are_the_only_ones_and_load_back() {
    let mut disk = Disk::new();
    let mut store = disk.load().expect("load");
    store.upsert(profile("uuid-a", true, true));
    store.replace_all(vec![
        profile("uuid-b", true, true),
        profile("uuid-c", true, false),
        profile("uuid-b", false, true),
    ]);
    disk.save(&store);
    for store in [store, disk.load().expect("reload")] {
        assert_eq!(store.len(), 2);
        assert!(store.get("uuid-a").is_none());
        assert!(!store.get("uuid-b").unwrap().enabled);
        assert!(!store.get("uuid-c").unwrap().auto_connect);
    }
}

#[test]
fn set_proxy_profiles_replaces_and_persists_the_set() {
    let mut store = ProfileStore::in_memory(vec![profile("uuid-a", true, true)]);
    let mut profiles = store.all();
    profiles[0].enabled = false;
    store.replace_all(profiles);
    assert!(!store.all()[0].enabled);
    assert_eq!(store.all().len(), 1);
    assert!(store.save(PID).is_none(), "an in-memory store has no file");
}

#[test]
fn later_profiles_take_the_place_of_earlier_ones() {
    let store = ProfileStore::in_memory(vec![
        profile("uuid-a", true, true),
        profile("uuid-b", true, true),
        profile("uuid-a", false, false),
    ]);
    assert_eq!(store.len(), 2);
    assert!(!store.get("uuid-a").unwrap().enabled);
    assert!(store.find_enabled_for("uuid-a").is_none());
    assert!(store.find_enabled_for("uuid-b").is_some());
    assert!(store.get("uuid-c").is_none());
}

#[test]
fn removing_an_unknown_profile_is_an_error() {
    let mut store = ProfileStore::in_memory(vec![profile("uuid-a", true, true)]);
    assert!(store.remove("nope").is_err());
    assert_eq!(store.len(), 1);
}

#[test]
fn unreadable_store_is_an_error() {
    let taken = vec![false; 101];
    let err = ProfileStore::load_or_create(
        Disk::store(),
        StoreFile::Unreadable("permission denied".to_string()),
        &taken,
    )
    .err()
    .unwrap();
    assert_eq!(
        err.message(),
        "profile store error: profile store I/O error: permission denied"
    );
}

#[test]
fn backups_are_numbered() {
    let path = Disk::store();
    let mut taken = vec![false; 101];
    assert_eq!(
        next_backup_path(&path, &taken).bytes,
        b"/scratch/profiles.json.corrupt"
    );
    taken[0] = true;
    taken[1] = true;
    assert_eq!(
        next_backup_path(&path, &taken).bytes,
        b"/scratch/profiles.json.corrupt.2"
    );
    let full = vec![true; 101];
    assert_eq!(
        next_backup_path(&path, &full).bytes,
        b"/scratch/profiles.json.corrupt"
    );
    assert_eq!(
        corrupt_message("a", "b", "c"),
        "profile store a is not valid JSON; the original bytes were kept at b: c"
    );
}

#[test]
fn modes_are_tightened() {
    assert_eq!(store_mode(None), 0o600);
    assert_eq!(store_mode(Some(0o100600)), 0o600);
    assert_eq!(store_mode(Some(0o100200)), 0o200);
    assert_eq!(store_mode(Some(0o100000)), 0);
    assert_eq!(store_mode(Some(0o100700)), 0o600);
    assert_eq!(store_mode(Some(0o100640)), 0o600);
}

#[test]
fn file_secrets_round_trip_and_persist_owner_only() {
    let path = || FilePath::of("/scratch/secrets.json");
    let mut store = FileSecrets::load_or_create(path(), SecretsFile::Missing).unwrap();
    let id = store.store_secret([0xab; 16], Some("u".into()), "p".into());
    assert_eq!(id, "abababababababababababababababab");
    let saving = store.save(PID);
    assert_eq!(saving.phase(), SavePhase::Write);
    assert_eq!(saving.tmp().bytes, b"/scratch/secrets.json.tmp.42");
    assert_eq!(saving.path().bytes, b"/scratch/secrets.json");
    assert_eq!(saving.mode(), 0o600);
    let saving = saving.resume(Ok(())).resume(Ok(()));
    assert_eq!(saving.phase(), SavePhase::Finished);
    let id = store.finish_store(id, Ok(())).unwrap();
    assert_eq!(id.len(), 32);

    let saved: Vec<(String, SecretValue)> = store
        .entries()
        .iter()
        .map(|(id, s)| (id.clone(), s.clone()))
        .collect();
    let file = SecretsFile::Read("{...}".to_string(), Ok(saved));
    let mut reopened = FileSecrets::load_or_create(path(), file).unwrap();
    let v = reopened.get_secret(&id).unwrap();
    assert_eq!(
        (v.username.as_deref(), v.password.as_str()),
        (Some("u"), "p")
    );
    let c = v.credentials();
    assert_eq!((c.username.as_str(), c.password.as_str()), ("u", "p"));

    assert!(reopened.delete_secret(&id));
    assert!(!reopened.delete_secret(&id));
    assert!(reopened.get_secret(&id).is_err());
    assert_eq!(reopened.save(1).path().bytes, b"/scratch/secrets.json");
}

#[test]
fn secret_that_cannot_be_saved_is_taken_back() {
    let mut store =
        FileSecrets::load_or_create(FilePath::of("/s"), SecretsFile::Missing).unwrap();
    let kept = store.store_secret([1; 16], None, "first".into());
    let kept = store.finish_store(kept, Ok(())).unwrap();
    let id = store.store_secret([2; 16], None, "second".into());
    assert_eq!(store.get_secret(&id).unwrap().password, "second");
    let err = store
        .finish_store(id.clone(), Err(Error::Io("disk full".to_string())))
        .unwrap_err();
    assert!(matches!(err, Error::Io(why) if why == "disk full"));
    assert!(store.get_secret(&id).is_err());
    assert_eq!(store.get_secret(&kept).unwrap().password, "first");
    assert_eq!(store.entries().len(), 1);
}

#[test]
fn secrets_are_looked_up_for_proxies_that_authenticate() {
    let mut p = profile("uuid-a", true, true);
    assert!(secret_to_look_up(&p).is_none());
    p.proxy.secret_id = Some("id".to_string());
    assert!(
        secret_to_look_up(&p).is_none(),
        "the id only counts with authentication"
    );
    p.proxy.authentication = AuthMethod::Keyring;
    assert_eq!(secret_to_look_up(&p).unwrap(), "id");
    p.proxy.secret_id = None;
    assert!(secret_to_look_up(&p).is_none());
}

#[test]
fn broken_secrets_are_an_error() {
    let path = || FilePath::of("/s");
    let blank = SecretsFile::Read("  ".to_string(), Err("eof".to_string()));
    assert!(FileSecrets::load_or_create(path(), blank).is_ok());
    let bad = SecretsFile::Read("x".to_string(), Err("expected value".to_string()));
    let err = FileSecrets::load_or_create(path(), bad).err().unwrap();
    assert_eq!(
        err.message(),
        "secret service error: secret service error: /s: expected value"
    );
    let err = FileSecrets::load_or_create(path(), SecretsFile::Unreadable("denied".into()))
        .err()
        .unwrap();
    assert_eq!(
        err.message(),
        "secret service error: secret service error: /s: denied"
    );
    assert_eq!(file_error_message("/s", "x"), "/s: x");
    let latin = FilePath {
        bytes: vec![b'/', 0xe9],
    };
    let err = FileSecrets::load_or_create(latin, SecretsFile::Unreadable("denied".into()))
        .err()
        .unwrap();
    assert!(err.message().contains("/\u{fffd}: denied"));
}

#[test]
fn missing_user_name_is_empty() {
    let v = SecretValue {
        username: None,
        password: "p".to_string(),
    };
    assert_eq!(v.credentials().username, "");
}

#[test]
fn ids_are_hexadecimal() {
    let mut bytes = [0u8; 16];
    bytes[0] = 0x0f;
    bytes[15] = 0xa0;
    assert_eq!(new_id(bytes), "0f0000000000000000000000000000a0");
}

#[test]
fn empty_backend_refuses() {
    let s = NoOpSecrets;
    for e in [
        s.get_secret("id").err().unwrap(),
        s.store_secret("l", None, "p".into()).err().unwrap(),
        s.delete_secret("id").err().unwrap(),
    ] {
        assert_eq!(
            e.message(),
            "secret service error: secret service unavailable: no keyring backend configured (NoOpSecrets)"
        );
    }
}

#[test]
fn paths_follow_the_environment() {
    let p = |s: &str| Some(FilePath::of(s));
    let paths = ConfigPaths::from_env(p("/xdg"), p("/home/u/.config"), p("/run/proxywifi"));
    assert_eq!(paths.config_dir.bytes, b"/xdg/proxywifi");
    assert_eq!(paths.profiles_path.bytes, b"/xdg/proxywifi/profiles.json");
    assert_eq!(paths.secrets_path.bytes, b"/xdg/proxywifi/secrets.json");
    assert_eq!(paths.run_dir.bytes, b"/run/proxywifi");

    let paths = ConfigPaths::from_env(p("relative"), p("/home/u/.config/"), p("run"));
    assert_eq!(paths.config_dir.bytes, b"/home/u/.config/proxywifi");
    assert_eq!(paths.run_dir.bytes, b"/home/u/.config/proxywifi");

    let paths = ConfigPaths::from_env(None, None, None);
    assert_eq!(paths.config_dir.bytes, b".config/proxywifi");
    assert_eq!(FilePath::of("").join("x").bytes, b"x");
}

#[test]
fn errors_say_what_failed() {
    let s = |t: &str| t.to_string();
    let cases = [
        (Error::Config(s("x")), "configuration error: x"),
        (
            Error::Profiles(ProfileStoreError::Json(s("x"))),
            "profile store error: profile store JSON error: x",
        ),
        (
            Error::Secrets(SecretServiceError::NotFound(s("x"))),
            "secret service error: secret not found for id: x",
        ),
        (
            Error::NetworkManager(NmError::Unavailable(s("x"))),
            "NetworkManager error: NetworkManager is not reachable: x",
        ),
        (
            Error::NetworkManager(NmError::Dbus(s("x"))),
            "NetworkManager error: D-Bus error: x",
        ),
        (Error::ProxyEngine(s("x")), "proxy engine error: x"),
        (Error::Firewall(s("x")), "firewall / nftables error: x"),
        (Error::Tun(s("x")), "TUN device error: x"),
        (Error::Dns(s("x")), "DNS error: x"),
        (Error::Dbus(s("x")), "D-Bus error: x"),
        (Error::Io(s("x")), "I/O error: x"),
        (Error::Json(s("x")), "JSON error: x"),
        (Error::StateMachine(s("x")), "state machine error: x"),
        (Error::NotConnected, "not connected to a Wi-Fi network"),
        (
            Error::NoProfileAssigned { uuid: s("x") },
            "no proxy profile assigned to connection x",
        ),
        (
            Error::ProfileDisabled { uuid: s("x") },
            "profile for connection x is disabled",
        ),
        (Error::Internal(s("x")), "internal error: x"),
    ];
    for (error, text) in cases {
        assert_eq!(error.message(), text);
    }
}

#[test]
fn backup_names_that_are_not_known_to_be_free_are_not_used() {
    let path = FilePath::of("/p");
    let plain = b"/p.corrupt";
    assert_eq!(next_backup_path(&path, &vec![]).bytes, plain);
    assert_eq!(next_backup_path(&path, &vec![true, true]).bytes, plain);
    assert_eq!(next_backup_path(&path, &vec![true, false]).bytes, b"/p.corrupt.1");
    let mut many = vec![true; 103];
    many[101] = false;
    assert_eq!(next_backup_path(&path, &many).bytes, plain);
    many[100] = false;
    assert_eq!(next_backup_path(&path, &many).bytes, b"/p.corrupt.100");
}
