//! Where things are stored.
//!
//! Profiles are stored per user under `$XDG_CONFIG_HOME/proxywifi/`. Credentials are not
//! stored with them: a profile refers to them by an opaque id.

use vstd::prelude::*;

verus! {

/// A path, as the bytes that the system takes it by.
#[derive(Debug)]
pub struct FilePath {
    pub bytes: Vec<u8>,
}

impl View for FilePath {
    type V = Seq<u8>;

    open spec fn view(&self) -> Seq<u8> {
        self.bytes@
    }
}

impl Clone for FilePath {
    fn clone(&self) -> (r: Self)
        ensures
            r@ == self@,
    {
        FilePath { bytes: self.bytes.clone() }
    }
}

/// The bytes of a text.
pub open spec fn bytes_of(s: Seq<char>) -> Seq<u8> {
    vstd::utf8::encode_utf8(s)
}

/// Whether a path starts at the root.
pub open spec fn is_absolute_path(p: Seq<u8>) -> bool {
    p.len() > 0 && p[0] == 47
}

/// The path of the entry `name` in the directory `dir`.
pub open spec fn entry(dir: Seq<u8>, name: Seq<char>) -> Seq<u8> {
    if dir.len() == 0 || dir.last() == 47 {
        dir + bytes_of(name)
    } else {
        dir.push(47) + bytes_of(name)
    }
}

impl FilePath {
    /// The path with the bytes of `s`.
    pub fn of(s: &str) -> (r: FilePath)
        ensures
            r@ == bytes_of(s@),
    {
        let mut bytes: Vec<u8> = Vec::new();
        bytes.extend_from_slice(s.as_bytes());
        assert(bytes@ =~= bytes_of(s@));
        FilePath { bytes }
    }

    /// Whether the path starts at the root.
    pub fn is_absolute(&self) -> (r: bool)
        ensures
            r == is_absolute_path(self@),
    {
        self.bytes.len() > 0 && self.bytes[0] == 47
    }

    /// The path of the entry `name` in this directory.
    pub fn join(&self, name: &str) -> (r: FilePath)
        ensures
            r@ == entry(self@, name@),
    {
        let mut bytes = self.bytes.clone();
        let n: usize = bytes.len();
        if n > 0 && bytes[n - 1] != 47 {
            bytes.push(47);
        }
        bytes.extend_from_slice(name.as_bytes());
        FilePath { bytes }
    }

    /// The path with `suffix` behind its last name.
    pub fn with_suffix(&self, suffix: &str) -> (r: FilePath)
        ensures
            r@ == self@ + bytes_of(suffix@),
    {
        let mut bytes = self.bytes.clone();
        bytes.extend_from_slice(suffix.as_bytes());
        FilePath { bytes }
    }
}

/// What paths say.
pub open spec fn paths_view(v: Seq<FilePath>) -> Seq<Seq<u8>> {
    v.map_values(|p: FilePath| p@)
}

/// The view of an optional path.
pub open spec fn opt_path(p: Option<FilePath>) -> Option<Seq<u8>> {
    match p {
        Some(x) => Some(x@),
        None => None,
    }
}

/// Well-known paths.
#[derive(Debug)]
pub struct ConfigPaths {
    /// `$XDG_CONFIG_HOME/proxywifi`, or `~/.config/proxywifi`.
    pub config_dir: FilePath,
    /// The profile store, `profiles.json`.
    pub profiles_path: FilePath,
    /// Credentials for authenticated proxies, `secrets.json`, for its owner only.
    pub secrets_path: FilePath,
    /// The daemon's runtime directory.
    pub run_dir: FilePath,
}

/// The path that an environment variable holds, where it is absolute.
pub open spec fn absolute(p: Option<Seq<u8>>) -> Option<Seq<u8>> {
    if p is Some && is_absolute_path(p->0) {
        p
    } else {
        None
    }
}

/// The configuration directory: under an absolute `$XDG_CONFIG_HOME`, or else under the
/// user's configuration directory, or else under `.config`.
pub open spec fn config_directory(xdg_config_home: Option<Seq<u8>>, user_config: Option<Seq<u8>>) -> Seq<
    u8,
> {
    let base = if absolute(xdg_config_home) is Some {
        xdg_config_home->0
    } else if user_config is Some {
        user_config->0
    } else {
        bytes_of(".config"@)
    };
    entry(base, "proxywifi"@)
}

/// Whether these are the paths, given what the environment holds.
pub open spec fn are_paths(
    r: ConfigPaths,
    xdg_config_home: Option<Seq<u8>>,
    user_config: Option<Seq<u8>>,
    run_dir: Option<Seq<u8>>,
) -> bool {
    &&& r.config_dir@ == config_directory(xdg_config_home, user_config)
    &&& r.profiles_path@ == entry(r.config_dir@, "profiles.json"@)
    &&& r.secrets_path@ == entry(r.config_dir@, "secrets.json"@)
    &&& r.run_dir@ == (match absolute(run_dir) {
        Some(dir) => dir,
        None => r.config_dir@,
    })
}

fn keep_absolute(p: Option<FilePath>) -> (r: Option<FilePath>)
    ensures
        opt_path(r) == absolute(opt_path(p)),
{
    match p {
        Some(x) => if x.is_absolute() {
            Some(x)
        } else {
            None
        },
        None => None,
    }
}

impl ConfigPaths {
    /// The paths, given what `XDG_CONFIG_HOME` and `PROXYWIFI_RUN_DIR` hold and the
    /// user's configuration directory. Without an absolute runtime directory the
    /// configuration directory takes its place.
    pub fn from_env(
        xdg_config_home: Option<FilePath>,
        user_config: Option<FilePath>,
        run_dir: Option<FilePath>,
    ) -> (r: ConfigPaths)
        ensures
            are_paths(r, opt_path(xdg_config_home), opt_path(user_config), opt_path(run_dir)),
            ({
                let dir = config_directory(opt_path(xdg_config_home), opt_path(user_config));
                &&& r.config_dir@ == dir
                &&& r.profiles_path@ == entry(dir, "profiles.json"@)
                &&& r.secrets_path@ == entry(dir, "secrets.json"@)
                &&& r.run_dir@ == (if absolute(opt_path(run_dir)) is Some {
                    opt_path(run_dir)->0
                } else {
                    dir
                })
            }),
    {
        let base = match keep_absolute(xdg_config_home) {
            Some(p) => p,
            None => match user_config {
                Some(p) => p,
                None => FilePath::of(".config"),
            },
        };
        let config_dir = base.join("proxywifi");
        let run_dir = match keep_absolute(run_dir) {
            Some(p) => p,
            None => config_dir.clone(),
        };
        let profiles_path = config_dir.join("profiles.json");
        let secrets_path = config_dir.join("secrets.json");
        ConfigPaths { config_dir, profiles_path, secrets_path, run_dir }
    }
}

// ---------------------------------------------------------------------------
// Laws
// ---------------------------------------------------------------------------

/// The path of an entry begins with its directory and ends with its name, with one slash
/// between them where the directory does not end in one.
pub proof fn entry_is_in_its_directory(dir: Seq<u8>, name: Seq<char>)
    ensures
        dir.is_prefix_of(entry(dir, name)),
        bytes_of(name).is_suffix_of(entry(dir, name)),
        dir.len() > 0 && dir.last() != 47 ==> entry(dir, name).len() == dir.len() + 1 + bytes_of(
            name,
        ).len() && entry(dir, name)[dir.len() as int] == 47,
        dir.len() == 0 || dir.last() == 47 ==> entry(dir, name).len() == dir.len() + bytes_of(
            name,
        ).len(),
        is_absolute_path(dir) ==> entry(dir, name)[0] == 47,
{
    let (e, n) = (entry(dir, name), bytes_of(name));
    assert(e.take(dir.len() as int) =~= dir);
    assert(e.skip(e.len() - n.len()) =~= n);
}

/// The configuration stands under `$XDG_CONFIG_HOME` just where that is an absolute path;
/// one that is not counts as if it were not set, and the user's configuration directory
/// takes its place.
pub proof fn relative_directories_do_not_count(xdg: Seq<u8>, user: Seq<u8>)
    ensures
        xdg.len() > 0 && xdg[0] == 47 ==> config_directory(Some(xdg), Some(user)) == entry(
            xdg,
            "proxywifi"@,
        ),
        xdg.len() == 0 || xdg[0] != 47 ==> config_directory(Some(xdg), Some(user))
            == config_directory(None, Some(user)),
        config_directory(None, Some(user)) == entry(user, "proxywifi"@),
        config_directory(None, None) == entry(bytes_of(".config"@), "proxywifi"@),
{
}

/// Profiles and credentials are kept in two files of the configuration directory, never in
/// the same one, and the runtime directory is the one that is set just where that is an
/// absolute path.
pub proof fn profiles_and_secrets_are_kept_apart(
    r: ConfigPaths,
    xdg: Option<Seq<u8>>,
    user: Option<Seq<u8>>,
    run: Option<Seq<u8>>,
)
    requires
        are_paths(r, xdg, user, run),
    ensures
        r.config_dir@.is_prefix_of(r.profiles_path@),
        r.config_dir@.is_prefix_of(r.secrets_path@),
        bytes_of("profiles.json"@).is_suffix_of(r.profiles_path@),
        bytes_of("secrets.json"@).is_suffix_of(r.secrets_path@),
        r.profiles_path@ != r.secrets_path@,
        run is Some && run->0.len() > 0 && run->0[0] == 47 ==> r.run_dir@ == run->0,
        run is None || run->0.len() == 0 || run->0[0] != 47 ==> r.run_dir@ == r.config_dir@,
{
    let dir = r.config_dir@;
    entry_is_in_its_directory(dir, "profiles.json"@);
    entry_is_in_its_directory(dir, "secrets.json"@);
    let (a, b) = (bytes_of("profiles.json"@), bytes_of("secrets.json"@));
    if r.profiles_path@ == r.secrets_path@ {
        let n = r.profiles_path@.len();
        assert(a.len() == b.len());
        assert(r.profiles_path@.skip(n - a.len()) =~= a);
        assert(r.secrets_path@.skip(n - b.len()) =~= b);
        vstd::utf8::encode_utf8_decode_utf8("profiles.json"@);
        vstd::utf8::encode_utf8_decode_utf8("secrets.json"@);
        reveal_strlit("profiles.json");
        reveal_strlit("secrets.json");
        assert("profiles.json"@.len() == 13 && "secrets.json"@.len() == 12);
    }
}

} // verus!
