//! Credentials.
//!
//! Proxy passwords are never stored in a profile: it holds an opaque id, under which the
//! credentials are looked up when the proxy starts. The daemon runs as root and cannot
//! reach a user's keyring, so [`FileSecrets`] keeps them in a file for its owner only.

use crate::config;
use crate::config::FilePath;
use crate::dataplane::probe::Credentials;
use crate::error::Error;
use crate::models;
use crate::models::{AuthMethod, ProxyProfile};
use crate::saving;
use crate::saving::Saving;
use crate::table::Table;
use crate::text;
use vstd::prelude::*;

verus! {

/// A secret.
#[derive(Debug)]
pub struct SecretValue {
    pub username: Option<String>,
    pub password: String,
}

impl Clone for SecretValue {
    fn clone(&self) -> (r: Self)
        ensures
            r == *self,
    {
        SecretValue {
            username: models::clone_text(&self.username),
            password: self.password.clone(),
        }
    }
}

impl SecretValue {
    /// The secret as credentials; a missing user name is empty.
    pub fn credentials(self) -> (r: Credentials)
        ensures
            r.username@ == (match self.username {
                Some(u) => u@,
                None => Seq::<char>::empty(),
            }),
            r.password == self.password,
    {
        let username = match self.username {
            Some(u) => u,
            None => String::new(),
        };
        Credentials { username, password: self.password }
    }
}

/// The id of the secret that a profile's proxy is used with.
pub open spec fn secret_of(p: ProxyProfile) -> Option<Seq<char>> {
    match p.proxy.authentication {
        AuthMethod::Keyring => models::opt_text(p.proxy.secret_id),
        AuthMethod::NoAuth => None,
    }
}

/// The id of the secret that a profile's proxy is used with: where it authenticates, the
/// one that it holds.
pub fn secret_to_look_up(p: &ProxyProfile) -> (r: Option<&String>)
    ensures
        (match r {
            Some(id) => Some(id@),
            None => None,
        }) == secret_of(*p),
        r == (if p.proxy.authentication == AuthMethod::Keyring {
            match p.proxy.secret_id {
                Some(id) => Some(&id),
                None => None,
            }
        } else {
            None
        }),
{
    match p.proxy.authentication {
        AuthMethod::Keyring => p.proxy.secret_id.as_ref(),
        AuthMethod::NoAuth => None,
    }
}

/// What can go wrong with secrets.
#[derive(Debug)]
pub enum SecretServiceError {
    Unavailable(String),
    NotFound(String),
    Other(String),
}

impl SecretServiceError {
    /// What the error says.
    pub open spec fn says(self) -> Seq<char> {
        match self {
            SecretServiceError::Unavailable(e) => "secret service unavailable: "@ + e@,
            SecretServiceError::NotFound(id) => "secret not found for id: "@ + id@,
            SecretServiceError::Other(e) => "secret service error: "@ + e@,
        }
    }

    /// What the error says.
    pub fn message(&self) -> (r: String)
        ensures
            r@ == self.says(),
    {
        match self {
            SecretServiceError::Unavailable(e) => crate::error::after(
                "secret service unavailable: ",
                e.as_str(),
            ),
            SecretServiceError::NotFound(id) => crate::error::after(
                "secret not found for id: ",
                id.as_str(),
            ),
            SecretServiceError::Other(e) => crate::error::after(
                "secret service error: ",
                e.as_str(),
            ),
        }
    }
}

/// What a store of secrets does.
pub trait SecretServiceOps: Send + Sync {
    /// Look up a secret by the id stored in a profile.
    fn get_secret(&self, secret_id: &str) -> Result<SecretValue, Error>;

    /// Store a secret; returns its id.
    fn store_secret(&self, label: &str, username: Option<String>, password: String) -> Result<
        String,
        Error,
    >;

    /// Delete a secret by id.
    fn delete_secret(&self, secret_id: &str) -> Result<(), Error>;
}

/// A store that holds nothing, for tests and systems without one.
pub struct NoOpSecrets;

/// The refusal of a store that holds nothing.
pub open spec fn is_unconfigured(e: Error) -> bool {
    e matches Error::Secrets(SecretServiceError::Unavailable(why)) && why@
        == "no keyring backend configured (NoOpSecrets)"@
}

fn unconfigured() -> (r: Error)
    ensures
        is_unconfigured(r),
{
    Error::Secrets(
        SecretServiceError::Unavailable(
            "no keyring backend configured (NoOpSecrets)".to_owned(),
        ),
    )
}

impl SecretServiceOps for NoOpSecrets {
    fn get_secret(&self, _secret_id: &str) -> (r: Result<SecretValue, Error>)
        ensures
            r matches Err(e) && is_unconfigured(e),
    {
        Err(unconfigured())
    }

    fn store_secret(&self, _label: &str, _username: Option<String>, _password: String) -> (r:
        Result<String, Error>)
        ensures
            r matches Err(e) && is_unconfigured(e),
    {
        Err(unconfigured())
    }

    fn delete_secret(&self, _secret_id: &str) -> (r: Result<(), Error>)
        ensures
            r matches Err(e) && is_unconfigured(e),
    {
        Err(unconfigured())
    }
}

// ---------------------------------------------------------------------------
// Secrets in a file
// ---------------------------------------------------------------------------

/// Secrets by id, with the file that they are kept in.
#[derive(Debug)]
pub struct FileSecrets {
    path: FilePath,
    entries: Table<SecretValue>,
}

/// What a [`FileSecrets`] says.
#[verifier::ext_equal]
pub struct SecretsView {
    pub path: Seq<u8>,
    pub entries: Map<Seq<char>, SecretValue>,
}

impl View for FileSecrets {
    type V = SecretsView;

    closed spec fn view(&self) -> SecretsView {
        SecretsView { path: self.path@, entries: self.entries@ }
    }
}

/// What was found in the place of the file.
pub enum SecretsFile {
    Missing,
    /// It could not be read, for this reason.
    Unreadable(String),
    /// It was read: its text, and what parsing it gave (ids with their secrets).
    Read(String, Result<Vec<(String, SecretValue)>, String>),
}

/// Secrets by id; of two under the same id the later one counts.
pub open spec fn collected(list: Seq<(String, SecretValue)>) -> Map<Seq<char>, SecretValue> {
    crate::table::as_map(list)
}

/// The two hexadecimal digits of each byte.
pub open spec fn hex_text(bytes: Seq<u8>) -> Seq<char>
    decreases bytes.len(),
{
    if bytes.len() == 0 {
        Seq::empty()
    } else {
        hex_text(bytes.drop_last()).push(text::hex_lower(bytes.last() as int / 16)).push(
            text::hex_lower(bytes.last() as int % 16),
        )
    }
}

/// An error about the file at `path`, which is given as it is shown.
pub open spec fn file_error_text(path: Seq<char>, why: Seq<char>) -> Seq<char> {
    path + ": "@ + why
}

/// An error about the file at `path`, which is given as it is shown.
pub fn file_error_message(path: &str, why: &str) -> (r: String)
    ensures
        r@ == file_error_text(path@, why@),
{
    let mut r = path.to_owned();
    r.append(": ");
    r.append(why);
    r
}

/// An error about the file at `path`.
pub open spec fn is_file_error(e: Error, path: Seq<u8>, why: Seq<char>) -> bool {
    e matches Error::Secrets(SecretServiceError::Other(m)) && m@ == file_error_text(
        text::shown_text(path),
        why,
    )
}

/// An error about the file at `path`.
pub fn file_error(path: &FilePath, why: &str) -> (r: Error)
    ensures
        is_file_error(r, path@, why@),
{
    let shown = text::decode(path.bytes.as_slice());
    Error::Secrets(SecretServiceError::Other(file_error_message(shown.as_str(), why)))
}

/// The permission bits of the file: for its owner only.
pub const SECRETS_MODE: u32 = 0o600;

/// Whether `r` is what loading the secrets at `path` gives, where `file` was found there.
pub open spec fn loads_secrets(r: Result<FileSecrets, Error>, path: Seq<u8>, file: SecretsFile) -> bool {
    match file {
        SecretsFile::Missing => r matches Ok(s) && s@ == (SecretsView {
            path,
            entries: Map::empty(),
        }),
        SecretsFile::Unreadable(e) => r matches Err(x) && is_file_error(x, path, e@),
        SecretsFile::Read(data, parsed) => if text::is_blank(data@) {
            r matches Ok(s) && s@ == (SecretsView { path, entries: Map::empty() })
        } else {
            match parsed {
                Ok(list) => r matches Ok(s) && s@ == (SecretsView {
                    path,
                    entries: collected(list@),
                }),
                Err(e) => r matches Err(x) && is_file_error(x, path, e@),
            }
        },
    }
}

/// The secret that is stored under `id`.
pub open spec fn secret_under(s: SecretsView, id: Seq<char>) -> Option<SecretValue> {
    if s.entries.contains_key(id) {
        Some(s.entries[id])
    } else {
        None
    }
}

/// The secrets with one more.
pub open spec fn with_secret(s: SecretsView, id: Seq<char>, secret: SecretValue) -> SecretsView {
    SecretsView { entries: s.entries.insert(id, secret), ..s }
}

/// The secrets without the one stored under `id`.
pub open spec fn without_secret(s: SecretsView, id: Seq<char>) -> SecretsView {
    SecretsView { entries: s.entries.remove(id), ..s }
}

/// Whether `list` holds the secrets that are stored with their ids, each id once.
pub open spec fn lists_secrets(list: Seq<(String, SecretValue)>, s: SecretsView) -> bool {
    crate::table::distinct(list) && collected(list) == s.entries
}

impl FileSecrets {
    /// The secrets kept at `path`, given what was found there; a missing or blank file
    /// holds none.
    pub fn load_or_create(path: FilePath, file: SecretsFile) -> (r: Result<FileSecrets, Error>)
        ensures
            loads_secrets(r, path@, file),
    {
        let entries = match file {
            SecretsFile::Missing => Table::new(),
            SecretsFile::Unreadable(e) => {
                return Err(file_error(&path, e.as_str()));
            },
            SecretsFile::Read(data, parsed) => {
                proof {
                    text::blank_iff_trimmed_empty(data@);
                }
                if text::trim(data.as_str()).as_str().is_empty() {
                    Table::new()
                } else {
                    match parsed {
                        Ok(list) => collect(list),
                        Err(e) => {
                            return Err(file_error(&path, e.as_str()));
                        },
                    }
                }
            },
        };
        Ok(FileSecrets { path, entries })
    }

    /// How the process `pid` replaces the file.
    pub fn save(&self, pid: u32) -> (r: Saving)
        ensures
            r@ == saving::unsaved(
                self@.path,
                self@.path + config::bytes_of(".tmp."@ + text::decimal_text(pid as nat)),
                SECRETS_MODE,
                false,
            ),
    {
        let suffix = crate::error::after(".tmp.", text::decimal(pid as u64).as_str());
        let tmp = self.path.with_suffix(suffix.as_str());
        Saving::new(self.path.clone(), tmp, SECRETS_MODE, false)
    }

    /// All secrets with their ids, each id once.
    pub fn entries(&self) -> (r: &Vec<(String, SecretValue)>)
        ensures
            lists_secrets(r@, self@),
    {
        self.entries.entries()
    }

    /// The secret stored under `secret_id`.
    pub fn get_secret(&self, secret_id: &str) -> (r: Result<SecretValue, Error>)
        ensures
            match secret_under(self@, secret_id@) {
                Some(secret) => r == Ok::<SecretValue, Error>(secret),
                None => r matches Err(Error::Secrets(SecretServiceError::NotFound(id))) && id@
                    == secret_id@,
            },
    {
        match self.entries.get(secret_id) {
            Some(s) => Ok(s.clone()),
            None => Err(Error::Secrets(SecretServiceError::NotFound(secret_id.to_owned()))),
        }
    }

    /// Store a secret under an id made of 16 random bytes; returns the id. Once the file
    /// was saved or could not be, [`FileSecrets::finish_store`] goes on.
    pub fn store_secret(&mut self, random: [u8; 16], username: Option<String>, password: String) -> (r:
        String)
        ensures
            r@ == hex_text(random@),
            final(self)@ == with_secret(old(self)@, r@, SecretValue { username, password }),
    {
        let id = new_id(random);
        self.entries.insert(id.clone(), SecretValue { username, password });
        id
    }

    /// Answer who stored a secret: with its id where it was saved, and else with the
    /// reason, taking the secret out again.
    pub fn finish_store(&mut self, id: String, saved: Result<(), Error>) -> (r: Result<String, Error>)
        ensures
            match saved {
                Ok(_) => r == Ok::<String, Error>(id) && final(self)@ == old(self)@,
                Err(e) => r == Err::<String, Error>(e) && final(self)@ == without_secret(
                    old(self)@,
                    id@,
                ),
            },
    {
        match saved {
            Ok(_) => Ok(id),
            Err(e) => {
                self.entries.remove(id.as_str());
                Err(e)
            },
        }
    }

    /// Delete the secret stored under `secret_id`; whether there was one, and the file
    /// has to be saved.
    pub fn delete_secret(&mut self, secret_id: &str) -> (r: bool)
        ensures
            r == old(self)@.entries.contains_key(secret_id@),
            final(self)@ == without_secret(old(self)@, secret_id@),
    {
        self.entries.remove(secret_id)
    }
}

fn collect(list: Vec<(String, SecretValue)>) -> (r: Table<SecretValue>)
    ensures
        r@ == collected(list@),
{
    let mut out: Table<SecretValue> = Table::new();
    let mut i: usize = 0;
    assert(list@.take(0) =~= Seq::<(String, SecretValue)>::empty());
    while i < list.len()
        invariant
            i <= list@.len(),
            out@ == collected(list@.take(i as int)),
        decreases list@.len() - i,
    {
        proof {
            let seen = list@.take(i + 1);
            assert(seen.drop_last() =~= list@.take(i as int));
            assert(seen.last() == list@[i as int]);
        }
        out.insert(list[i].0.clone(), list[i].1.clone());
        i += 1;
    }
    assert(list@.take(i as int) =~= list@);
    out
}

/// An id: 128 bits in hexadecimal.
pub fn new_id(random: [u8; 16]) -> (r: String)
    ensures
        r@ == hex_text(random@),
        r@.len() == 32,
{
    let mut out = String::new();
    let mut i: usize = 0;
    assert(random@.take(0) =~= Seq::<u8>::empty());
    assert(out@ =~= Seq::<char>::empty());
    while i < 16
        invariant
            i <= 16,
            random@.len() == 16,
            out@ == hex_text(random@.take(i as int)),
            out@.len() == 2 * i,
        decreases 16 - i,
    {
        proof {
            let seen = random@.take(i + 1);
            assert(seen.drop_last() =~= random@.take(i as int));
            assert(seen.last() == random@[i as int]);
        }
        out.push(text::hex_lower_digit(random[i] / 16));
        out.push(text::hex_lower_digit(random[i] % 16));
        i += 1;
    }
    assert(random@.take(16) =~= random@);
    out
}

// ---------------------------------------------------------------------------
// Laws
// ---------------------------------------------------------------------------

/// Different random bytes give different ids.
pub proof fn ids_differ(a: Seq<u8>, b: Seq<u8>)
    requires
        a.len() == b.len(),
        hex_text(a) == hex_text(b),
    ensures
        a == b,
    decreases a.len(),
{
    if a.len() > 0 {
        let x = hex_text(a);
        let y = hex_text(b);
        hex_len(a.drop_last());
        hex_len(b.drop_last());
        assert(x.drop_last().drop_last() =~= hex_text(a.drop_last()));
        assert(y.drop_last().drop_last() =~= hex_text(b.drop_last()));
        assert(x[x.len() - 1] == text::hex_lower(a.last() as int % 16));
        assert(y[y.len() - 1] == text::hex_lower(b.last() as int % 16));
        assert(x[x.len() - 2] == text::hex_lower(a.last() as int / 16));
        assert(y[y.len() - 2] == text::hex_lower(b.last() as int / 16));
        ids_differ(a.drop_last(), b.drop_last());
        assert(a.last() == b.last());
        assert(a =~= a.drop_last().push(a.last()));
        assert(b =~= b.drop_last().push(b.last()));
    } else {
        assert(a =~= b);
    }
}

proof fn hex_len(a: Seq<u8>)
    ensures
        hex_text(a).len() == 2 * a.len(),
    decreases a.len(),
{
    if a.len() > 0 {
        hex_len(a.drop_last());
    }
}

/// Whether a character is a lower-case hexadecimal digit.
pub open spec fn is_hex_lower(c: char) -> bool {
    '0' <= c <= '9' || 'a' <= c <= 'f'
}

/// An id is 32 lower-case hexadecimal digits.
pub proof fn ids_are_hexadecimal(random: Seq<u8>)
    requires
        random.len() == 16,
    ensures
        hex_text(random).len() == 32,
        forall|i: int| 0 <= i < 32 ==> is_hex_lower(#[trigger] hex_text(random)[i]),
{
    hex_len(random);
    hex_digits(random);
}

proof fn hex_digits(a: Seq<u8>)
    ensures
        forall|i: int| 0 <= i < hex_text(a).len() ==> is_hex_lower(#[trigger] hex_text(a)[i]),
    decreases a.len(),
{
    if a.len() > 0 {
        let rest = hex_text(a.drop_last());
        hex_digits(a.drop_last());
        assert forall|i: int| 0 <= i < hex_text(a).len() implies is_hex_lower(
            #[trigger] hex_text(a)[i],
        ) by {
            if i < rest.len() {
                assert(hex_text(a)[i] == rest[i]);
            }
        }
    }
}

/// A secret that was stored is found under its id, every other one is untouched, and once
/// it is deleted it is gone and every other one is still untouched.
pub proof fn secret_lives_until_deleted(
    s: SecretsView,
    id: Seq<char>,
    secret: SecretValue,
    other: Seq<char>,
)
    ensures
        ({
            let stored = with_secret(s, id, secret);
            let deleted = without_secret(stored, id);
            &&& stored.path == s.path && deleted.path == s.path
            &&& secret_under(stored, id) == Some(secret)
            &&& secret_under(deleted, id) is None
            &&& other != id ==> secret_under(stored, other) == secret_under(s, other)
                && secret_under(deleted, other) == secret_under(s, other)
        }),
{
}

/// A secret that could not be saved leaves the secrets as they were, where its id was new.
pub proof fn unsaved_secret_leaves_nothing(s: SecretsView, id: Seq<char>, secret: SecretValue)
    requires
        secret_under(s, id) is None,
    ensures
        without_secret(with_secret(s, id, secret), id) == s,
{
    assert(s.entries.insert(id, secret).remove(id) =~= s.entries);
}

/// What is saved loads back: where the secrets that were listed are read again, loading
/// gives the secrets that were saved. (An object is never blank as JSON.)
pub proof fn saved_secrets_load_back(
    s: SecretsView,
    list: Vec<(String, SecretValue)>,
    data: String,
    r: Result<FileSecrets, Error>,
)
    requires
        lists_secrets(list@, s),
        !text::is_blank(data@),
        loads_secrets(r, s.path, SecretsFile::Read(data, Ok(list))),
    ensures
        r matches Ok(loaded) && loaded@ == s,
{
}

/// A list of the secrets holds each one with its id, and nothing else.
pub proof fn every_secret_is_listed(s: SecretsView, list: Seq<(String, SecretValue)>, id: Seq<char>)
    requires
        lists_secrets(list, s),
    ensures
        secret_under(s, id) is Some <==> exists|i: int|
            0 <= i < list.len() && (#[trigger] list[i]).0@ == id,
        forall|i: int|
            0 <= i < list.len() ==> secret_under(s, (#[trigger] list[i]).0@) == Some(list[i].1),
{
    crate::table::as_map_entries(list);
    assert(crate::table::has_key(list, id) <==> s.entries.contains_key(id));
}

/// The file that the secrets are written to first is not their own.
pub proof fn secrets_are_saved_through_another_file(path: Seq<u8>, pid: u32)
    ensures
        path + config::bytes_of(".tmp."@ + text::decimal_text(pid as nat)) != path,
{
    let suffix = ".tmp."@ + text::decimal_text(pid as nat);
    reveal_strlit(".tmp.");
    vstd::utf8::encode_utf8_decode_utf8(suffix);
    vstd::utf8::encode_utf8_decode_utf8(Seq::empty());
    if path + config::bytes_of(suffix) == path {
        assert(config::bytes_of(suffix).len() == 0);
        assert(config::bytes_of(suffix) =~= config::bytes_of(Seq::empty()));
    }
}

/// A file that holds something else than secrets is never taken for one without any, and
/// neither is one that cannot be read.
pub proof fn broken_secrets_are_not_none(
    r: Result<FileSecrets, Error>,
    path: Seq<u8>,
    file: SecretsFile,
)
    requires
        loads_secrets(r, path, file),
    ensures
        r is Err <==> file is Unreadable || (file matches SecretsFile::Read(data, parsed) && parsed is Err
            && !text::is_blank(data@)),
        r matches Ok(s) ==> s@.path == path,
        file is Missing ==> (r matches Ok(s) && s@.entries == Map::<Seq<char>, SecretValue>::empty()),
{
}

/// An id is the random bytes in hexadecimal, high digit first.
pub proof fn id_is_the_random_bytes(random: Seq<u8>, i: int)
    requires
        0 <= i < random.len(),
    ensures
        hex_text(random).len() == 2 * random.len(),
        crate::dataplane::nft::hex_digit(hex_text(random)[2 * i]) * 16
            + crate::dataplane::nft::hex_digit(hex_text(random)[2 * i + 1]) == random[i],
    decreases random.len(),
{
    let rest = random.drop_last();
    hex_len(random);
    hex_len(rest);
    if i < rest.len() {
        id_is_the_random_bytes(rest, i);
        assert(hex_text(random)[2 * i] == hex_text(rest)[2 * i]);
        assert(hex_text(random)[2 * i + 1] == hex_text(rest)[2 * i + 1]);
    }
}

/// A proxy is used with credentials just where its profile authenticates and refers to
/// some, and with those.
pub proof fn credentials_are_used_where_asked(p: ProxyProfile)
    ensures
        secret_of(p) is Some <==> p.proxy.authentication is Keyring && p.proxy.secret_id is Some,
        secret_of(p) is Some ==> secret_of(p)->0 == p.proxy.secret_id->0@,
{
}

/// The files that hold passwords are for their owner only: nobody else may read, write or
/// execute them, and their owner may read and write them.
pub proof fn password_files_are_for_their_owner()
    ensures
        SECRETS_MODE & 0o077 == 0,
        SECRETS_MODE & 0o600 == 0o600,
        crate::dataplane::tunnel::CONFIG_MODE & 0o077 == 0,
        crate::dataplane::tunnel::CONFIG_MODE & 0o600 == 0o600,
{
    assert(0o600u32 & 0o077 == 0) by (bit_vector);
    assert(0o600u32 & 0o600 == 0o600) by (bit_vector);
}

/// What an error about secrets says ends with what it is about.
pub proof fn errors_tell_the_secret(e: String)
    ensures
        e@.is_suffix_of(SecretServiceError::Unavailable(e).says()),
        e@.is_suffix_of(SecretServiceError::NotFound(e).says()),
        e@.is_suffix_of(SecretServiceError::Other(e).says()),
        "secret not found"@.is_prefix_of(SecretServiceError::NotFound(e).says()),
{
    reveal_strlit("secret not found");
    reveal_strlit("secret not found for id: ");
    let (a, b, c) = (
        SecretServiceError::Unavailable(e).says(),
        SecretServiceError::NotFound(e).says(),
        SecretServiceError::Other(e).says(),
    );
    assert(a.skip(a.len() - e@.len()) =~= e@);
    assert(b.skip(b.len() - e@.len()) =~= e@);
    assert(c.skip(c.len() - e@.len()) =~= e@);
    assert(b.take(16) =~= "secret not found"@);
}

} // verus!
