//! The profile store.
//!
//! Profiles are kept in memory and, where the store has a file, as one JSON array in it.
//! Credentials are not kept here: a profile holds the opaque id that they are stored
//! under.

use crate::config;
use crate::config::FilePath;
use crate::error::Error;
use crate::models::ProxyProfile;
use crate::saving;
use crate::saving::Saving;
use crate::table;
use crate::table::Table;
use crate::text;
use vstd::prelude::*;

verus! {

/// What can go wrong with the store.
#[derive(Debug)]
pub enum ProfileStoreError {
    Io(String),
    Json(String),
    /// The store's file could not be parsed. Its bytes are moved aside to `backup` rather
    /// than discarded, so that they can still be recovered by hand; the next load then
    /// starts from an empty store instead of failing forever.
    Corrupt { path: FilePath, backup: FilePath, source: String },
    Internal(String),
}

/// What is said of a corrupt store; the paths are given as they are shown.
pub open spec fn corrupt_text(path: Seq<char>, backup: Seq<char>, source: Seq<char>) -> Seq<char> {
    "profile store "@ + path + " is not valid JSON; the original bytes were kept at "@ + backup
        + ": "@ + source
}

/// What is said of a corrupt store; the paths are given as they are shown.
pub fn corrupt_message(path: &str, backup: &str, source: &str) -> (r: String)
    ensures
        r@ == corrupt_text(path@, backup@, source@),
{
    let mut r = "profile store ".to_owned();
    r.append(path);
    r.append(" is not valid JSON; the original bytes were kept at ");
    r.append(backup);
    r.append(": ");
    r.append(source);
    r
}

impl ProfileStoreError {
    /// What the error says.
    pub open spec fn says(self) -> Seq<char> {
        match self {
            ProfileStoreError::Io(e) => "profile store I/O error: "@ + e@,
            ProfileStoreError::Json(e) => "profile store JSON error: "@ + e@,
            ProfileStoreError::Corrupt { path, backup, source } => corrupt_text(
                text::shown_text(path@),
                text::shown_text(backup@),
                source@,
            ),
            ProfileStoreError::Internal(e) => "profile store internal error: "@ + e@,
        }
    }

    /// What the error says.
    pub fn message(&self) -> (r: String)
        ensures
            r@ == self.says(),
    {
        match self {
            ProfileStoreError::Io(e) => crate::error::after(
                "profile store I/O error: ",
                e.as_str(),
            ),
            ProfileStoreError::Json(e) => crate::error::after(
                "profile store JSON error: ",
                e.as_str(),
            ),
            ProfileStoreError::Corrupt { path, backup, source } => {
                let shown = text::decode(path.bytes.as_slice());
                let kept = text::decode(backup.bytes.as_slice());
                corrupt_message(shown.as_str(), kept.as_str(), source.as_str())
            },
            ProfileStoreError::Internal(e) => crate::error::after(
                "profile store internal error: ",
                e.as_str(),
            ),
        }
    }
}

// ---------------------------------------------------------------------------
// The store
// ---------------------------------------------------------------------------

/// Profiles by the uuid of their connection, with the file that they are kept in, if
/// any. At most one profile is assigned to a connection.
#[derive(Debug)]
pub struct ProfileStore {
    profiles: Table<ProxyProfile>,
    /// `None` for a store that lives only in memory.
    path: Option<FilePath>,
}

/// What a [`ProfileStore`] says.
#[verifier::ext_equal]
pub struct StoreView {
    pub profiles: Map<Seq<char>, ProxyProfile>,
    pub path: Option<Seq<u8>>,
}

impl View for ProfileStore {
    type V = StoreView;

    closed spec fn view(&self) -> StoreView {
        StoreView { profiles: self.profiles@, path: config::opt_path(self.path) }
    }
}

/// Whether every profile stands under the uuid of its connection.
pub open spec fn keyed(profiles: Map<Seq<char>, ProxyProfile>) -> bool {
    forall|uuid: Seq<char>| #[trigger]
        profiles.contains_key(uuid) ==> profiles[uuid].connection_uuid@ == uuid
}

/// Profiles by the uuid of their connection; of two for the same connection the later
/// one counts.
pub open spec fn indexed(profiles: Seq<ProxyProfile>) -> Map<Seq<char>, ProxyProfile>
    decreases profiles.len(),
{
    if profiles.len() == 0 {
        Map::empty()
    } else {
        indexed(profiles.drop_last()).insert(
            profiles.last().connection_uuid@,
            profiles.last(),
        )
    }
}

/// Whether no two profiles are for the same connection.
pub open spec fn unique(profiles: Seq<ProxyProfile>) -> bool {
    forall|i: int, j: int|
        0 <= i < j < profiles.len() ==> (#[trigger] profiles[i]).connection_uuid@ != (
        #[trigger] profiles[j]).connection_uuid@
}

/// The refusal of an unknown uuid.
pub open spec fn is_unknown(e: Error, uuid: Seq<char>) -> bool {
    e matches Error::Profiles(ProfileStoreError::Internal(why)) && why@ == "no profile for uuid "@
        + uuid
}

fn unknown(uuid: &str) -> (r: Error)
    ensures
        is_unknown(r, uuid@),
{
    Error::Profiles(ProfileStoreError::Internal(crate::error::after("no profile for uuid ", uuid)))
}

fn index(profiles: Vec<ProxyProfile>) -> (r: Table<ProxyProfile>)
    ensures
        r@ == indexed(profiles@),
        keyed(r@),
{
    let mut out: Table<ProxyProfile> = Table::new();
    let mut i: usize = 0;
    assert(profiles@.take(0) =~= Seq::<ProxyProfile>::empty());
    while i < profiles.len()
        invariant
            i <= profiles@.len(),
            out@ == indexed(profiles@.take(i as int)),
            keyed(out@),
        decreases profiles@.len() - i,
    {
        let p = profiles[i].clone();
        proof {
            let seen = profiles@.take(i + 1);
            assert(seen.drop_last() =~= profiles@.take(i as int));
            assert(seen.last() == p);
        }
        out.insert(p.connection_uuid.clone(), p);
        i += 1;
    }
    assert(profiles@.take(i as int) =~= profiles@);
    out
}

/// What was found in the place of the store's file.
pub enum StoreFile {
    /// There is none: no profiles are configured yet.
    Missing,
    /// It could not be read, for this reason.
    Unreadable(String),
    /// It was read: its text, and what parsing it as a list of profiles gave.
    Read(String, Result<Vec<ProxyProfile>, String>),
}

/// What has to be done to save a store: put the profiles as JSON in the place of `path`,
/// by way of `tmp`.
pub struct SavePlan {
    pub path: FilePath,
    pub tmp: FilePath,
    pub profiles: Vec<ProxyProfile>,
}

impl SavePlan {
    /// How the store's file is replaced, given the mode that it has now: with the
    /// permissions that [`store_mode`] gives, and with its directory flushed.
    pub fn saving(&self, current: Option<u32>) -> (r: Saving)
        ensures
            r@ == saving::unsaved(self.path@, self.tmp@, kept_mode(current), true),
    {
        Saving::new(self.path.clone(), self.tmp.clone(), store_mode(current), true)
    }
}

/// What a store gives for `uuid`.
pub open spec fn found(store: StoreView, uuid: Seq<char>) -> Option<ProxyProfile> {
    if store.profiles.contains_key(uuid) {
        Some(store.profiles[uuid])
    } else {
        None
    }
}

/// What a store gives for `uuid` where that is enabled.
pub open spec fn enabled_in(store: StoreView, uuid: Seq<char>) -> Option<ProxyProfile> {
    match found(store, uuid) {
        Some(p) => if p.enabled {
            Some(p)
        } else {
            None
        },
        None => None,
    }
}

/// The store that holds `profiles` and nothing else.
pub open spec fn store_of(profiles: Seq<ProxyProfile>, path: Option<Seq<u8>>) -> StoreView {
    StoreView { profiles: indexed(profiles), path }
}

/// Whether `plan` is how the process `pid` saves a store.
pub open spec fn saves(plan: Option<SavePlan>, store: StoreView, pid: u32) -> bool {
    match plan {
        Some(p) => store.path == Some(p.path@) && p.tmp@ == p.path@ + config::bytes_of(
            ".tmp."@ + text::decimal_text(pid as nat),
        ) && unique(p.profiles@) && indexed(p.profiles@) == store.profiles,
        None => store.path is None,
    }
}

/// Whether `r` is what loading the store at `path` gives, where `file` was found there and
/// `taken` tells which backup names exist.
pub open spec fn loads(
    r: Result<ProfileStore, Error>,
    path: Seq<u8>,
    file: StoreFile,
    taken: Seq<bool>,
) -> bool {
    match file {
        StoreFile::Missing => r matches Ok(s) && s@ == store_of(Seq::empty(), Some(path)),
        StoreFile::Unreadable(e) => r == Err::<ProfileStore, Error>(
            Error::Profiles(ProfileStoreError::Io(e)),
        ),
        StoreFile::Read(data, parsed) => if text::is_blank(data@) {
            r matches Ok(s) && s@ == store_of(Seq::empty(), Some(path))
        } else {
            match parsed {
                Ok(list) => r matches Ok(s) && s@ == store_of(list@, Some(path)),
                Err(e) => r matches Err(
                    Error::Profiles(ProfileStoreError::Corrupt { path: at, backup, source }),
                ) && at@ == path && backup@ == backup_path(path, free_backup(taken)) && source
                    == e,
            }
        },
    }
}

impl ProfileStore {
    #[verifier::type_invariant]
    spec fn inv(self) -> bool {
        keyed(self.profiles@)
    }

    /// The store kept at `path`, given what was found there and which backup names are
    /// taken (see [`next_backup_path`]). A missing or blank file is an empty store; one
    /// that cannot be parsed is an error that names the backup it is to be moved to.
    pub fn load_or_create(path: FilePath, file: StoreFile, taken: &Vec<bool>) -> (r: Result<
        ProfileStore,
        Error,
    >)
        ensures
            loads(r, path@, file, taken@),
    {
        let profiles = match file {
            StoreFile::Missing => Table::new(),
            StoreFile::Unreadable(e) => {
                return Err(Error::Profiles(ProfileStoreError::Io(e)));
            },
            StoreFile::Read(data, parsed) => {
                proof {
                    text::blank_iff_trimmed_empty(data@);
                }
                if text::trim(data.as_str()).as_str().is_empty() {
                    Table::new()
                } else {
                    match parsed {
                        Ok(list) => index(list),
                        Err(source) => {
                            let backup = next_backup_path(&path, taken);
                            return Err(
                                Error::Profiles(
                                    ProfileStoreError::Corrupt { path, backup, source },
                                ),
                            );
                        },
                    }
                }
            },
        };
        Ok(ProfileStore { profiles, path: Some(path) })
    }

    /// A store that lives only in memory, for clients that edit a copy fetched from the
    /// daemon and push it back.
    pub fn in_memory(profiles: Vec<ProxyProfile>) -> (r: ProfileStore)
        ensures
            r@ == store_of(profiles@, None),
    {
        ProfileStore { profiles: index(profiles), path: None }
    }

    /// Replace every profile.
    pub fn replace_all(&mut self, profiles: Vec<ProxyProfile>)
        ensures
            final(self)@ == store_of(profiles@, old(self)@.path),
    {
        self.profiles = index(profiles);
    }

    /// How the store is saved by the process `pid`; `None` for a store that lives only
    /// in memory.
    pub fn save(&self, pid: u32) -> (r: Option<SavePlan>)
        ensures
            saves(r, self@, pid),
    {
        match &self.path {
            Some(path) => {
                let suffix = crate::error::after(".tmp.", text::decimal(pid as u64).as_str());
                Some(
                    SavePlan {
                        path: path.clone(),
                        tmp: path.with_suffix(suffix.as_str()),
                        profiles: self.all(),
                    },
                )
            },
            None => None,
        }
    }

    /// All profiles, each once.
    pub fn all(&self) -> (r: Vec<ProxyProfile>)
        ensures
            unique(r@),
            indexed(r@) == self@.profiles,
    {
        proof {
            use_type_invariant(&*self);
        }
        let entries = self.profiles.entries();
        let mut out: Vec<ProxyProfile> = Vec::new();
        let mut i: usize = 0;
        proof {
            table::as_map_entries(entries@);
            assert(entries@.take(0) =~= Seq::<(String, ProxyProfile)>::empty());
        }
        while i < entries.len()
            invariant
                i <= entries@.len(),
                out@.len() == i,
                keyed(self.profiles@),
                table::as_map(entries@) == self.profiles@,
                table::distinct(entries@),
                forall|j: int|
                    0 <= j < entries@.len() ==> self.profiles@.contains_key(
                        (#[trigger] entries@[j]).0@,
                    ) && self.profiles@[entries@[j].0@] == entries@[j].1,
                forall|j: int| 0 <= j < i ==> #[trigger] out@[j] == entries@[j].1,
                indexed(out@) == table::as_map(entries@.take(i as int)),
            decreases entries@.len() - i,
        {
            let p = entries[i].1.clone();
            let ghost before = out@;
            proof {
                let seen = entries@.take(i + 1);
                assert(seen.drop_last() =~= entries@.take(i as int));
                assert(seen.last() == entries@[i as int]);
                assert(p.connection_uuid@ == entries@[i as int].0@);
            }
            out.push(p);
            assert(out@.drop_last() =~= before);
            i += 1;
        }
        proof {
            assert(entries@.take(i as int) =~= entries@);
            assert forall|a: int, b: int| 0 <= a < b < out@.len() implies (
            #[trigger] out@[a]).connection_uuid@ != (#[trigger] out@[b]).connection_uuid@ by {
                assert(entries@[a].0@ != entries@[b].0@);
            }
        }
        out
    }

    /// The profile for `uuid`, if any.
    pub fn get(&self, uuid: &str) -> (r: Option<ProxyProfile>)
        ensures
            r == found(self@, uuid@),
    {
        match self.profiles.get(uuid) {
            Some(p) => Some(p.clone()),
            None => None,
        }
    }

    /// The profile for `uuid`, if there is one and it is enabled.
    pub fn find_enabled_for(&self, uuid: &str) -> (r: Option<ProxyProfile>)
        ensures
            r == enabled_in(self@, uuid@),
            r == (if self@.profiles.contains_key(uuid@) && self@.profiles[uuid@].enabled {
                Some(self@.profiles[uuid@])
            } else {
                None
            }),
    {
        match self.profiles.get(uuid) {
            Some(p) => if p.enabled {
                Some(p.clone())
            } else {
                None
            },
            None => None,
        }
    }

    /// Add a profile, in place of the one for the same connection.
    pub fn upsert(&mut self, profile: ProxyProfile)
        ensures
            final(self)@ == (StoreView {
                profiles: old(self)@.profiles.insert(profile.connection_uuid@, profile),
                ..old(self)@
            }),
    {
        proof {
            use_type_invariant(&*self);
        }
        let mut profiles: Table<ProxyProfile> = Table::new();
        std::mem::swap(&mut profiles, &mut self.profiles);
        profiles.insert(profile.connection_uuid.clone(), profile);
        self.profiles = profiles;
    }

    /// Remove the profile for `uuid`.
    pub fn remove(&mut self, uuid: &str) -> (r: Result<(), Error>)
        ensures
            r is Ok <==> old(self)@.profiles.contains_key(uuid@),
            final(self)@ == (StoreView {
                profiles: old(self)@.profiles.remove(uuid@),
                ..old(self)@
            }),
            r matches Err(e) ==> is_unknown(e, uuid@) && final(self)@ == old(self)@,
    {
        proof {
            use_type_invariant(&*self);
        }
        let mut profiles: Table<ProxyProfile> = Table::new();
        std::mem::swap(&mut profiles, &mut self.profiles);
        let removed = profiles.remove(uuid);
        self.profiles = profiles;
        if removed {
            Ok(())
        } else {
            assert(self@.profiles =~= old(self)@.profiles);
            Err(unknown(uuid))
        }
    }

    /// Enable or disable the profile for `uuid`.
    pub fn set_enabled(&mut self, uuid: &str, enabled: bool) -> (r: Result<(), Error>)
        ensures
            r is Ok <==> old(self)@.profiles.contains_key(uuid@),
            r is Ok ==> final(self)@ == (StoreView {
                profiles: old(self)@.profiles.insert(
                    uuid@,
                    ProxyProfile { enabled, ..old(self)@.profiles[uuid@] },
                ),
                ..old(self)@
            }),
            r matches Err(e) ==> is_unknown(e, uuid@) && final(self)@ == old(self)@,
    {
        proof {
            use_type_invariant(&*self);
        }
        match self.get(uuid) {
            Some(p) => {
                let changed = ProxyProfile { enabled, ..p };
                self.upsert(changed);
                Ok(())
            },
            None => Err(unknown(uuid)),
        }
    }

    /// How many profiles there are.
    pub fn len(&self) -> (r: usize)
        ensures
            self@.profiles.dom().finite(),
            r == self@.profiles.dom().len(),
    {
        self.profiles.len()
    }

    /// Whether there is no profile.
    pub fn is_empty(&self) -> (r: bool)
        ensures
            r == (self@.profiles == Map::<Seq<char>, ProxyProfile>::empty()),
    {
        let n: usize = self.profiles.len();
        proof {
            if n == 0 {
                assert(self@.profiles.dom() =~= Set::empty());
                assert(self@.profiles =~= Map::empty());
            }
        }
        n == 0
    }
}

// ---------------------------------------------------------------------------
// On disk
// ---------------------------------------------------------------------------

/// How many numbered backup names are tried before the plain one is used again.
pub const MAX_BACKUP_ATTEMPTS: u32 = 100;

/// What stands behind the name of a store that is moved aside: `.corrupt`, then
/// `.corrupt.1`, `.corrupt.2` and so on.
pub open spec fn backup_suffix(n: int) -> Seq<char> {
    if n == 0 {
        ".corrupt"@
    } else {
        ".corrupt."@ + text::decimal_text(n as nat)
    }
}

/// The name of the `n`th backup.
pub open spec fn backup_path(path: Seq<u8>, n: int) -> Seq<u8> {
    path + config::bytes_of(backup_suffix(n))
}

/// The first number at or after `from` whose backup name is known to be free, of those
/// that are tried; the plain name where there is none.
pub open spec fn free_from(taken: Seq<bool>, from: int) -> int
    decreases taken.len() - from,
{
    if from >= taken.len() || from > MAX_BACKUP_ATTEMPTS {
        0
    } else if !taken[from] {
        from
    } else {
        free_from(taken, from + 1)
    }
}

/// The number of the backup to use, given which names are taken.
pub open spec fn free_backup(taken: Seq<bool>) -> int {
    free_from(taken, 0)
}

/// The name of the `n`th backup.
pub fn backup_name(path: &FilePath, n: u32) -> (r: FilePath)
    ensures
        r@ == backup_path(path@, n as int),
{
    if n == 0 {
        path.with_suffix(".corrupt")
    } else {
        let suffix = crate::error::after(".corrupt.", text::decimal(n as u64).as_str());
        path.with_suffix(suffix.as_str())
    }
}

/// Where a store that cannot be parsed is moved to: the first free name, so that a newer
/// backup never takes the place of an older one while a name is free. `taken` tells of
/// each name in turn whether it exists; a name that it does not reach is not used.
pub fn next_backup_path(path: &FilePath, taken: &Vec<bool>) -> (r: FilePath)
    ensures
        r@ == backup_path(path@, free_backup(taken@)),
{
    let mut n: u32 = 0;
    while n <= MAX_BACKUP_ATTEMPTS && (n as usize) < taken.len()
        invariant
            n <= MAX_BACKUP_ATTEMPTS + 1,
            free_backup(taken@) == free_from(taken@, n as int),
        decreases MAX_BACKUP_ATTEMPTS + 1 - n,
    {
        if !taken[n as usize] {
            return backup_name(path, n);
        }
        n += 1;
    }
    backup_name(path, 0)
}

/// The permission bits of a mode that the owner alone has: none but reading and writing.
pub open spec fn is_owner_only(mode: u32) -> bool {
    mode == 0 || mode == 0o200 || mode == 0o400 || mode == 0o600
}

/// The permission bits that the store's file is written with, given the mode that it has
/// now (`None` where there is no file). Bits that a user tightened are kept; anything
/// wider is brought back to reading and writing by the owner.
pub open spec fn kept_mode(current: Option<u32>) -> u32 {
    match current {
        Some(m) => if is_owner_only((m % 512) as u32) {
            (m % 512) as u32
        } else {
            0o600
        },
        None => 0o600,
    }
}

/// The permission bits that the store's file is written with, given the mode that it has
/// now.
pub fn store_mode(current: Option<u32>) -> (r: u32)
    ensures
        r == kept_mode(current),
{
    match current {
        Some(m) => {
            let mode: u32 = m & 0o777;
            assert(mode == m % 512) by (bit_vector)
                requires
                    mode == m & 0o777,
            ;
            assert(mode & !0o600u32 == 0 <==> mode == 0 || mode == 0o200 || mode == 0o400 || mode
                == 0o600) by (bit_vector)
                requires
                    mode < 512,
            ;
            if mode & !0o600u32 == 0 {
                mode
            } else {
                0o600
            }
        },
        None => 0o600,
    }
}

// ---------------------------------------------------------------------------
// Laws
// ---------------------------------------------------------------------------

/// What is saved loads back: where the profiles of a save plan are read again, loading
/// gives the store that was saved. (A list of profiles is never blank as JSON.)
pub proof fn saved_store_loads_back(
    store: StoreView,
    plan: SavePlan,
    pid: u32,
    data: String,
    taken: Seq<bool>,
    r: Result<ProfileStore, Error>,
)
    requires
        saves(Some(plan), store, pid),
        !text::is_blank(data@),
        loads(r, plan.path@, StoreFile::Read(data, Ok(plan.profiles)), taken),
    ensures
        r matches Ok(s) && s@ == store,
{
}

/// A save plan holds each profile of the store just once, and nothing else.
pub proof fn save_plan_holds_the_store(store: StoreView, plan: SavePlan, pid: u32, uuid: Seq<char>)
    requires
        saves(Some(plan), store, pid),
    ensures
        found(store, uuid) matches Some(p) ==> plan.profiles@.contains(p) && p.connection_uuid@
            == uuid,
        forall|i: int|
            0 <= i < plan.profiles@.len() ==> found(
                store,
                (#[trigger] plan.profiles@[i]).connection_uuid@,
            ) == Some(plan.profiles@[i]),
{
    let list = plan.profiles@;
    indexed_entries(list);
    if store.profiles.contains_key(uuid) {
        let i = choose|i: int|
            0 <= i < list.len() && (#[trigger] list[i]).connection_uuid@ == uuid;
        assert(list[i] == store.profiles[uuid]);
    }
}

/// A store lives in memory alone exactly when there is nothing to do to save it.
pub proof fn only_stores_with_a_file_are_saved(store: StoreView, plan: Option<SavePlan>, pid: u32)
    requires
        saves(plan, store, pid),
    ensures
        plan is None <==> store.path is None,
{
}

/// The file that a store is written to first is not the store's own, nor one that a
/// corrupt store is moved to.
pub proof fn save_goes_through_another_file(store: StoreView, plan: SavePlan, pid: u32, n: int)
    requires
        saves(Some(plan), store, pid),
        0 <= n,
    ensures
        plan.tmp@ != plan.path@,
        plan.tmp@ != backup_path(plan.path@, n),
{
    let suffix = ".tmp."@ + text::decimal_text(pid as nat);
    let other = backup_suffix(n);
    reveal_strlit(".tmp.");
    reveal_strlit(".corrupt");
    reveal_strlit(".corrupt.");
    vstd::utf8::encode_utf8_decode_utf8(suffix);
    vstd::utf8::encode_utf8_decode_utf8(other);
    assert(suffix[1] == 't' && other[1] == 'c');
    if plan.tmp@ == plan.path@ {
        assert(config::bytes_of(suffix).len() == 0);
        assert(config::bytes_of(suffix) =~= config::bytes_of(Seq::empty()));
        vstd::utf8::encode_utf8_decode_utf8(Seq::empty());
    }
    if plan.tmp@ == backup_path(plan.path@, n) {
        let len = plan.path@.len() as int;
        assert(config::bytes_of(suffix) =~= plan.tmp@.skip(len));
        assert(config::bytes_of(other) =~= backup_path(plan.path@, n).skip(len));
    }
}

/// Replacing every profile leaves just the new ones, each found as in a store made of them
/// alone, and the same file to save them to.
pub proof fn replaced_profiles_are_all_there_is(
    store: StoreView,
    profiles: Seq<ProxyProfile>,
    uuid: Seq<char>,
)
    ensures
        ({
            let replaced = store_of(profiles, store.path);
            &&& replaced.path == store.path
            &&& found(replaced, uuid) == found(store_of(profiles, None), uuid)
            &&& found(replaced, uuid) is Some <==> exists|i: int|
                0 <= i < profiles.len() && (#[trigger] profiles[i]).connection_uuid@ == uuid
            &&& found(replaced, uuid) matches Some(p) ==> p.connection_uuid@ == uuid
        }),
{
    indexed_entries(profiles);
    indexed_by_uuid(profiles, uuid);
}

proof fn indexed_by_uuid(list: Seq<ProxyProfile>, uuid: Seq<char>)
    ensures
        indexed(list).contains_key(uuid) ==> indexed(list)[uuid].connection_uuid@ == uuid,
    decreases list.len(),
{
    if list.len() > 0 {
        indexed_by_uuid(list.drop_last(), uuid);
    }
}

/// The keys of the index are the uuids of the profiles; without two for the same
/// connection each profile is what its uuid maps to.
pub proof fn indexed_entries(list: Seq<ProxyProfile>)
    ensures
        forall|uuid: Seq<char>| #[trigger]
            indexed(list).contains_key(uuid) <==> exists|i: int|
                0 <= i < list.len() && (#[trigger] list[i]).connection_uuid@ == uuid,
        unique(list) ==> forall|i: int|
            0 <= i < list.len() ==> indexed(list)[(#[trigger] list[i]).connection_uuid@] == list[i],
    decreases list.len(),
{
    if list.len() > 0 {
        let rest = list.drop_last();
        indexed_entries(rest);
        assert forall|uuid: Seq<char>| #[trigger]
            indexed(list).contains_key(uuid) <==> exists|i: int|
                0 <= i < list.len() && (#[trigger] list[i]).connection_uuid@ == uuid by {
            assert(indexed(list).contains_key(uuid) <==> uuid == list.last().connection_uuid@
                || indexed(rest).contains_key(uuid));
            if indexed(rest).contains_key(uuid) {
                let i = choose|i: int|
                    0 <= i < rest.len() && (#[trigger] rest[i]).connection_uuid@ == uuid;
                assert(list[i] == rest[i]);
            }
            if uuid == list.last().connection_uuid@ {
                assert(list[list.len() - 1].connection_uuid@ == uuid);
            }
            if exists|i: int| 0 <= i < list.len() && (#[trigger] list[i]).connection_uuid@ == uuid {
                let i = choose|i: int|
                    0 <= i < list.len() && (#[trigger] list[i]).connection_uuid@ == uuid;
                if i < rest.len() {
                    assert(rest[i] == list[i]);
                }
            }
        }
        if unique(list) {
            assert(unique(rest)) by {
                assert forall|i: int, j: int| 0 <= i < j < rest.len() implies (
                #[trigger] rest[i]).connection_uuid@ != (#[trigger] rest[j]).connection_uuid@ by {
                    assert(rest[i] == list[i] && rest[j] == list[j]);
                }
            }
            assert forall|i: int| 0 <= i < list.len() implies indexed(list)[(
            #[trigger] list[i]).connection_uuid@] == list[i] by {
                if i < rest.len() {
                    assert(rest[i] == list[i]);
                    assert(list[i].connection_uuid@ != list[list.len() - 1].connection_uuid@);
                }
            }
        }
    }
}

/// The backup that is used is free, unless none of the names that are tried is known to be.
pub proof fn backup_is_free(taken: Seq<bool>)
    ensures
        0 <= free_backup(taken) <= MAX_BACKUP_ATTEMPTS,
        (exists|n: int|
            0 <= n < taken.len() && n <= MAX_BACKUP_ATTEMPTS && !(#[trigger] taken[n]))
            ==> free_backup(taken) < taken.len() && !taken[free_backup(taken)],
{
    free_from_is_free(taken, 0);
}

proof fn free_from_is_free(taken: Seq<bool>, from: int)
    requires
        0 <= from,
    ensures
        0 <= free_from(taken, from) <= MAX_BACKUP_ATTEMPTS,
        forall|n: int|
            from <= n < taken.len() && n <= MAX_BACKUP_ATTEMPTS && !(#[trigger] taken[n])
                ==> free_from(taken, from) < taken.len() && !taken[free_from(taken, from)],
    decreases taken.len() - from,
{
    if from < taken.len() && from <= MAX_BACKUP_ATTEMPTS && taken[from] {
        free_from_is_free(taken, from + 1);
    }
}

/// Different backups have different names.
pub proof fn backups_have_names_of_their_own(path: Seq<u8>, m: int, n: int)
    requires
        0 <= m,
        0 <= n,
        backup_path(path, m) == backup_path(path, n),
    ensures
        m == n,
{
    let a = backup_suffix(m);
    let b = backup_suffix(n);
    assert(config::bytes_of(a) == config::bytes_of(b)) by {
        assert(config::bytes_of(a) =~= backup_path(path, m).skip(path.len() as int));
        assert(config::bytes_of(b) =~= backup_path(path, n).skip(path.len() as int));
    }
    vstd::utf8::encode_utf8_decode_utf8(a);
    vstd::utf8::encode_utf8_decode_utf8(b);
    assert(a == b);
    reveal_strlit(".corrupt");
    reveal_strlit(".corrupt.");
    if m != 0 && n != 0 {
        let x = text::decimal_text(m as nat);
        let y = text::decimal_text(n as nat);
        assert(x =~= a.skip(9));
        assert(y =~= b.skip(9));
        crate::addr::decimal_reads_back(m as nat);
        crate::addr::decimal_reads_back(n as nat);
    } else if m != 0 {
        crate::addr::decimal_reads_back(m as nat);
        assert(a.len() > 8);
    } else if n != 0 {
        crate::addr::decimal_reads_back(n as nat);
        assert(b.len() > 8);
    }
}

/// A saved store is for its owner to read and write and for nobody else, and a mode that
/// was tightened further is kept.
pub proof fn saving_keeps_a_tightened_mode(mode: u32)
    ensures
        kept_mode(Some(mode)) & 0o177 == 0,
        mode & 0o177 == 0 ==> kept_mode(Some(mode)) == mode & 0o777,
{
    assert(0u32 & 0o177 == 0) by (bit_vector);
    assert(0o200u32 & 0o177 == 0) by (bit_vector);
    assert(0o400u32 & 0o177 == 0) by (bit_vector);
    assert(0o600u32 & 0o177 == 0) by (bit_vector);
    assert(mode & 0o177 == 0 ==> ({
        let bits = mode % 512;
        bits == 0 || bits == 0o200 || bits == 0o400 || bits == 0o600
    })) by (bit_vector);
    assert(mode & 0o777 == mode % 512) by (bit_vector);
}

/// Of several profiles for the same connection the last one counts.
pub proof fn last_profile_counts(list: Seq<ProxyProfile>, i: int)
    requires
        0 <= i < list.len(),
        forall|j: int|
            i < j < list.len() ==> (#[trigger] list[j]).connection_uuid@ != list[i].connection_uuid@,
    ensures
        indexed(list).contains_key(list[i].connection_uuid@),
        indexed(list)[list[i].connection_uuid@] == list[i],
    decreases list.len(),
{
    let rest = list.drop_last();
    if i < rest.len() {
        assert forall|j: int| i < j < rest.len() implies (#[trigger] rest[j]).connection_uuid@
            != rest[i].connection_uuid@ by {
            assert(rest[j] == list[j]);
        }
        last_profile_counts(rest, i);
        assert(list[list.len() - 1].connection_uuid@ != list[i].connection_uuid@);
    }
}

/// A store's file that holds something else than profiles is never taken for an empty
/// store, and neither is one that cannot be read; only a missing or a blank one is.
pub proof fn broken_store_is_not_an_empty_one(
    r: Result<ProfileStore, Error>,
    path: Seq<u8>,
    file: StoreFile,
    taken: Seq<bool>,
)
    requires
        loads(r, path, file, taken),
    ensures
        r is Err <==> file is Unreadable || (file matches StoreFile::Read(data, parsed) && parsed is Err
            && !text::is_blank(data@)),
        r matches Ok(s) ==> s@.path == Some(path),
        file is Missing ==> (r matches Ok(s) && s@.profiles == Map::<Seq<char>, ProxyProfile>::empty()),
{
    assert(indexed(Seq::<ProxyProfile>::empty()) =~= Map::empty());
}

/// The backup of a store that cannot be parsed stands beside it, under its name with
/// `.corrupt` behind it.
pub proof fn backup_stands_beside_the_store(path: Seq<u8>, n: int)
    requires
        0 <= n,
    ensures
        path.is_prefix_of(backup_path(path, n)),
        ".corrupt"@.is_prefix_of(backup_suffix(n)),
        n == 0 <==> backup_suffix(n) == ".corrupt"@,
        n > 0 ==> crate::addr::digits_value(backup_suffix(n).skip(9)) == n,
{
    reveal_strlit(".corrupt");
    reveal_strlit(".corrupt.");
    let s = backup_suffix(n);
    assert(backup_path(path, n).take(path.len() as int) =~= path);
    assert(s.take(8) =~= ".corrupt"@);
    if n > 0 {
        crate::addr::decimal_reads_back(n as nat);
        assert(s.skip(9) =~= text::decimal_text(n as nat));
    }
}

/// The backup that is used is the first whose name is free.
pub proof fn backup_is_the_first_free(taken: Seq<bool>, n: int)
    requires
        0 <= n < taken.len(),
        n <= 100,
        !taken[n],
        forall|m: int| 0 <= m < n ==> #[trigger] taken[m],
    ensures
        free_backup(taken) == n,
{
    reaches_the_first_free(taken, 0, n);
}

proof fn reaches_the_first_free(taken: Seq<bool>, from: int, n: int)
    requires
        0 <= from <= n < taken.len(),
        n <= 100,
        !taken[n],
        forall|m: int| 0 <= m < n ==> #[trigger] taken[m],
    ensures
        free_from(taken, from) == n,
    decreases n - from,
{
    if from < n {
        reaches_the_first_free(taken, from + 1, n);
    }
}

/// Processes that save the same store at once write to different files.
pub proof fn processes_save_apart(
    store: StoreView,
    plan: SavePlan,
    other: SavePlan,
    pid: u32,
    other_pid: u32,
)
    requires
        saves(Some(plan), store, pid),
        saves(Some(other), store, other_pid),
        pid != other_pid,
    ensures
        plan.tmp@ != other.tmp@,
        plan.path@ == other.path@,
{
    let a = ".tmp."@ + text::decimal_text(pid as nat);
    let b = ".tmp."@ + text::decimal_text(other_pid as nat);
    if plan.tmp@ == other.tmp@ {
        let len = plan.path@.len() as int;
        assert(config::bytes_of(a) =~= plan.tmp@.skip(len));
        assert(config::bytes_of(b) =~= other.tmp@.skip(len));
        vstd::utf8::encode_utf8_decode_utf8(a);
        vstd::utf8::encode_utf8_decode_utf8(b);
        assert(a == b);
        let n = ".tmp."@.len() as int;
        assert(text::decimal_text(pid as nat) =~= a.skip(n));
        assert(text::decimal_text(other_pid as nat) =~= b.skip(n));
        crate::addr::decimal_reads_back(pid as nat);
        crate::addr::decimal_reads_back(other_pid as nat);
    }
}

/// A profile that is disabled is stored and yet not used: it is found, but not as an enabled
/// one. An enabled one is found either way.
pub proof fn disabled_profiles_are_not_used(store: StoreView, uuid: Seq<char>)
    ensures
        found(store, uuid) is Some <==> store.profiles.contains_key(uuid),
        found(store, uuid) is Some ==> found(store, uuid)->0 == store.profiles[uuid],
        enabled_in(store, uuid) is Some <==> store.profiles.contains_key(uuid)
            && store.profiles[uuid].enabled,
        enabled_in(store, uuid) is Some ==> enabled_in(store, uuid) == found(store, uuid),
{
}

/// What is said of a corrupt store names the store first, then the backup that keeps its
/// bytes, and then what is wrong with them.
pub proof fn corrupt_stores_name_their_backup(
    path: Seq<char>,
    backup: Seq<char>,
    source: Seq<char>,
)
    ensures
        ({
            let said = corrupt_text(path, backup, source);
            let at = "profile store "@.len() as int;
            let kept = at + path.len()
                + " is not valid JSON; the original bytes were kept at "@.len() as int;
            &&& said.subrange(at, at + path.len()) == path
            &&& said.subrange(kept, kept + backup.len()) == backup
            &&& source.is_suffix_of(said)
        }),
{
    let said = corrupt_text(path, backup, source);
    let at = "profile store "@.len() as int;
    let kept = at + path.len() + " is not valid JSON; the original bytes were kept at "@.len() as int;
    assert(said.subrange(at, at + path.len()) =~= path);
    assert(said.subrange(kept, kept + backup.len()) =~= backup);
    assert(said.skip(said.len() - source.len()) =~= source);
}

} // verus!
