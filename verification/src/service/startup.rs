//! What the daemon starts with.

use crate::config;
use crate::config::FilePath;
use vstd::prelude::*;

verus! {

// ---------------------------------------------------------------------------
// Programs
// ---------------------------------------------------------------------------

/// The directories that `PATH` names: what stands between its colons.
pub open spec fn path_dirs(path: Seq<u8>) -> Seq<Seq<u8>>
    decreases path.len(),
{
    if path.len() == 0 {
        seq![Seq::empty()]
    } else {
        let dirs = path_dirs(path.drop_last());
        if path.last() == 58 {
            dirs.push(Seq::empty())
        } else {
            dirs.drop_last().push(dirs.last().push(path.last()))
        }
    }
}

/// Where the program `name` may be, given what `PATH` holds: in each of its directories
/// in turn.
pub fn program_paths(path: &FilePath, name: &str) -> (r: Vec<FilePath>)
    ensures
        config::paths_view(r@) == path_dirs(path@).map_values(|dir: Seq<u8>| config::entry(dir, name@)),
{
    let mut out: Vec<FilePath> = Vec::new();
    let mut dir: Vec<u8> = Vec::new();
    let mut i: usize = 0;
    let ghost at = |d: Seq<u8>| config::entry(d, name@);
    proof {
        assert(path@.take(0) =~= Seq::<u8>::empty());
        assert(config::paths_view(out@) =~= path_dirs(path@.take(0)).drop_last().map_values(at));
    }
    while i < path.bytes.len()
        invariant
            i <= path@.len(),
            path@ == path.bytes@,
            at == (|d: Seq<u8>| config::entry(d, name@)),
            path_dirs(path@.take(i as int)).len() > 0,
            dir@ == path_dirs(path@.take(i as int)).last(),
            config::paths_view(out@) == path_dirs(path@.take(i as int)).drop_last().map_values(at),
        decreases path@.len() - i,
    {
        let ghost dirs = path_dirs(path@.take(i as int));
        proof {
            let seen = path@.take(i + 1);
            assert(seen.drop_last() =~= path@.take(i as int));
            assert(seen.last() == path@[i as int]);
        }
        let b: u8 = path.bytes[i];
        if b == 58 {
            let found = FilePath { bytes: dir }.join(name);
            let ghost before = out@;
            out.push(found);
            dir = Vec::new();
            proof {
                assert(path_dirs(path@.take(i + 1)).drop_last() =~= dirs);
                assert(config::paths_view(out@) =~= config::paths_view(before).push(at(dirs.last())));
                assert(dirs =~= dirs.drop_last().push(dirs.last()));
                assert(dirs.map_values(at) =~= dirs.drop_last().map_values(at).push(
                    at(dirs.last()),
                ));
            }
        } else {
            dir.push(b);
            assert(path_dirs(path@.take(i + 1)).drop_last() =~= dirs.drop_last());
        }
        i += 1;
    }
    let ghost before = out@;
    let ghost dirs = path_dirs(path@);
    assert(path@.take(i as int) =~= path@);
    let found = FilePath { bytes: dir }.join(name);
    out.push(found);
    proof {
        assert(config::paths_view(out@) =~= config::paths_view(before).push(at(dirs.last())));
        assert(dirs =~= dirs.drop_last().push(dirs.last()));
        assert(dirs.map_values(at) =~= dirs.drop_last().map_values(at).push(at(dirs.last())));
    }
    out
}

/// A place where a program was looked for.
pub struct Candidate {
    pub path: FilePath,
    /// The mode of the regular file that is there, if one is.
    pub file_mode: Option<u32>,
}

/// Whether there is a program: a regular file that someone may execute.
pub open spec fn is_program(c: Candidate) -> bool {
    c.file_mode matches Some(m) && (m % 2 == 1 || (m / 8) % 2 == 1 || (m / 64) % 2 == 1)
}

/// The first place with a program.
pub open spec fn first_program(candidates: Seq<Candidate>) -> Option<Seq<u8>>
    decreases candidates.len(),
{
    if candidates.len() == 0 {
        None
    } else if is_program(candidates[0]) {
        Some(candidates[0].path@)
    } else {
        first_program(candidates.drop_first())
    }
}

/// The first place with a program.
pub fn find_program(candidates: &Vec<Candidate>) -> (r: Option<FilePath>)
    ensures
        config::opt_path(r) == first_program(candidates@),
{
    let mut i: usize = 0;
    assert(candidates@.skip(0) =~= candidates@);
    while i < candidates.len()
        invariant
            i <= candidates@.len(),
            first_program(candidates@) == first_program(candidates@.skip(i as int)),
        decreases candidates@.len() - i,
    {
        assert(candidates@.skip(i as int)[0] == candidates@[i as int]);
        assert(candidates@.skip(i as int).drop_first() =~= candidates@.skip(i + 1));
        if let Some(m) = candidates[i].file_mode {
            assert(m & 0o111 != 0 <==> m % 2 == 1 || (m / 8) % 2 == 1 || (m / 64) % 2 == 1)
                by (bit_vector);
            if m & 0o111 != 0 {
                return Some(candidates[i].path.clone());
            }
        }
        i += 1;
    }
    None
}

/// A program is found exactly where there is one, and none comes before it.
pub proof fn first_program_is_first(candidates: Seq<Candidate>)
    ensures
        first_program(candidates) is None <==> forall|i: int|
            0 <= i < candidates.len() ==> !is_program(#[trigger] candidates[i]),
        first_program(candidates) matches Some(p) ==> exists|i: int|
            0 <= i < candidates.len() && is_program(#[trigger] candidates[i]) && candidates[i].path@
                == p && forall|j: int| 0 <= j < i ==> !is_program(#[trigger] candidates[j]),
    decreases candidates.len(),
{
    if candidates.len() > 0 {
        let rest = candidates.drop_first();
        first_program_is_first(rest);
        if !is_program(candidates[0]) {
            match first_program(rest) {
                Some(p) => {
                    let i = choose|i: int|
                        0 <= i < rest.len() && is_program(#[trigger] rest[i]) && rest[i].path@ == p
                            && forall|j: int| 0 <= j < i ==> !is_program(#[trigger] rest[j]);
                    assert(candidates[i + 1] == rest[i]);
                    assert forall|j: int| 0 <= j < i + 1 implies !is_program(
                        #[trigger] candidates[j],
                    ) by {
                        if j > 0 {
                            assert(rest[j - 1] == candidates[j]);
                        }
                    }
                },
                None => {
                    assert forall|i: int| 0 <= i < candidates.len() implies !is_program(
                        #[trigger] candidates[i],
                    ) by {
                        if i > 0 {
                            assert(rest[i - 1] == candidates[i]);
                        }
                    }
                },
            }
        }
    }
}

// ---------------------------------------------------------------------------
// The data plane
// ---------------------------------------------------------------------------

/// What carries traffic.
pub enum DataPlane {
    /// `tun2socks` behind an nftables ruleset: where the programs are.
    Tunnel { nft: FilePath, ip: FilePath, tun2socks: FilePath },
    /// Stubs: nothing is proxied, and the kill switch does nothing.
    Stubs,
}

/// Whether `r` is the data plane to run.
pub open spec fn is_choice(
    r: Result<DataPlane, String>,
    nft: Option<FilePath>,
    ip: Option<FilePath>,
    tun2socks: Option<FilePath>,
    prototype: bool,
) -> bool {
    let complete = nft is Some && ip is Some && tun2socks is Some;
    match r {
        Ok(DataPlane::Tunnel { nft: n, ip: i, tun2socks: t }) => nft == Some(n) && ip == Some(i)
            && tun2socks == Some(t),
        Ok(DataPlane::Stubs) => !complete && prototype,
        Err(_) => !complete && !prototype,
    }
}

/// The data plane to run, given where the programs that it takes were found. Without all
/// of them the daemon does not run as if protection existed: it is refused, unless
/// `prototype` asks for the stubs.
pub fn choose_data_plane(
    nft: Option<FilePath>,
    ip: Option<FilePath>,
    tun2socks: Option<FilePath>,
    prototype: bool,
) -> (r: Result<DataPlane, String>)
    ensures
        is_choice(r, nft, ip, tun2socks, prototype),
        match (nft, ip, tun2socks) {
            (Some(n), Some(i), Some(t)) => r == Ok::<DataPlane, String>(
                DataPlane::Tunnel { nft: n, ip: i, tun2socks: t },
            ),
            _ => if prototype {
                r == Ok::<DataPlane, String>(DataPlane::Stubs)
            } else {
                r matches Err(why) && why@
                    == "nft, ip and tun2socks must all be installed; set PROXYWIFI_ALLOW_PROTOTYPE=1 to run the observe-only prototype"@
            },
        },
{
    match (nft, ip, tun2socks) {
        (Some(nft), Some(ip), Some(tun2socks)) => Ok(DataPlane::Tunnel { nft, ip, tun2socks }),
        _ => if prototype {
            Ok(DataPlane::Stubs)
        } else {
            Err(
                "nft, ip and tun2socks must all be installed; set PROXYWIFI_ALLOW_PROTOTYPE=1 to run the observe-only prototype".to_owned(),
            )
        },
    }
}

// ---------------------------------------------------------------------------
// Laws
// ---------------------------------------------------------------------------

/// A `PATH` without a colon names one directory, itself.
pub proof fn path_of_one_directory(path: Seq<u8>)
    requires
        forall|i: int| 0 <= i < path.len() ==> #[trigger] path[i] != 58,
    ensures
        path_dirs(path) == seq![path],
    decreases path.len(),
{
    if path.len() > 0 {
        let shorter = path.drop_last();
        assert forall|i: int| 0 <= i < shorter.len() implies #[trigger] shorter[i] != 58 by {
            assert(shorter[i] == path[i]);
        }
        path_of_one_directory(shorter);
        assert(path[path.len() - 1] != 58);
        assert(shorter.push(path.last()) =~= path);
        assert(path_dirs(path) =~= seq![path]);
    } else {
        assert(path =~= Seq::empty());
        assert(path_dirs(path) =~= seq![path]);
    }
}

/// What stands before the first colon of `PATH` is its first directory, and the others are
/// those of the rest.
pub proof fn first_directory_of_path(first: Seq<u8>, rest: Seq<u8>)
    requires
        forall|i: int| 0 <= i < first.len() ==> #[trigger] first[i] != 58,
    ensures
        path_dirs(first.push(58) + rest) == seq![first] + path_dirs(rest),
        path_dirs(rest).len() > 0,
    decreases rest.len(),
{
    let all = first.push(58) + rest;
    if rest.len() == 0 {
        assert(all =~= first.push(58));
        assert(all.drop_last() =~= first);
        path_of_one_directory(first);
        assert(path_dirs(all) =~= seq![first] + path_dirs(rest));
    } else {
        let shorter = rest.drop_last();
        first_directory_of_path(first, shorter);
        assert(all.drop_last() =~= first.push(58) + shorter);
        assert(all.last() == rest.last());
        let (found, before) = (path_dirs(all.drop_last()), path_dirs(shorter));
        assert(found.last() == before.last());
        assert(found.drop_last() =~= seq![first] + before.drop_last());
        assert(path_dirs(all) =~= seq![first] + path_dirs(rest));
    }
}

/// A regular file is a program just where one of the three bits that let it be executed is
/// set.
pub proof fn executable_files_are_programs(c: Candidate)
    ensures
        c.file_mode is None ==> !is_program(c),
        c.file_mode matches Some(m) ==> (is_program(c) <==> m & 0o100 != 0 || m & 0o010 != 0 || m
            & 0o001 != 0),
{
    if let Some(m) = c.file_mode {
        assert((m & 0o100 != 0 || m & 0o010 != 0 || m & 0o001 != 0) <==> (m % 2 == 1 || (m / 8) % 2
            == 1 || (m / 64) % 2 == 1)) by (bit_vector);
    }
}

/// Where all programs are found, traffic is carried by them, each in its own role; where
/// one is missing, nothing is, and the daemon refuses to run unless it is asked to run
/// without.
pub proof fn missing_programs_are_refused(
    r: Result<DataPlane, String>,
    nft: Option<FilePath>,
    ip: Option<FilePath>,
    tun2socks: Option<FilePath>,
    prototype: bool,
)
    requires
        is_choice(r, nft, ip, tun2socks, prototype),
    ensures
        r is Err <==> !prototype && (nft is None || ip is None || tun2socks is None),
        r matches Ok(d) ==> (d is Tunnel <==> nft is Some && ip is Some && tun2socks is Some),
        r matches Ok(DataPlane::Tunnel { nft: n, ip: i, tun2socks: t }) ==> n@ == nft->0@ && i@
            == ip->0@ && t@ == tun2socks->0@,
{
}

} // verus!
