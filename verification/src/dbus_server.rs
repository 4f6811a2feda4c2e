//! Who may control the daemon over D-Bus, and how calls are read and answered.

use crate::text;
use vstd::prelude::*;

verus! {

/// The bus name that the daemon owns.
pub const DAEMON_BUS_NAME: &'static str = "org.proxywifi.Daemon";

/// The object path that the daemon exports.
pub const DAEMON_OBJECT_PATH: &'static str = "/org/proxywifi/Daemon";

/// The level of the D-Bus interface, raised when it changes.
pub const API_VERSION: u32 = 1;

/// The group whose members may control the daemon; the bus policy says the same.
pub const CONTROL_GROUP: &'static str = "proxywifi";

/// The colon-separated fields of a line.
pub open spec fn fields(line: Seq<char>) -> Seq<Seq<char>> {
    text::split_text(line, ':')
}

/// The name of the first user with `uid`, in the lines of the user database.
pub open spec fn user_of(lines: Seq<Seq<char>>, uid: u32) -> Option<Seq<char>>
    decreases lines.len(),
{
    if lines.len() == 0 {
        None
    } else if fields(lines[0]).len() > 2 && fields(lines[0])[2] == text::decimal_text(uid as nat) {
        Some(fields(lines[0])[0])
    } else {
        user_of(lines.drop_first(), uid)
    }
}

/// Whether a line of the group database lists `user` as a member of the control group.
pub open spec fn lists_member(line: Seq<char>, user: Seq<char>) -> bool {
    &&& fields(line)[0] == CONTROL_GROUP@
    &&& fields(line).len() > 3
    &&& text::split_text(fields(line)[3], ',').contains(user)
}

/// Whether a line of the group database lists `user` as a member of the control group.
pub open spec fn is_member(lines: Seq<Seq<char>>, user: Seq<char>) -> bool {
    exists|i: int| 0 <= i < lines.len() && lists_member(#[trigger] lines[i], user)
}

/// Whether `uid` is root or a listed member of the control group, given the user and the
/// group database where they could be read.
pub open spec fn may_control(uid: u32, passwd: Option<Seq<char>>, group: Option<Seq<char>>) -> bool {
    ||| uid == 0
    ||| {
        &&& passwd is Some
        &&& group is Some
        &&& user_of(text::lines_text(passwd->0), uid) is Some
        &&& is_member(
            text::lines_text(group->0),
            user_of(text::lines_text(passwd->0), uid)->0,
        )
    }
}

fn find_user(passwd: &str, uid: u32) -> (r: Option<String>)
    ensures
        crate::models::opt_text(r) == user_of(text::lines_text(passwd@), uid),
{
    let lines = text::lines(passwd);
    let wanted = text::decimal(uid as u64);
    let ghost all = text::texts(lines@);
    assert(all.len() == lines@.len());
    assert(all.skip(0) =~= all);
    let mut i: usize = 0;
    while i < lines.len()
        invariant
            i <= lines@.len(),
            all == text::texts(lines@),
            all == text::lines_text(passwd@),
            wanted@ == text::decimal_text(uid as nat),
            user_of(all, uid) == user_of(all.skip(i as int), uid),
        decreases lines@.len() - i,
    {
        let parts = text::split(lines[i].as_str(), ':');
        proof {
            assert(all.skip(i as int)[0] == lines@[i as int]@);
            assert(all.skip(i as int).drop_first() =~= all.skip(i + 1));
            assert(text::texts(parts@).len() == parts@.len());
            assert(forall|k: int| 0 <= k < parts@.len() ==> text::texts(parts@)[k] == parts@[k]@);
        }
        if parts.len() > 2 && text::same_text(parts[2].as_str(), wanted.as_str()) {
            return Some(parts[0].clone());
        }
        i += 1;
    }
    None
}

fn is_listed(line: &str, user: &str) -> (r: bool)
    ensures
        r == lists_member(line@, user@),
{
    let parts = text::split(line, ':');
    proof {
        text::split_text_nonempty(line@, ':');
        assert(text::texts(parts@).len() == parts@.len());
        assert(forall|k: int| 0 <= k < parts@.len() ==> text::texts(parts@)[k] == parts@[k]@);
    }
    if !text::same_text(parts[0].as_str(), CONTROL_GROUP) || parts.len() <= 3 {
        return false;
    }
    let members = text::split(parts[3].as_str(), ',');
    let ghost names = text::texts(members@);
    assert(names.len() == members@.len());
    let mut i: usize = 0;
    while i < members.len()
        invariant
            i <= members@.len(),
            names == text::texts(members@),
            names.len() == members@.len(),
            forall|j: int| 0 <= j < i ==> #[trigger] names[j] != user@,
            names == text::split_text(fields(line@)[3], ','),
            fields(line@)[0] == CONTROL_GROUP@,
            fields(line@).len() > 3,
        decreases members@.len() - i,
    {
        assert(names[i as int] == members@[i as int]@);
        if text::same_text(members[i].as_str(), user) {
            assert(names.contains(user@));
            return true;
        }
        i += 1;
    }
    assert(!names.contains(user@));
    false
}

/// Whether `uid` is root or a listed member of the control group; `passwd` and `group`
/// are the texts of the user and the group database, where they could be read.
pub fn uid_may_control(uid: u32, passwd: Option<&str>, group: Option<&str>) -> (r: bool)
    ensures
        r == may_control(uid, text::opt_str(passwd), text::opt_str(group)),
{
    if uid == 0 {
        return true;
    }
    let user = match passwd {
        Some(p) => match find_user(p, uid) {
            Some(u) => u,
            None => {
                return false;
            },
        },
        None => {
            return false;
        },
    };
    let text = match group {
        Some(g) => g,
        None => {
            return false;
        },
    };
    let lines = text::lines(text);
    let ghost all = text::texts(lines@);
    assert(all.len() == lines@.len());
    let mut i: usize = 0;
    while i < lines.len()
        invariant
            i <= lines@.len(),
            all == text::texts(lines@),
            all.len() == lines@.len(),
            all == text::lines_text(text@),
            text::opt_str(group) == Some(text@),
            uid != 0,
            text::opt_str(passwd) is Some,
            Some(user@) == user_of(text::lines_text(text::opt_str(passwd)->0), uid),
            forall|j: int| 0 <= j < i ==> !lists_member(#[trigger] all[j], user@),
        decreases lines@.len() - i,
    {
        assert(all[i as int] == lines@[i as int]@);
        if is_listed(lines[i].as_str(), user.as_str()) {
            assert(is_member(all, user@));
            return true;
        }
        i += 1;
    }
    false
}

/// Why a caller is refused.
pub fn access_denied(uid: u32) -> (r: String)
    ensures
        r@ == "uid "@ + text::decimal_text(uid as nat) + " is not root or a member of group "@
            + CONTROL_GROUP@,
{
    let mut r = "uid ".to_owned();
    r.append(text::decimal(uid as u64).as_str());
    r.append(" is not root or a member of group ");
    r.append(CONTROL_GROUP);
    r
}

/// What a failed call is answered.
pub fn failure(context: &str, error: &str) -> (r: String)
    ensures
        r@ == context@ + ": "@ + error@,
{
    let mut r = context.to_owned();
    r.append(": ");
    r.append(error);
    r
}

/// The connection that a start is asked for: none where the text is blank.
pub fn requested_uuid(uuid: String) -> (r: Option<String>)
    ensures
        r == (if text::is_blank(uuid@) {
            None
        } else {
            Some(uuid)
        }),
{
    proof {
        text::blank_iff_trimmed_empty(uuid@);
    }
    if text::trim(uuid.as_str()).as_str().is_empty() {
        None
    } else {
        Some(uuid)
    }
}

/// An optional argument, which is left out by an empty text.
pub fn given(text: String) -> (r: Option<String>)
    ensures
        r == (if text@.len() == 0 {
            None
        } else {
            Some(text)
        }),
{
    if text.as_str().is_empty() {
        None
    } else {
        Some(text)
    }
}

// ---------------------------------------------------------------------------
// Laws
// ---------------------------------------------------------------------------

/// Where the databases cannot be read, only root may control the daemon.
pub proof fn unreadable_databases_admit_root_only(uid: u32, passwd: Option<Seq<char>>, group: Option<Seq<char>>)
    requires
        passwd is None || group is None,
    ensures
        may_control(uid, passwd, group) <==> uid == 0,
{
}

/// A user whom the control group does not list is refused.
pub proof fn unlisted_user_is_refused(uid: u32, passwd: Seq<char>, group: Seq<char>)
    requires
        uid != 0,
        user_of(text::lines_text(passwd), uid) matches Some(user) ==> !is_member(
            text::lines_text(group),
            user,
        ),
    ensures
        !may_control(uid, Some(passwd), Some(group)),
{
}

/// The user of a uid is the one on the first line that has the uid in its third field.
pub proof fn user_is_on_the_first_line_with_the_uid(lines: Seq<Seq<char>>, uid: u32)
    ensures
        user_of(lines, uid) is Some <==> exists|i: int|
            0 <= i < lines.len() && #[trigger] is_line_of(lines[i], uid),
        user_of(lines, uid) is Some ==> exists|i: int|
            0 <= i < lines.len() && #[trigger] is_line_of(lines[i], uid) && user_of(lines, uid)->0
                == text::split_text(lines[i], ':')[0] && (forall|j: int|
                0 <= j < i ==> !#[trigger] is_line_of(lines[j], uid)),
    decreases lines.len(),
{
    if lines.len() > 0 {
        let rest = lines.drop_first();
        if is_line_of(lines[0], uid) {
            assert(user_of(lines, uid)->0 == text::split_text(lines[0], ':')[0]);
        } else {
            user_is_on_the_first_line_with_the_uid(rest, uid);
            if user_of(rest, uid) is Some {
                let i = choose|i: int|
                    0 <= i < rest.len() && #[trigger] is_line_of(rest[i], uid) && user_of(
                        rest,
                        uid,
                    )->0 == text::split_text(rest[i], ':')[0] && (forall|j: int|
                        0 <= j < i ==> !#[trigger] is_line_of(rest[j], uid));
                assert(lines[i + 1] == rest[i]);
                assert(is_line_of(lines[i + 1], uid));
                assert forall|j: int| 0 <= j < i + 1 implies !#[trigger] is_line_of(lines[j], uid) by {
                    if j > 0 {
                        assert(rest[j - 1] == lines[j]);
                    }
                }
            } else {
                assert forall|i: int| 0 <= i < lines.len() implies !#[trigger] is_line_of(
                    lines[i],
                    uid,
                ) by {
                    if i > 0 {
                        assert(rest[i - 1] == lines[i]);
                    }
                }
            }
        }
    }
}

/// Whether a line of the user database is that of a uid: its third field is the uid.
pub open spec fn is_line_of(line: Seq<char>, uid: u32) -> bool {
    let parts = text::split_text(line, ':');
    parts.len() > 2 && parts[2] == text::decimal_text(uid as nat)
}

/// Whether a line of the group database is that of the group `proxywifi` and names a user
/// among its members, in the fourth field.
pub open spec fn names_controller(line: Seq<char>, user: Seq<char>) -> bool {
    let parts = text::split_text(line, ':');
    parts.len() > 3 && parts[0] == "proxywifi"@ && text::split_text(parts[3], ',').contains(user)
}

/// Who may control the daemon: root, and whoever the group `proxywifi` lists under the
/// name that the user database gives to the uid. Nobody else.
pub proof fn root_and_listed_members_may_control(uid: u32, passwd: Seq<char>, group: Seq<char>)
    ensures
        may_control(0, Some(passwd), Some(group)),
        uid != 0 ==> (may_control(uid, Some(passwd), Some(group)) <==> exists|i: int, k: int|
            0 <= i < text::lines_text(passwd).len() && 0 <= k < text::lines_text(group).len()
                && #[trigger] is_line_of(text::lines_text(passwd)[i], uid) && (forall|j: int|
                0 <= j < i ==> !#[trigger] is_line_of(text::lines_text(passwd)[j], uid))
                && #[trigger] names_controller(
                text::lines_text(group)[k],
                text::split_text(text::lines_text(passwd)[i], ':')[0],
            )),
{
    let (users, groups) = (text::lines_text(passwd), text::lines_text(group));
    user_is_on_the_first_line_with_the_uid(users, uid);
    if uid != 0 {
        if user_of(users, uid) is Some {
            let user = user_of(users, uid)->0;
            let i = choose|i: int|
                0 <= i < users.len() && #[trigger] is_line_of(users[i], uid) && user
                    == text::split_text(users[i], ':')[0] && (forall|j: int|
                    0 <= j < i ==> !#[trigger] is_line_of(users[j], uid));
            if may_control(uid, Some(passwd), Some(group)) {
                let k = choose|k: int| 0 <= k < groups.len() && lists_member(#[trigger] groups[k], user);
                assert(names_controller(groups[k], text::split_text(users[i], ':')[0]));
            }
        }
        if exists|i: int, k: int|
            0 <= i < users.len() && 0 <= k < groups.len() && #[trigger] is_line_of(users[i], uid) && (
            forall|j: int| 0 <= j < i ==> !#[trigger] is_line_of(users[j], uid))
                && #[trigger] names_controller(groups[k], text::split_text(users[i], ':')[0]) {
            let (i, k) = choose|i: int, k: int|
                0 <= i < users.len() && 0 <= k < groups.len() && #[trigger] is_line_of(users[i], uid)
                    && (forall|j: int| 0 <= j < i ==> !#[trigger] is_line_of(users[j], uid))
                    && #[trigger] names_controller(groups[k], text::split_text(users[i], ':')[0]);
            assert(user_of(users, uid) is Some);
            let user = user_of(users, uid)->0;
            let n = choose|n: int|
                0 <= n < users.len() && #[trigger] is_line_of(users[n], uid) && user
                    == text::split_text(users[n], ':')[0] && (forall|j: int|
                    0 <= j < n ==> !#[trigger] is_line_of(users[j], uid));
            assert(n == i);
            assert(lists_member(groups[k], user));
        }
    }
}

} // verus!
