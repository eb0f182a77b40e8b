//! Who may ask for a mapping, and what a mapped process may keep.
use vstd::prelude::*;

use crate::text::chars_of;
use crate::{Gid, Uid};

verus! {

/// The users that may use the daemon, besides root, where they are in the
/// administrator group.
pub const ALLOWED_USERS: [&'static str; 2] = ["root", "veronica"];

/// The group of the administrators.
pub const ADMINISTRATOR_GROUP: &'static str = "wheel";

/// Kernel number of `CAP_DAC_READ_SEARCH`.
pub const CAP_DAC_READ_SEARCH: u8 = 2;

/// Kernel number of `CAP_SETGID`.
pub const CAP_SETGID: u8 = 6;

/// Kernel number of `CAP_SETUID`.
pub const CAP_SETUID: u8 = 7;

/// Kernel number of `CAP_SETPCAP`.
pub const CAP_SETPCAP: u8 = 8;

/// The set bit of a file mode that runs it as its owner.
pub const MODE_SET_UID: u32 = 0o4000;

/// The set bit of a file mode that runs it as its group.
pub const MODE_SET_GID: u32 = 0o2000;

/// The capabilities that a non-root requester may ask for.
pub open spec fn allowed_cap(cap: u8) -> bool {
    cap == CAP_SETUID || cap == CAP_SETGID || cap == CAP_DAC_READ_SEARCH || cap == CAP_SETPCAP
}

/// The capabilities that a non-root requester may ask for when the child also
/// needs `setgroups(2)`. No wider set is defined for this case: it is the
/// ordinary set, which already holds `CAP_SETGID`, the capability that
/// `setgroups(2)` itself needs.
pub open spec fn allowed_cap_su(cap: u8) -> bool {
    allowed_cap(cap)
}

/// Whether a non-root requester may ask for `cap`.
pub fn is_allowed_cap(cap: u8) -> (b: bool)
    ensures
        b == allowed_cap(cap),
        b <==> (cap == 2 || cap == 6 || cap == 7 || cap == 8),
{
    cap == CAP_SETUID || cap == CAP_SETGID || cap == CAP_DAC_READ_SEARCH || cap == CAP_SETPCAP
}

/// Whether a non-root requester whose child needs `setgroups(2)` may ask for `cap`.
pub fn is_allowed_cap_su(cap: u8) -> (b: bool)
    ensures
        b == allowed_cap_su(cap),
        b <==> (cap == 2 || cap == 6 || cap == 7 || cap == 8),
{
    is_allowed_cap(cap)
}

/// A non-root requester may ask for exactly four capabilities, whether or not
/// its child needs `setgroups(2)`: `CAP_DAC_READ_SEARCH` (2), `CAP_SETGID` (6),
/// `CAP_SETUID` (7) and `CAP_SETPCAP` (8).
pub proof fn lemma_allowed_caps_are_four(cap: u8)
    ensures
        allowed_cap(cap) <==> (cap == 2 || cap == 6 || cap == 7 || cap == 8),
        allowed_cap_su(cap) <==> (cap == 2 || cap == 6 || cap == 7 || cap == 8),
{
}

/// Why a requester is not admitted.
#[derive(Debug, Clone, Copy, PartialEq, Eq, Structural)]
pub enum AdmissionError {
    /// The administrator group does not exist on this system.
    NoAdministratorGroup,
    /// The user is not an allowed user in the administrator group.
    NotAllowed { uid: Uid },
}

/// Whether the user `uid`, member of `groups`, may use the daemon, given the
/// administrator group's id (`None` where it does not exist) and the ids of the
/// allowed users. Root always may; anyone else must be an allowed user and a
/// member of the administrator group.
pub open spec fn admission(
    uid: Uid,
    groups: Seq<Gid>,
    admin_gid: Option<Gid>,
    allowed_uids: Seq<Uid>,
) -> Result<(), AdmissionError> {
    if uid == 0 {
        Ok(())
    } else {
        match admin_gid {
            None => Err(AdmissionError::NoAdministratorGroup),
            Some(g) => if allowed_uids.contains(uid) && groups.contains(g) {
                Ok(())
            } else {
                Err(AdmissionError::NotAllowed { uid })
            },
        }
    }
}

/// Whether `x` occurs in `s`.
pub fn holds_u32(s: &[u32], x: u32) -> (b: bool)
    ensures
        b == s@.contains(x),
{
    let mut i: usize = 0;
    while i < s.len()
        invariant
            i <= s.len(),
            forall|k: int| 0 <= k < i ==> s@[k] != x,
        decreases s.len() - i,
    {
        if s[i] == x {
            assert(s@[i as int] == x);
            return true;
        }
        i = i + 1;
    }
    false
}

/// Whether the user `peer_uid`, member of `peer_groups`, may use the daemon;
/// `admin_gid` is the administrator group's id where it exists, and
/// `allowed_uids` the ids of the allowed users that exist.
pub fn is_admitted(
    peer_uid: Uid,
    peer_groups: &[Gid],
    admin_gid: Option<Gid>,
    allowed_uids: &[Uid],
) -> (r: Result<(), AdmissionError>)
    ensures
        r == admission(peer_uid, peer_groups@, admin_gid, allowed_uids@),
{
    if peer_uid == 0 {
        return Ok(());
    }
    let wheel = match admin_gid {
        Some(g) => g,
        None => {
            return Err(AdmissionError::NoAdministratorGroup);
        },
    };
    if holds_u32(allowed_uids, peer_uid) && holds_u32(peer_groups, wheel) {
        return Ok(());
    }
    Err(AdmissionError::NotAllowed { uid: peer_uid })
}

/// The programs that may be run in the sandbox.
pub open spec fn allowed_binary(path: Seq<char>) -> bool {
    ||| path == "/usr/bin/.su.unwrapped"@
    ||| path == "/usr/bin/.sudo.unwrapped"@
    ||| path == "/usr/bin/.doas.unwrapped"@
}

/// The programs that may be run are exactly the unwrapped `su`, `sudo` and
/// `doas` in `/usr/bin`.
pub proof fn lemma_allowed_binaries(path: Seq<char>)
    ensures
        allowed_binary(path) <==> (path == "/usr/bin/.su.unwrapped"@ || path
            == "/usr/bin/.sudo.unwrapped"@ || path == "/usr/bin/.doas.unwrapped"@),
{
}

/// A mode carries neither set-id bit exactly when its `0o6000` bits are clear.
pub proof fn lemma_set_id_bits(m: u32)
    ensures
        (m & MODE_SET_UID == 0 && m & MODE_SET_GID == 0) <==> m & 0o6000u32 == 0,
{
    assert((m & 0o4000u32 == 0 && m & 0o2000u32 == 0) <==> m & 0o6000u32 == 0) by (bit_vector);
}

/// Each of the allowed programs may be run whenever its mode carries no set-id
/// bit, and no program may be run with a set-id bit or without a mode.
pub proof fn lemma_listed_binaries_run(path: Seq<char>, mode: Option<u32>)
    ensures
        ((path == "/usr/bin/.su.unwrapped"@ || path == "/usr/bin/.sudo.unwrapped"@ || path
            == "/usr/bin/.doas.unwrapped"@) && mode is Some && mode->0 & 0o6000u32 == 0)
            <==> (allowed_binary(path) && mode is Some && mode->0 & MODE_SET_UID == 0 && mode->0
            & MODE_SET_GID == 0),
{
    lemma_allowed_binaries(path);
    if let Some(m) = mode {
        lemma_set_id_bits(m);
    }
}

fn same_chars(a: &Vec<char>, b: &Vec<char>) -> (r: bool)
    ensures
        r == (a@ == b@),
{
    if a.len() != b.len() {
        return false;
    }
    let mut i: usize = 0;
    while i < a.len()
        invariant
            i <= a.len() == b.len(),
            forall|k: int| 0 <= k < i ==> a@[k] == b@[k],
        decreases a.len() - i,
    {
        if a[i] != b[i] {
            return false;
        }
        i = i + 1;
    }
    assert(a@ =~= b@);
    true
}

/// Whether the program at `path` may be run in the sandbox: it must be one of
/// the allowed programs, exist (`mode` is its file mode, `None` where it could
/// not be read), and carry neither the set-user-id nor the set-group-id bit.
pub fn is_binary_allowed(path: &str, mode: Option<u32>) -> (b: bool)
    ensures
        b == (allowed_binary(path@) && mode is Some && mode->0 & MODE_SET_UID == 0 && mode->0
            & MODE_SET_GID == 0),
        b <==> ((path@ == "/usr/bin/.su.unwrapped"@ || path@ == "/usr/bin/.sudo.unwrapped"@
            || path@ == "/usr/bin/.doas.unwrapped"@) && mode is Some && mode->0 & 0o6000u32
            == 0),
{
    proof {
        lemma_allowed_binaries(path@);
        if let Some(m) = mode {
            lemma_set_id_bits(m);
        }
    }
    let p = chars_of(path);
    let in_allowed = same_chars(&p, &chars_of("/usr/bin/.su.unwrapped")) || same_chars(
        &p,
        &chars_of("/usr/bin/.sudo.unwrapped"),
    ) || same_chars(&p, &chars_of("/usr/bin/.doas.unwrapped"));
    let m = match mode {
        Some(m) => m,
        None => {
            return false;
        },
    };
    let setugid = (m & MODE_SET_UID) != 0 || (m & MODE_SET_GID) != 0;
    in_allowed && !setugid
}

} // verus!
