//! The checks that the daemon makes on a request before it maps anything.
use std::str::FromStr;
use vstd::prelude::*;

use crate::connection::WrappaRequest;
use crate::idmap::MapFile;
use crate::policy::{
    admission, allowed_cap, allowed_cap_su, is_admitted, is_allowed_cap, is_allowed_cap_su, lemma_allowed_caps_are_four,
    AdmissionError,
};
use crate::text::{
    all_ascii, ascii_lower, ascii_upper, lemma_split_ascii, lemma_split_lower, lemma_trim_lower,
    lemma_upper_lower, chars_of, has_prefix, parse_u32, parse_u32_spec, slice_chars, split_chars, split_on,
    split_words, starts_with, string_from_chars, trim, trim_bounds, trim_chars, words,
};
use crate::{Gid, Pid, Uid};

verus! {

/// What the kernel reports of a process through its pidfd (`PIDFD_GET_INFO`).
#[derive(Debug, Clone, Copy, Default)]
pub struct PidFdInfo {
    pub request_mask: u64,
    pub cgroupid: u64,
    pub pid: u32,
    pub tgid: u32,
    pub ppid: u32,
    pub ruid: u32,
    pub rgid: u32,
    pub euid: u32,
    pub egid: u32,
    pub suid: u32,
    pub sgid: u32,
    pub fsuid: u32,
    pub fsgid: u32,
}

/// Why the child may not be mapped for the requester.
#[derive(Debug, Clone, Copy, PartialEq, Eq, Structural)]
pub enum OwnershipError {
    /// The child has no userspace parent.
    NoParent { child: Pid },
    /// The child's parent is not the requester.
    ForeignParent { child: Pid, parent: u32, requester: Pid },
    /// The child does not run as the requester's user and group.
    ForeignOwner { child: Pid, uid: Uid, gid: Gid, peer_uid: Uid, peer_gid: Gid },
    /// A non-root requester asked for another user id than its own.
    ForeignUid { peer_uid: Uid, requested_uid: Uid },
    /// A non-root requester asked for another group id than its own.
    ForeignGid { peer_gid: Gid, requested_gid: Gid },
}

/// The verdict on mapping the child `child_pid`, described by `info`, for the
/// requester `peer_pid` running as `peer_uid`/`peer_gid`: the child must be the
/// requester's own child, run as the requester, and a non-root requester may
/// only map its own ids.
pub open spec fn ownership(
    info: PidFdInfo,
    child_pid: Pid,
    peer_pid: Pid,
    peer_uid: Uid,
    peer_gid: Gid,
    requested_uid: Uid,
    requested_gid: Gid,
) -> Result<(), OwnershipError> {
    if info.ppid == 0 {
        Err(OwnershipError::NoParent { child: child_pid })
    } else if info.ppid != peer_pid as u32 {
        Err(
            OwnershipError::ForeignParent {
                child: child_pid,
                parent: info.ppid,
                requester: peer_pid,
            },
        )
    } else if info.ruid != peer_uid || info.rgid != peer_gid {
        Err(
            OwnershipError::ForeignOwner {
                child: child_pid,
                uid: info.ruid,
                gid: info.rgid,
                peer_uid,
                peer_gid,
            },
        )
    } else if peer_uid != 0 && requested_uid != peer_uid {
        Err(OwnershipError::ForeignUid { peer_uid, requested_uid })
    } else if peer_uid != 0 && requested_gid != peer_gid {
        Err(OwnershipError::ForeignGid { peer_gid, requested_gid })
    } else {
        Ok(())
    }
}

/// A child may be mapped exactly when it has a userspace parent that is the
/// requester, runs as the requester's user and group, and the requester is
/// root or asks for its own user and group ids.
pub proof fn lemma_ownership_ok_exactly(
    info: PidFdInfo,
    child_pid: Pid,
    peer_pid: Pid,
    peer_uid: Uid,
    peer_gid: Gid,
    requested_uid: Uid,
    requested_gid: Gid,
)
    ensures
        ownership(info, child_pid, peer_pid, peer_uid, peer_gid, requested_uid, requested_gid)
            is Ok <==> (info.ppid != 0 && info.ppid == peer_pid as u32 && info.ruid == peer_uid
            && info.rgid == peer_gid && (peer_uid == 0 || (requested_uid == peer_uid
            && requested_gid == peer_gid))),
{
}

/// Checks that the child `child_pid`, which the kernel describes as `info`,
/// may be mapped for the requester.
pub fn validate_child_ownership(
    info: &PidFdInfo,
    child_pid: Pid,
    peer_pid: Pid,
    peer_uid: Uid,
    peer_gid: Gid,
    requested_uid: Uid,
    requested_gid: Gid,
) -> (r: Result<(), OwnershipError>)
    ensures
        r == ownership(*info, child_pid, peer_pid, peer_uid, peer_gid, requested_uid, requested_gid),
        r is Ok ==> info.ppid != 0 && info.ppid == peer_pid as u32 && info.ruid == peer_uid
            && info.rgid == peer_gid,
        r is Ok && peer_uid != 0 ==> requested_uid == peer_uid && requested_gid == peer_gid,
        info.ppid != 0 && info.ppid == peer_pid as u32 && info.ruid == peer_uid && info.rgid
            == peer_gid && (peer_uid == 0 || (requested_uid == peer_uid && requested_gid
            == peer_gid)) ==> r is Ok,
{
    proof {
        lemma_ownership_ok_exactly(
            *info,
            child_pid,
            peer_pid,
            peer_uid,
            peer_gid,
            requested_uid,
            requested_gid,
        );
    }
    if info.ppid == 0 {
        return Err(OwnershipError::NoParent { child: child_pid });
    }
    if info.ppid != peer_pid as u32 {
        return Err(
            OwnershipError::ForeignParent { child: child_pid, parent: info.ppid, requester: peer_pid },
        );
    }
    if info.ruid != peer_uid || info.rgid != peer_gid {
        return Err(
            OwnershipError::ForeignOwner {
                child: child_pid,
                uid: info.ruid,
                gid: info.rgid,
                peer_uid,
                peer_gid,
            },
        );
    }
    if peer_uid != 0 {
        if requested_uid != peer_uid {
            return Err(OwnershipError::ForeignUid { peer_uid, requested_uid });
        }
        if requested_gid != peer_gid {
            return Err(OwnershipError::ForeignGid { peer_gid, requested_gid });
        }
    }
    Ok(())
}

/// A map of the child holds something already.
#[derive(Debug)]
pub struct AlreadyMapped {
    pub child: Pid,
    pub file: MapFile,
    /// What the map holds, trimmed.
    pub content: String,
}

/// Checks that the map `file` of `child`, which holds `content`, has not been
/// written yet: it holds nothing but whitespace.
pub fn verify_not_mapped(child: Pid, file: MapFile, content: &str) -> (r: Result<(), AlreadyMapped>)
    ensures
        r is Ok <==> trim(content@).len() == 0,
        r matches Err(e) ==> e.child == child && e.file == file && e.content@ == trim(content@),
{
    let c = chars_of(content);
    let t = trim_chars(&c);
    if t.len() != 0 {
        return Err(AlreadyMapped { child, file, content: string_from_chars(&t) });
    }
    Ok(())
}

/// The rest of the first line of `lines` that begins with `Groups:`.
pub open spec fn groups_field(lines: Seq<Seq<char>>) -> Option<Seq<char>>
    decreases lines.len(),
{
    if lines.len() == 0 {
        None
    } else if has_prefix(lines[0], "Groups:"@) {
        Some(lines[0].skip(7))
    } else {
        groups_field(lines.drop_first())
    }
}

/// The words of `ws` that read as `u32` numbers, as numbers, in order.
pub open spec fn numeric_words(ws: Seq<Seq<char>>) -> Seq<u32>
    decreases ws.len(),
{
    if ws.len() == 0 {
        seq![]
    } else {
        let p = numeric_words(ws.drop_last());
        match parse_u32_spec(ws.last()) {
            Some(x) => p.push(x),
            None => p,
        }
    }
}

/// The numbers of `ws` are those of its words that read as `u32`, each read as
/// a number, all of them and in order: each numeric word gives one number,
/// each number comes from a word, and there are as many numbers as numeric words.
pub proof fn lemma_numeric_words_every_number(ws: Seq<Seq<char>>)
    ensures
        numeric_words(ws) == ws.filter_map(|w: Seq<char>| parse_u32_spec(w)),
        numeric_words(ws).len() == ws.filter(|w: Seq<char>| parse_u32_spec(w) is Some).len(),
        forall|i: int|
            0 <= i < ws.len() && #[trigger] parse_u32_spec(ws[i]) is Some ==> numeric_words(
                ws,
            ).contains(parse_u32_spec(ws[i])->Some_0),
        forall|j: int|
            0 <= j < numeric_words(ws).len() ==> exists|i: int|
                0 <= i < ws.len() && parse_u32_spec(ws[i]) == Some(
                    #[trigger] numeric_words(ws)[j],
                ),
    decreases ws.len(),
{
    reveal(Seq::filter);
    if ws.len() > 0 {
        let init = ws.drop_last();
        lemma_numeric_words_every_number(init);
        let p = numeric_words(init);
        let n = numeric_words(ws);
        assert forall|i: int|
            0 <= i < ws.len() && #[trigger] parse_u32_spec(ws[i]) is Some implies n.contains(
                parse_u32_spec(ws[i])->Some_0,
            ) by {
            if i < ws.len() - 1 {
                assert(init[i] == ws[i]);
                assert(parse_u32_spec(init[i]) is Some);
                let x = parse_u32_spec(ws[i])->Some_0;
                let k = choose|k: int| 0 <= k < p.len() && p[k] == x;
                if let Some(y) = parse_u32_spec(ws.last()) {
                    assert(n[k] == x);
                } else {
                    assert(n[k] == x);
                }
            } else {
                let x = parse_u32_spec(ws[i])->Some_0;
                assert(n[n.len() - 1] == x);
            }
        }
        assert forall|j: int| 0 <= j < n.len() implies exists|i: int|
            0 <= i < ws.len() && parse_u32_spec(ws[i]) == Some(#[trigger] n[j]) by {
            if j < p.len() {
                assert(n[j] == p[j]);
                let i = choose|i: int| 0 <= i < init.len() && parse_u32_spec(init[i]) == Some(p[j]);
                assert(ws[i] == init[i]);
            } else {
                assert(parse_u32_spec(ws[ws.len() - 1]) == Some(n[j]));
            }
        }
        if let Some(x) = parse_u32_spec(ws.last()) {
            assert(n == p.push(x));
            assert(p + seq![x] =~= p.push(x));
        }
    }
}

/// The supplementary groups listed in a `/proc/<pid>/status` text: the numbers
/// on its first `Groups:` line, none where there is no such line. (A `\r`
/// before a line's end is whitespace, so it changes no group.)
pub open spec fn status_groups(status: Seq<char>) -> Seq<u32> {
    match groups_field(split_on(status, '\n')) {
        Some(rest) => numeric_words(words(rest)),
        None => seq![],
    }
}

/// The groups of a `status` text with a `Groups:` line are every number on the
/// first such line, in order: each word there that reads as a `u32` gives its
/// number, and each group comes from such a word.
pub proof fn lemma_status_groups_every_number(status: Seq<char>)
    ensures
        groups_field(split_on(status, '\n')) matches Some(rest) ==> {
            let ws = words(rest);
            &&& status_groups(status) == ws.filter_map(|w: Seq<char>| parse_u32_spec(w))
            &&& status_groups(status).len() == ws.filter(
                |w: Seq<char>| parse_u32_spec(w) is Some,
            ).len()
            &&& forall|i: int|
                0 <= i < ws.len() && #[trigger] parse_u32_spec(ws[i]) is Some ==> status_groups(
                    status,
                ).contains(parse_u32_spec(ws[i])->Some_0)
            &&& forall|j: int|
                0 <= j < status_groups(status).len() ==> exists|i: int|
                    0 <= i < ws.len() && parse_u32_spec(ws[i]) == Some(
                        #[trigger] status_groups(status)[j],
                    )
        },
        groups_field(split_on(status, '\n')) is None ==> status_groups(status).len() == 0,
{
    if let Some(rest) = groups_field(split_on(status, '\n')) {
        lemma_numeric_words_every_number(words(rest));
    }
}

/// The requester's groups as found in the text of its `status` file, read up
/// to where reading failed with `read_error`, if it did: the numbers on the
/// first `Groups:` line where the text holds one; else the read error; else none.
pub open spec fn groups_from_status(status: Seq<char>, read_error: Option<String>) -> Result<
    Seq<u32>,
    String,
> {
    match groups_field(split_on(status, '\n')) {
        Some(rest) => Ok(numeric_words(words(rest))),
        None => match read_error {
            Some(e) => Err(e),
            None => Ok(seq![]),
        },
    }
}

/// The supplementary groups of a process, from the text of its `status` file:
/// `status` holds the lines read before reading failed with `read_error`, or
/// the whole file where `read_error` is `None`.
pub fn read_peer_groups(status: &str, read_error: Option<String>) -> (r: Result<Vec<Gid>, String>)
    ensures
        match r {
            Ok(g) => groups_from_status(status@, read_error) == Ok::<Seq<u32>, String>(g@)
                && g@ == status_groups(status@),
            Err(e) => groups_from_status(status@, read_error) == Err::<Seq<u32>, String>(e),
        },
        r matches Ok(g) ==> (groups_field(split_on(status@, '\n')) matches Some(rest) ==> g@
            == words(rest).filter_map(|w: Seq<char>| parse_u32_spec(w))),
        groups_field(split_on(status@, '\n')) is Some ==> r is Ok,
{
    proof {
        lemma_status_groups_every_number(status@);
    }
    let text = chars_of(status);
    let lines = split_chars(&text, '\n');
    let ghost lv = lines@.map_values(|w: Vec<char>| w@);
    let prefix = chars_of("Groups:");
    proof {
        reveal_strlit("Groups:");
    }
    let mut i: usize = 0;
    assert(lv.skip(0) =~= lv);
    while i < lines.len()
        invariant
            i <= lines.len(),
            lv == lines@.map_values(|w: Vec<char>| w@),
            lv == split_on(text@, '\n'),
            text@ == status@,
            prefix@ == "Groups:"@,
            prefix@.len() == 7,
            groups_field(lv) == groups_field(lv.skip(i as int)),
        decreases lines.len() - i,
    {
        assert(lv.skip(i as int)[0] == lines@[i as int]@);
        if starts_with(&lines[i], &prefix) {
            let line = &lines[i];
            let rest = slice_chars(line, 7, line.len());
            assert(rest@ =~= line@.skip(7));
            let ws = split_words(&rest);
            let mut out: Vec<Gid> = Vec::new();
            let mut k: usize = 0;
            let ghost wv = ws@.map_values(|w: Vec<char>| w@);
            assert(wv.take(0) =~= Seq::<Seq<char>>::empty());
            while k < ws.len()
                invariant
                    k <= ws.len(),
                    wv == ws@.map_values(|w: Vec<char>| w@),
                    out@ == numeric_words(wv.take(k as int)),
                decreases ws.len() - k,
            {
                assert(wv.take(k + 1).drop_last() =~= wv.take(k as int));
                assert(wv.take(k + 1).last() == ws@[k as int]@);
                match parse_u32(&ws[k]) {
                    Some(x) => out.push(x),
                    None => {},
                }
                k = k + 1;
            }
            assert(wv.take(ws.len() as int) =~= wv);
            proof {
                lemma_numeric_words_every_number(wv);
            }
            return Ok(out);
        }
        assert(lv.skip(i as int).drop_first() =~= lv.skip(i + 1));
        i = i + 1;
    }
    assert(lv.skip(lines.len() as int) =~= Seq::<Seq<char>>::empty());
    match read_error {
        Some(e) => Err(e),
        None => Ok(Vec::new()),
    }
}

/// The child is still in the user namespace of `init`.
#[derive(Debug)]
pub struct SameNamespace {
    pub child: Pid,
    /// The namespace link of the child.
    pub namespace: Vec<u8>,
}

/// Checks that the child has a user namespace of its own: its namespace link
/// `child_ns` differs from `init_ns`, that of process 1.
pub fn verify_in_userns(child: Pid, child_ns: &[u8], init_ns: &[u8]) -> (r: Result<(), SameNamespace>)
    ensures
        r is Ok <==> child_ns@ != init_ns@,
        r matches Err(e) ==> e.child == child && e.namespace@ == child_ns@,
{
    let mut same = child_ns.len() == init_ns.len();
    if same {
        let mut i: usize = 0;
        while i < child_ns.len()
            invariant
                i <= child_ns.len() == init_ns.len(),
                same == (forall|k: int| 0 <= k < i ==> child_ns@[k] == init_ns@[k]),
            decreases child_ns.len() - i,
        {
            same = same && child_ns[i] == init_ns[i];
            i = i + 1;
        }
        if same {
            assert(child_ns@ =~= init_ns@);
        }
    }
    if same {
        let mut v: Vec<u8> = Vec::new();
        let mut i: usize = 0;
        while i < child_ns.len()
            invariant
                i <= child_ns.len(),
                v@ == child_ns@.take(i as int),
            decreases child_ns.len() - i,
        {
            v.push(child_ns[i]);
            assert(child_ns@.take(i + 1) =~= child_ns@.take(i as int).push(child_ns@[i as int]));
            i = i + 1;
        }
        assert(child_ns@.take(child_ns.len() as int) =~= child_ns@);
        return Err(SameNamespace { child, namespace: v });
    }
    Ok(())
}

/// The Unicode upper case of `s`, as `str::to_uppercase` computes it.
pub uninterp spec fn uppercase(s: Seq<char>) -> Seq<char>;

/// Calls `str::to_uppercase`. Claimed: the result is `uppercase` of the
/// argument, a function of the text alone (std's mapping is not locale
/// dependent); on ASCII text it upper-cases the letters `a` to `z` and keeps
/// every other character, as Unicode's case mapping does for ASCII.
#[verifier::external_body]
fn to_uppercase(s: &str) -> (r: String)
    ensures
        r@ == uppercase(s@),
        all_ascii(s@) ==> r@ == ascii_upper(s@),
{
    s.to_uppercase()
}

/// The kernel number of the capability that `caps` calls `name`, if any.
pub uninterp spec fn capability_named(name: Seq<char>) -> Option<u8>;

/// Calls `<caps::Capability as FromStr>::from_str` and takes the capability's
/// kernel number (`Capability::index`). Claimed: the result is
/// `capability_named` of the name, a function of the name alone (the source is
/// a fixed table of names).
#[verifier::external_body]
fn capability_from_name(name: &str) -> (r: Option<u8>)
    ensures
        r == capability_named(name@),
{
    match caps::Capability::from_str(name) {
        Ok(c) => Some(c.index()),
        Err(_) => None,
    }
}

/// Calls `caps::all` and takes each capability's kernel number. Claimed, as the
/// source shows: the capabilities are those numbered 0 to 40, each once. The
/// order is that of a `HashSet` walk and is left open.
#[verifier::external_body]
fn all_capabilities() -> (r: Vec<u8>)
    ensures
        r@.no_duplicates(),
        forall|c: u8| r@.contains(c) <==> c <= 40,
{
    let mut v: Vec<u8> = Vec::new();
    for c in caps::all() {
        v.push(c.index());
    }
    v
}

/// The name of the capability asked for as `piece`: trimmed, upper-cased, with
/// `CAP_` put in front where it does not begin with it.
pub open spec fn canonical_name(piece: Seq<char>) -> Seq<char> {
    cap_prefixed(uppercase(trim(piece)))
}

/// An upper-case capability name with `CAP_` put in front where it does not
/// begin with it.
pub open spec fn cap_prefixed(upper: Seq<char>) -> Seq<char> {
    if has_prefix(upper, "CAP_"@) {
        upper
    } else {
        "CAP_"@ + upper
    }
}

/// The capabilities that `names` name, in order; or the first name that names none.
pub open spec fn lookup_names(names: Seq<Seq<char>>) -> Result<Seq<u8>, Seq<char>>
    decreases names.len(),
{
    if names.len() == 0 {
        Ok(seq![])
    } else {
        match lookup_names(names.drop_last()) {
            Err(n) => Err(n),
            Ok(cs) => match capability_named(names.last()) {
                Some(c) => Ok(cs.push(c)),
                None => Err(names.last()),
            },
        }
    }
}

/// The capabilities named by `pieces`, in order; or the first name that names none.
pub open spec fn named_capabilities(pieces: Seq<Seq<char>>) -> Result<Seq<u8>, Seq<char>> {
    lookup_names(pieces.map_values(|p: Seq<char>| canonical_name(p)))
}

/// The name of the capability asked for as `piece`, upper-casing only ASCII
/// letters; for ASCII text it is [`canonical_name`].
pub open spec fn canonical_name_ascii(piece: Seq<char>) -> Seq<char> {
    cap_prefixed(ascii_upper(trim(piece)))
}

/// What [`caps_requested`] gives for ASCII text.
pub open spec fn caps_requested_ascii(s: Seq<char>) -> Result<Seq<u8>, Seq<char>> {
    if trim(s).len() == 0 {
        Ok(seq![])
    } else {
        lookup_names(split_on(s, ',').map_values(|p: Seq<char>| canonical_name_ascii(p)))
    }
}

/// The capabilities that the comma-separated list `s` asks for; none where `s`
/// is blank; or the first name that names no capability.
pub open spec fn caps_requested(s: Seq<char>) -> Result<Seq<u8>, Seq<char>> {
    if trim(s).len() == 0 {
        Ok(seq![])
    } else {
        named_capabilities(split_on(s, ','))
    }
}

/// A name in a capability list that names no capability.
#[derive(Debug, Clone)]
pub struct UnknownCapability {
    /// The name, as it was looked up (upper case, with `CAP_`).
    pub name: String,
}

/// The result of [`parse_caps`] on `s`, taken to values.
pub open spec fn parse_caps_fits(s: Seq<char>, r: Result<Vec<u8>, UnknownCapability>) -> bool {
    match r {
        Ok(v) => caps_requested(s) == Ok::<Seq<u8>, Seq<char>>(v@),
        Err(e) => caps_requested(s) == Err::<Seq<u8>, Seq<char>>(e.name@),
    }
}

/// The name of the capability asked for as the upper-case text `upper`:
/// `CAP_` is put in front where it does not begin with it.
pub fn capability_name_of(upper: &str) -> (name: String)
    ensures
        name@ == cap_prefixed(upper@),
{
    let uv = chars_of(upper);
    let prefix = chars_of("CAP_");
    if starts_with(&uv, &prefix) {
        return string_from_chars(&uv);
    }
    let mut v = prefix;
    let mut i: usize = 0;
    let ghost start = v@;
    while i < uv.len()
        invariant
            i <= uv.len(),
            v@ == start + uv@.take(i as int),
        decreases uv.len() - i,
    {
        v.push(uv[i]);
        assert(uv@.take(i + 1) =~= uv@.take(i as int).push(uv@[i as int]));
        i = i + 1;
    }
    assert(uv@.take(uv.len() as int) =~= uv@);
    string_from_chars(&v)
}

fn lookup_piece(piece: &Vec<char>) -> (r: Result<u8, UnknownCapability>)
    ensures
        match capability_named(canonical_name(piece@)) {
            Some(c) => r == Ok::<u8, UnknownCapability>(c),
            None => r matches Err(e) && e.name@ == canonical_name(piece@),
        },
        all_ascii(piece@) ==> canonical_name(piece@) == canonical_name_ascii(piece@),
{
    let (lo, hi) = trim_bounds(piece);
    let trimmed = string_from_chars(&slice_chars(piece, lo, hi));
    proof {
        if all_ascii(piece@) {
            let t = piece@.subrange(lo as int, hi as int);
            assert forall|i: int| 0 <= i < t.len() implies ((#[trigger] t[i]) as u32) < 128 by {
                assert(t[i] == piece@[lo + i]);
            }
        }
    }
    let upper = to_uppercase(trimmed.as_str());
    let name = capability_name_of(upper.as_str());
    match capability_from_name(name.as_str()) {
        Some(c) => Ok(c),
        None => Err(UnknownCapability { name }),
    }
}

/// The capabilities that the comma-separated list `s` asks for, by their kernel
/// numbers. Names are taken without regard to case and with or without `CAP_`;
/// a blank list asks for none.
pub fn parse_caps(s: &str) -> (r: Result<Vec<u8>, UnknownCapability>)
    ensures
        parse_caps_fits(s@, r),
        all_ascii(s@) ==> caps_requested(s@) == caps_requested_ascii(s@),
{
    let text = chars_of(s);
    let (a, b) = trim_bounds(&text);
    if a == b {
        return Ok(Vec::new());
    }
    let pieces = split_chars(&text, ',');
    let ghost pv = pieces@.map_values(|w: Vec<char>| w@);
    let ghost gv = pv.map_values(|p: Seq<char>| canonical_name(p));
    let ghost av = pv.map_values(|p: Seq<char>| canonical_name_ascii(p));
    proof {
        if all_ascii(s@) {
            lemma_split_ascii(s@, ',');
        }
    }
    let mut out: Vec<u8> = Vec::new();
    let mut i: usize = 0;
    assert(gv.take(0) =~= Seq::<Seq<char>>::empty());
    while i < pieces.len()
        invariant
            i <= pieces.len(),
            pv == pieces@.map_values(|w: Vec<char>| w@),
            pv == split_on(s@, ','),
            gv == pv.map_values(|p: Seq<char>| canonical_name(p)),
            av == pv.map_values(|p: Seq<char>| canonical_name_ascii(p)),
            trim(s@).len() > 0,
            lookup_names(gv.take(i as int)) == Ok::<Seq<u8>, Seq<char>>(out@),
            all_ascii(s@) ==> forall|k: int| 0 <= k < pv.len() ==> all_ascii(#[trigger] pv[k]),
            all_ascii(s@) ==> gv.take(i as int) == av.take(i as int),
        decreases pieces.len() - i,
    {
        assert(gv.take(i + 1).drop_last() =~= gv.take(i as int));
        assert(gv.take(i + 1).last() == canonical_name(pieces@[i as int]@));
        assert(pv[i as int] == pieces@[i as int]@);
        let r = lookup_piece(&pieces[i]);
        proof {
            if all_ascii(s@) {
                assert(all_ascii(pv[i as int]));
                assert(gv.take(i + 1) =~= av.take(i + 1));
            }
        }
        match r {
            Ok(c) => out.push(c),
            Err(e) => {
                proof {
                    lemma_lookup_names_extend(gv, i + 1);
                    if all_ascii(s@) {
                        lemma_lookup_names_extend(av, i + 1);
                    }
                }
                return Err(e);
            },
        }
        i = i + 1;
    }
    assert(gv.take(pieces.len() as int) =~= gv);
    assert(av.take(pieces.len() as int) =~= av);
    Ok(out)
}

proof fn lemma_lookup_names_extend(names: Seq<Seq<char>>, j: int)
    requires
        0 <= j <= names.len(),
        lookup_names(names.take(j)) is Err,
    ensures
        lookup_names(names) == lookup_names(names.take(j)),
    decreases names.len() - j,
{
    if j < names.len() {
        assert(names.take(j + 1).drop_last() =~= names.take(j));
        lemma_lookup_names_extend(names, j + 1);
    } else {
        assert(names.take(j) =~= names);
    }
}

/// Capability names are taken without regard to ASCII case: an ASCII list asks
/// for the same capabilities, or fails on the same name, with its letters in
/// lower case.
pub proof fn lemma_caps_ascii_case(s: Seq<char>)
    requires
        all_ascii(s),
    ensures
        caps_requested_ascii(ascii_lower(s)) == caps_requested_ascii(s),
{
    let l = ascii_lower(s);
    lemma_trim_lower(s);
    assert(trim(l).len() == trim(s).len());
    if trim(s).len() != 0 {
        lemma_split_lower(s);
        let ps = split_on(s, ',');
        let ls = split_on(l, ',');
        assert forall|i: int| 0 <= i < ps.len() implies canonical_name_ascii(#[trigger] ls[i])
            == canonical_name_ascii(ps[i]) by {
            assert(ls[i] == ascii_lower(ps[i]));
            lemma_trim_lower(ps[i]);
            lemma_upper_lower(trim(ps[i]));
        }
        let a = ls.map_values(|p: Seq<char>| canonical_name_ascii(p));
        let b = ps.map_values(|p: Seq<char>| canonical_name_ascii(p));
        assert(a =~= b);
    }
}

/// A capability set of the calling thread.
#[derive(Debug, Clone, Copy, PartialEq, Eq, Structural)]
pub enum CapSet {
    Effective,
    Inheritable,
    Permitted,
}

/// A change to make to the calling thread's capabilities.
#[derive(Debug, Clone, Copy, PartialEq, Eq, Structural)]
pub enum CapChange {
    Raise(CapSet, u8),
    Drop(CapSet, u8),
}

/// The capabilities of `all` that are not `wanted`, dropped from the permitted set.
pub open spec fn permitted_changes(wanted: Seq<u8>, all: Seq<u8>) -> Seq<CapChange>
    decreases all.len(),
{
    if all.len() == 0 {
        seq![]
    } else {
        let p = permitted_changes(wanted, all.drop_last());
        let c = all.last();
        if wanted.contains(c) {
            p
        } else {
            p.push(CapChange::Drop(CapSet::Permitted, c))
        }
    }
}

/// Each capability of `all` raised in the effective and inheritable sets where
/// it is `wanted`, dropped from them where it is not.
pub open spec fn working_changes(wanted: Seq<u8>, all: Seq<u8>) -> Seq<CapChange>
    decreases all.len(),
{
    if all.len() == 0 {
        seq![]
    } else {
        let p = working_changes(wanted, all.drop_last());
        let c = all.last();
        if wanted.contains(c) {
            p + seq![CapChange::Raise(CapSet::Effective, c), CapChange::Raise(CapSet::Inheritable, c)]
        } else {
            p + seq![CapChange::Drop(CapSet::Effective, c), CapChange::Drop(CapSet::Inheritable, c)]
        }
    }
}

/// The changes that leave the thread with the `wanted` capabilities out of
/// `all`: first the permitted set, then the effective and inheritable sets,
/// each pass in the order of `all`.
pub open spec fn capability_plan_spec(wanted: Seq<u8>, all: Seq<u8>) -> Seq<CapChange> {
    permitted_changes(wanted, all) + working_changes(wanted, all)
}

/// Whether `x` occurs in `s`.
pub fn holds_u8(s: &[u8], x: u8) -> (b: bool)
    ensures
        b == s@.contains(x),
{
    let mut i: usize = 0;
    while i < s.len()
        invariant
            i <= s.len(),
            forall|k: int| 0 <= k < i ==> s@[k] != x,
        decreases s.len() - i,
    {
        if s[i] == x {
            assert(s@[i as int] == x);
            return true;
        }
        i = i + 1;
    }
    false
}

/// The changes that give the thread the `wanted` capabilities out of `all`.
pub fn capability_plan(wanted: &[u8], all: &[u8]) -> (plan: Vec<CapChange>)
    ensures
        plan@ == capability_plan_spec(wanted@, all@),
{
    let mut plan: Vec<CapChange> = Vec::new();
    let mut i: usize = 0;
    assert(all@.take(0) =~= Seq::<u8>::empty());
    while i < all.len()
        invariant
            i <= all.len(),
            plan@ == permitted_changes(wanted@, all@.take(i as int)),
        decreases all.len() - i,
    {
        let c = all[i];
        assert(all@.take(i + 1).drop_last() =~= all@.take(i as int));
        assert(all@.take(i + 1).last() == c);
        if !holds_u8(wanted, c) {
            plan.push(CapChange::Drop(CapSet::Permitted, c));
        }
        i = i + 1;
    }
    assert(all@.take(all.len() as int) =~= all@);
    let ghost first = plan@;
    let mut j: usize = 0;
    assert(all@.take(0) =~= Seq::<u8>::empty());
    assert(first + working_changes(wanted@, all@.take(0)) =~= first);
    while j < all.len()
        invariant
            j <= all.len(),
            first == permitted_changes(wanted@, all@),
            plan@ == first + working_changes(wanted@, all@.take(j as int)),
        decreases all.len() - j,
    {
        let c = all[j];
        assert(all@.take(j + 1).drop_last() =~= all@.take(j as int));
        assert(all@.take(j + 1).last() == c);
        let ghost before = plan@;
        if holds_u8(wanted, c) {
            plan.push(CapChange::Raise(CapSet::Effective, c));
            plan.push(CapChange::Raise(CapSet::Inheritable, c));
        } else {
            plan.push(CapChange::Drop(CapSet::Effective, c));
            plan.push(CapChange::Drop(CapSet::Inheritable, c));
        }
        assert(plan@ =~= first + working_changes(wanted@, all@.take(j + 1)));
        j = j + 1;
    }
    assert(all@.take(all.len() as int) =~= all@);
    plan
}

/// The changes that give the thread the capabilities that `request` asks for
/// and take away all others that `caps` knows of; or the first unknown name.
/// The changes are those of [`capability_plan`] for some order of the
/// capabilities numbered 0 to 40, each once.
pub fn set_capabilities(request: &WrappaRequest) -> (r: Result<Vec<CapChange>, UnknownCapability>)
    ensures
        match r {
            Ok(plan) => exists|wanted: Seq<u8>, all: Seq<u8>|
                {
                    &&& caps_requested(request.requested_capabilities@) == Ok::<
                        Seq<u8>,
                        Seq<char>,
                    >(wanted)
                    &&& all.no_duplicates()
                    &&& forall|c: u8| all.contains(c) <==> c <= 40
                    &&& plan@ == capability_plan_spec(wanted, all)
                },
            Err(e) => caps_requested(request.requested_capabilities@) == Err::<Seq<u8>, Seq<char>>(
                e.name@,
            ),
        },
{
    let wanted = parse_caps(request.requested_capabilities.as_str())?;
    let all = all_capabilities();
    let plan = capability_plan(&wanted, &all);
    assert(caps_requested(request.requested_capabilities@) == Ok::<Seq<u8>, Seq<char>>(wanted@));
    Ok(plan)
}

/// Setting the capabilities leaves each capability that `caps` knows of
/// raised in the effective and inheritable sets and never dropped where it is
/// wanted, and dropped from the permitted, effective and inheritable sets and
/// never raised where it is not.
pub proof fn lemma_plan_grants_exactly(wanted: Seq<u8>, all: Seq<u8>, c: u8)
    requires
        all.contains(c),
    ensures
        wanted.contains(c) ==> {
            &&& capability_plan_spec(wanted, all).contains(CapChange::Raise(CapSet::Effective, c))
            &&& capability_plan_spec(wanted, all).contains(CapChange::Raise(CapSet::Inheritable, c))
            &&& forall|s: CapSet| !capability_plan_spec(wanted, all).contains(CapChange::Drop(s, c))
        },
        !wanted.contains(c) ==> {
            &&& capability_plan_spec(wanted, all).contains(CapChange::Drop(CapSet::Permitted, c))
            &&& capability_plan_spec(wanted, all).contains(CapChange::Drop(CapSet::Effective, c))
            &&& capability_plan_spec(wanted, all).contains(CapChange::Drop(CapSet::Inheritable, c))
            &&& forall|s: CapSet| !capability_plan_spec(wanted, all).contains(CapChange::Raise(s, c))
        },
{
    lemma_plan_members(wanted, all);
    let p = permitted_changes(wanted, all);
    let w = working_changes(wanted, all);
    assert forall|x: CapChange| (p + w).contains(x) <==> (p.contains(x) || w.contains(x)) by {
        if (p + w).contains(x) {
            let k = choose|k: int| 0 <= k < (p + w).len() && (p + w)[k] == x;
            if k < p.len() {
                assert(p[k] == x);
            } else {
                assert(w[k - p.len()] == x);
            }
        }
        if p.contains(x) {
            let k = choose|k: int| 0 <= k < p.len() && p[k] == x;
            assert((p + w)[k] == x);
        }
        if w.contains(x) {
            let k = choose|k: int| 0 <= k < w.len() && w[k] == x;
            assert((p + w)[k + p.len()] == x);
        }
    }
    assert(capability_plan_spec(wanted, all) == p + w);
    let e = CapChange::Raise(CapSet::Effective, c);
    let i = CapChange::Raise(CapSet::Inheritable, c);
    let dp = CapChange::Drop(CapSet::Permitted, c);
    let de = CapChange::Drop(CapSet::Effective, c);
    let di = CapChange::Drop(CapSet::Inheritable, c);
    assert(p.contains(e) == false && p.contains(i) == false);
    assert(w.contains(e) == (all.contains(c) && wanted.contains(c)));
    assert(w.contains(i) == (all.contains(c) && wanted.contains(c)));
    assert(w.contains(de) == (all.contains(c) && !wanted.contains(c)));
    assert(w.contains(di) == (all.contains(c) && !wanted.contains(c)));
    assert(p.contains(dp) == (all.contains(c) && !wanted.contains(c)));
    assert forall|st: CapSet| wanted.contains(c) implies !(p + w).contains(CapChange::Drop(st, c)) by {
        assert(!p.contains(CapChange::Drop(st, c)));
        assert(!w.contains(CapChange::Drop(st, c)));
    }
    assert forall|st: CapSet| !wanted.contains(c) implies !(p + w).contains(CapChange::Raise(st, c)) by {
        assert(!p.contains(CapChange::Raise(st, c)));
        assert(!w.contains(CapChange::Raise(st, c)));
    }
}

proof fn lemma_seq_contains_push<T>(s: Seq<T>, y: T, x: T)
    ensures
        s.push(y).contains(x) <==> (s.contains(x) || x == y),
{
    if s.push(y).contains(x) {
        let k = choose|k: int| 0 <= k < s.push(y).len() && s.push(y)[k] == x;
        if k < s.len() {
            assert(s[k] == x);
        }
    }
    if s.contains(x) {
        let k = choose|k: int| 0 <= k < s.len() && s[k] == x;
        assert(s.push(y)[k] == x);
    }
    if x == y {
        assert(s.push(y)[s.len() as int] == x);
    }
}

proof fn lemma_plan_members(wanted: Seq<u8>, all: Seq<u8>)
    ensures
        forall|x: CapChange|
            #[trigger] permitted_changes(wanted, all).contains(x) <==> match x {
                CapChange::Drop(CapSet::Permitted, c) => all.contains(c) && !wanted.contains(c),
                _ => false,
            },
        forall|x: CapChange|
            #[trigger] working_changes(wanted, all).contains(x) <==> match x {
                CapChange::Raise(CapSet::Permitted, _) => false,
                CapChange::Drop(CapSet::Permitted, _) => false,
                CapChange::Raise(_, c) => all.contains(c) && wanted.contains(c),
                CapChange::Drop(_, c) => all.contains(c) && !wanted.contains(c),
            },
    decreases all.len(),
{
    if all.len() > 0 {
        let a = all.drop_last();
        let c = all.last();
        lemma_plan_members(wanted, a);
        assert forall|d: u8| all.contains(d) <==> (a.contains(d) || d == c) by {
            assert(all =~= a.push(c));
            lemma_seq_contains_push(a, c, d);
        }
        let p = permitted_changes(wanted, a);
        assert forall|x: CapChange| #[trigger] permitted_changes(wanted, all).contains(x) <==> match x {
            CapChange::Drop(CapSet::Permitted, d) => all.contains(d) && !wanted.contains(d),
            _ => false,
        } by {
            if !wanted.contains(c) {
                lemma_seq_contains_push(p, CapChange::Drop(CapSet::Permitted, c), x);
            }
        }
        let w = working_changes(wanted, a);
        let (e, i) = if wanted.contains(c) {
            (CapChange::Raise(CapSet::Effective, c), CapChange::Raise(CapSet::Inheritable, c))
        } else {
            (CapChange::Drop(CapSet::Effective, c), CapChange::Drop(CapSet::Inheritable, c))
        };
        assert(w + seq![e, i] =~= w.push(e).push(i));
        assert forall|x: CapChange| #[trigger] working_changes(wanted, all).contains(x) <==> match x {
            CapChange::Raise(CapSet::Permitted, _) => false,
            CapChange::Drop(CapSet::Permitted, _) => false,
            CapChange::Raise(_, d) => all.contains(d) && wanted.contains(d),
            CapChange::Drop(_, d) => all.contains(d) && !wanted.contains(d),
        } by {
            lemma_seq_contains_push(w, e, x);
            lemma_seq_contains_push(w.push(e), i, x);
        }
    } else {
        assert forall|d: u8| !all.contains(d) by {}
    }
}

/// Why a request is refused by the policy.
#[derive(Debug)]
pub enum PolicyError {
    /// The requester may not use the daemon.
    Admission(AdmissionError),
    /// The capability list names an unknown capability.
    UnknownCapability(UnknownCapability),
    /// The requester may not ask for this capability.
    NotPermitted { cap: u8 },
}

/// The first of `cs` that the requester may not ask for.
pub open spec fn first_forbidden(cs: Seq<u8>, needs_setgroups: bool) -> Option<u8>
    decreases cs.len(),
{
    if cs.len() == 0 {
        None
    } else if !(if needs_setgroups {
        allowed_cap_su(cs[0])
    } else {
        allowed_cap(cs[0])
    }) {
        Some(cs[0])
    } else {
        first_forbidden(cs.drop_first(), needs_setgroups)
    }
}

/// The first of `caps` that a non-root requester may not ask for; the set of
/// allowed ones depends on whether the child needs `setgroups(2)`.
pub fn forbidden_capability(caps: &[u8], needs_setgroups: bool) -> (r: Option<u8>)
    ensures
        r == first_forbidden(caps@, needs_setgroups),
        r is None ==> forall|i: int|
            0 <= i < caps@.len() ==> if needs_setgroups {
                allowed_cap_su(#[trigger] caps@[i])
            } else {
                allowed_cap(caps@[i])
            },
{
    let ghost cs = caps@;
    let mut i: usize = 0;
    assert(cs.skip(0) =~= cs);
    while i < caps.len()
        invariant
            i <= caps.len(),
            cs == caps@,
            first_forbidden(cs, needs_setgroups) == first_forbidden(cs.skip(i as int), needs_setgroups),
            forall|k: int|
                0 <= k < i ==> if needs_setgroups {
                    allowed_cap_su(#[trigger] cs[k])
                } else {
                    allowed_cap(cs[k])
                },
        decreases caps.len() - i,
    {
        let cap = caps[i];
        assert(cs.skip(i as int)[0] == cap);
        assert(cs.skip(i as int).drop_first() =~= cs.skip(i + 1));
        let ok = if needs_setgroups {
            is_allowed_cap_su(cap)
        } else {
            is_allowed_cap(cap)
        };
        if !ok {
            return Some(cap);
        }
        i = i + 1;
    }
    assert(cs.skip(caps.len() as int) =~= Seq::<u8>::empty());
    None
}

/// The policy's verdict on `request` from the user `peer_uid`, member of
/// `peer_groups`, given the administrator group's id and the allowed users'
/// ids. Root passes whatever it asks; anyone else must be admitted and ask only
/// for known capabilities that it may have.
pub open spec fn policy_verdict(
    peer_uid: Uid,
    peer_groups: Seq<Gid>,
    request: WrappaRequest,
    admin_gid: Option<Gid>,
    allowed_uids: Seq<Uid>,
    r: Result<(), PolicyError>,
) -> bool {
    match admission(peer_uid, peer_groups, admin_gid, allowed_uids) {
        Err(e) => r matches Err(PolicyError::Admission(e2)) && e2 == e,
        Ok(()) => if peer_uid == 0 {
            r is Ok
        } else {
            match caps_requested(request.requested_capabilities@) {
                Err(n) => r matches Err(PolicyError::UnknownCapability(u)) && u.name@ == n,
                Ok(cs) => match first_forbidden(cs, request.needs_setgroups) {
                    Some(c) => r matches Err(PolicyError::NotPermitted { cap }) && cap == c,
                    None => r is Ok,
                },
            }
        },
    }
}

/// Checks `request` from the user `peer_uid`, member of `peer_groups`, against
/// the policy; `admin_gid` is the administrator group's id where it exists and
/// `allowed_uids` the ids of the allowed users that exist.
pub fn check_policy(
    peer_uid: Uid,
    peer_groups: &[Gid],
    request: &WrappaRequest,
    admin_gid: Option<Gid>,
    allowed_uids: &[Uid],
) -> (r: Result<(), PolicyError>)
    ensures
        policy_verdict(peer_uid, peer_groups@, *request, admin_gid, allowed_uids@, r),
        peer_uid == 0 ==> r is Ok,
        r is Ok && peer_uid != 0 ==> {
            &&& admission(peer_uid, peer_groups@, admin_gid, allowed_uids@) is Ok
            &&& caps_requested(request.requested_capabilities@) matches Ok(cs)
            &&& forall|i: int|
                0 <= i < cs.len() ==> if request.needs_setgroups {
                    allowed_cap_su(#[trigger] cs[i])
                } else {
                    allowed_cap(cs[i])
                }
        },
        peer_uid != 0 && admission(peer_uid, peer_groups@, admin_gid, allowed_uids@) is Ok ==> (
        r is Ok <==> (caps_requested(request.requested_capabilities@) matches Ok(cs) && forall|
            i: int|
            0 <= i < cs.len() ==> (#[trigger] cs[i] == 2 || cs[i] == 6 || cs[i] == 7 || cs[i]
                == 8))),
        r matches Err(PolicyError::NotPermitted { cap }) ==> (caps_requested(
            request.requested_capabilities@,
        ) matches Ok(cs) && cs.contains(cap) && !(cap == 2 || cap == 6 || cap == 7 || cap == 8)),
{
    let r = match is_admitted(peer_uid, peer_groups, admin_gid, allowed_uids) {
        Err(e) => Err(PolicyError::Admission(e)),
        Ok(()) => if peer_uid != 0 {
            match parse_caps(request.requested_capabilities.as_str()) {
                Err(e) => Err(PolicyError::UnknownCapability(e)),
                Ok(requested) => match forbidden_capability(
                    requested.as_slice(),
                    request.needs_setgroups,
                ) {
                    Some(cap) => Err(PolicyError::NotPermitted { cap }),
                    None => Ok(()),
                },
            }
        } else {
            Ok(())
        },
    };
    proof {
        lemma_policy_admits_four_caps(
            peer_uid,
            peer_groups@,
            *request,
            admin_gid,
            allowed_uids@,
            r,
        );
    }
    r
}

/// None of `cs` is forbidden exactly when each of them is one of the four
/// capabilities that a non-root requester may ask for.
pub proof fn lemma_first_forbidden_four(cs: Seq<u8>, needs_setgroups: bool)
    ensures
        first_forbidden(cs, needs_setgroups) is None <==> forall|i: int|
            0 <= i < cs.len() ==> (#[trigger] cs[i] == 2 || cs[i] == 6 || cs[i] == 7 || cs[i]
                == 8),
        first_forbidden(cs, needs_setgroups) matches Some(c) ==> cs.contains(c) && !(c == 2
            || c == 6 || c == 7 || c == 8),
    decreases cs.len(),
{
    if cs.len() > 0 {
        lemma_first_forbidden_four(cs.drop_first(), needs_setgroups);
        lemma_allowed_caps_are_four(cs[0]);
        assert forall|i: int| 0 < i < cs.len() implies #[trigger] cs[i] == cs.drop_first()[i
            - 1] by {}
        if first_forbidden(cs, needs_setgroups) is None {
            assert forall|i: int| 0 <= i < cs.len() implies (#[trigger] cs[i] == 2 || cs[i] == 6
                || cs[i] == 7 || cs[i] == 8) by {
                if i > 0 {
                    assert(cs[i] == cs.drop_first()[i - 1]);
                }
            }
        }
        if let Some(c) = first_forbidden(cs, needs_setgroups) {
            if c != cs[0] {
                assert(cs.drop_first().contains(c));
                let k = choose|k: int| 0 <= k < cs.drop_first().len() && cs.drop_first()[k] == c;
                assert(cs[k + 1] == c);
            } else {
                assert(cs[0] == c);
            }
        }
    }
}

/// An admitted non-root requester passes the policy exactly when every name in
/// its list is known and each names one of `CAP_DAC_READ_SEARCH` (2),
/// `CAP_SETGID` (6), `CAP_SETUID` (7) and `CAP_SETPCAP` (8); a refusal for a
/// forbidden capability names one it asked for outside those four.
pub proof fn lemma_policy_admits_four_caps(
    peer_uid: Uid,
    peer_groups: Seq<Gid>,
    request: WrappaRequest,
    admin_gid: Option<Gid>,
    allowed_uids: Seq<Uid>,
    r: Result<(), PolicyError>,
)
    requires
        policy_verdict(peer_uid, peer_groups, request, admin_gid, allowed_uids, r),
    ensures
        peer_uid != 0 && admission(peer_uid, peer_groups, admin_gid, allowed_uids) is Ok ==> (
        r is Ok <==> (caps_requested(request.requested_capabilities@) matches Ok(cs) && forall|
            i: int|
            0 <= i < cs.len() ==> (#[trigger] cs[i] == 2 || cs[i] == 6 || cs[i] == 7 || cs[i]
                == 8))),
        r matches Err(PolicyError::NotPermitted { cap }) ==> (caps_requested(
            request.requested_capabilities@,
        ) matches Ok(cs) && cs.contains(cap) && !(cap == 2 || cap == 6 || cap == 7 || cap == 8)),
{
    if let Ok(cs) = caps_requested(request.requested_capabilities@) {
        lemma_first_forbidden_four(cs, request.needs_setgroups);
    }
}

} // verus!
