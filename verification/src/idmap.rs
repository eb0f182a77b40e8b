//! Writing the id maps of a child process and checking that the kernel took them.
//!
//! The files live under `/proc/<pid>/`. Writing and reading them is left to the
//! caller: [`write_idmaps`] starts an [`IdmapSession`], which says at each step
//! which file to write or read next, and is told how that went.
use std::collections::HashSet;
use vstd::prelude::*;

use crate::text::{
    chars_of, decimal, digits_value, is_digit, is_white, parse_u64, parse_u64_spec,
    push_decimal, signed_decimal, split_words, string_from_chars, trim, trim_chars,
    unsigned_value, word_len, words,
};
use crate::{Gid, Pid, Uid};

verus! {

broadcast use vstd::std_specs::hash::group_hash_axioms;

/// A file under `/proc/<pid>/` that the mapping writes.
#[derive(Clone, Copy, Debug, PartialEq, Eq, Structural)]
pub enum MapFile {
    Setgroups,
    UidMap,
    GidMap,
}

pub open spec fn file_name(f: MapFile) -> Seq<char> {
    match f {
        MapFile::Setgroups => "setgroups"@,
        MapFile::UidMap => "uid_map"@,
        MapFile::GidMap => "gid_map"@,
    }
}

impl MapFile {
    /// The file's name under `/proc/<pid>/`.
    pub fn name(&self) -> (s: &'static str)
        ensures
            s@ == file_name(*self),
    {
        match self {
            MapFile::Setgroups => "setgroups",
            MapFile::UidMap => "uid_map",
            MapFile::GidMap => "gid_map",
        }
    }
}

/// `/proc/<pid>/<file>`.
pub open spec fn proc_path_spec(pid: Pid, file: Seq<char>) -> Seq<char> {
    "/proc/"@ + signed_decimal(pid as int) + "/"@ + file
}

/// What is written to `setgroups`.
pub open spec fn setgroups_text(needs_setgroups: bool) -> Seq<char> {
    if needs_setgroups {
        "allow"@
    } else {
        "deny"@
    }
}

/// The line that maps root inside the namespace to root outside.
pub open spec fn root_line() -> Seq<char> {
    seq!['0', ' ', '0', ' ', '1', '\n']
}

/// The line that maps `id` to itself.
pub open spec fn map_line(id: u32) -> Seq<char> {
    decimal(id as nat) + seq![' '] + decimal(id as nat) + seq![' ', '1', '\n']
}

/// The lines that map each of `ids` to itself, in order.
pub open spec fn map_lines(ids: Seq<u32>) -> Seq<char>
    decreases ids.len(),
{
    if ids.len() == 0 {
        seq![]
    } else {
        map_lines(ids.drop_last()) + map_line(ids.last())
    }
}

/// The supplementary groups that get a line of their own: each one other than
/// `gid`, at its first occurrence in `s`.
pub open spec fn extra_gids(gid: u32, s: Seq<u32>) -> Seq<u32>
    decreases s.len(),
{
    if s.len() == 0 {
        seq![]
    } else {
        let prev = extra_gids(gid, s.drop_last());
        let x = s.last();
        if x == gid || s.drop_last().contains(x) {
            prev
        } else {
            prev.push(x)
        }
    }
}

/// The content of `uid_map`: root, then `uid`, each mapped to itself.
pub open spec fn uid_map_text(uid: u32) -> Seq<char> {
    root_line() + map_line(uid)
}

/// The content of `gid_map`: root, then `gid`, then the other supplementary groups.
pub open spec fn gid_map_text(gid: u32, supplementary: Seq<u32>) -> Seq<char> {
    root_line() + map_line(gid) + map_lines(extra_gids(gid, supplementary))
}

/// The first three words of a map, read as numbers; `None` where there are
/// fewer than three or one of them is not a number.
pub open spec fn parse_map_spec(s: Seq<char>) -> Option<(u64, u64, u64)> {
    let w = words(s);
    if w.len() >= 3 {
        match (parse_u64_spec(w[0]), parse_u64_spec(w[1]), parse_u64_spec(w[2])) {
            (Some(a), Some(b), Some(c)) => Some((a, b, c)),
            _ => None,
        }
    } else {
        None
    }
}

/// Whether a map read back as `actual` is taken to be the map written as `expected`:
/// both begin with the same three numbers.
pub open spec fn readback_accepts(expected: Seq<char>, actual: Seq<char>) -> bool {
    &&& parse_map_spec(expected) is Some
    &&& parse_map_spec(actual) == parse_map_spec(expected)
}

/// Why a map that was read back is not taken to be the one that was written.
#[derive(Debug)]
pub enum ReadbackError {
    /// What was written does not begin with three numbers.
    ExpectedUnparsable { file: MapFile, expected: String },
    /// What was read back does not begin with three numbers.
    ActualUnparsable { file: MapFile, actual: String, expected: String },
    /// The two begin with different numbers; `wrote` and `read` are trimmed.
    Mismatch { path: String, wrote: String, read: String },
}

/// The error that [`verify_map_written`] gives for a map of `pid` written as
/// `expected` and read back as `actual`, where it does not accept it.
pub open spec fn readback_error_fits(
    e: ReadbackError,
    pid: Pid,
    file: MapFile,
    expected: String,
    actual: String,
) -> bool {
    match (parse_map_spec(expected@), parse_map_spec(actual@)) {
        (None, _) => e == ReadbackError::ExpectedUnparsable { file, expected },
        (Some(_), None) => e == ReadbackError::ActualUnparsable { file, actual, expected },
        (Some(x), Some(y)) => {
            &&& x != y
            &&& e matches ReadbackError::Mismatch { path, wrote, read }
            &&& path@ == proc_path_spec(pid, file_name(file))
            &&& wrote@ == trim(expected@)
            &&& read@ == trim(actual@)
        },
    }
}

/// Why writing the maps failed.
#[derive(Debug)]
pub enum IdmapError {
    /// Writing `path` failed for `reason`.
    WriteFailed { file: MapFile, path: String, reason: String },
    /// Reading `path` back failed for `reason`.
    ReadFailed { file: MapFile, path: String, reason: String },
    /// The map read back is not the one written.
    Unverified { file: MapFile, cause: ReadbackError },
}

/// Which outcome an [`IdmapSession`] waits for.
#[derive(Clone, Copy, Debug, PartialEq, Eq, Structural)]
pub enum IdmapStage {
    /// The outcome of writing `setgroups`.
    Setgroups,
    /// The outcome of writing `uid_map`.
    UidMap,
    /// The content of `uid_map`, read back.
    UidMapCheck,
    /// The outcome of writing `gid_map`.
    GidMap,
    /// The content of `gid_map`, read back.
    GidMapCheck,
    /// Nothing: the session is over.
    Finished,
}

/// What the caller does next for an [`IdmapSession`].
#[derive(Debug)]
pub enum IdmapAction {
    /// Write `content` to `path`, then report `Ok` (with any text) or `Err(reason)`.
    Write { file: MapFile, path: String, content: String },
    /// Read `path`, then report `Ok(content)` or `Err(reason)`.
    Read { file: MapFile, path: String },
    /// The session is over, with this result.
    Done(Result<(), IdmapError>),
}

/// The writing of the id maps of one child, one file at a time.
#[derive(Debug)]
pub struct IdmapSession {
    pub child: Pid,
    pub setgroups: String,
    pub uid_map: String,
    pub gid_map: String,
    pub stage: IdmapStage,
}

/// The file that an outcome reported in stage `st` is about.
pub open spec fn stage_file(st: IdmapStage) -> MapFile {
    match st {
        IdmapStage::Setgroups => MapFile::Setgroups,
        IdmapStage::UidMap | IdmapStage::UidMapCheck => MapFile::UidMap,
        _ => MapFile::GidMap,
    }
}

/// Whether stage `st` waits for the outcome of a write.
pub open spec fn is_write_stage(st: IdmapStage) -> bool {
    st is Setgroups || st is UidMap || st is GidMap
}

pub open spec fn is_write_of(a: IdmapAction, pid: Pid, f: MapFile, content: String) -> bool {
    &&& a matches IdmapAction::Write { file, path, content: c }
    &&& file == f
    &&& path@ == proc_path_spec(pid, file_name(f))
    &&& c == content
}

pub open spec fn is_read_of(a: IdmapAction, pid: Pid, f: MapFile) -> bool {
    &&& a matches IdmapAction::Read { file, path }
    &&& file == f
    &&& path@ == proc_path_spec(pid, file_name(f))
}

impl IdmapSession {
    /// The stage after the outcome `outcome` (its text, or a failure).
    pub open spec fn next_stage(self, outcome: Result<Seq<char>, ()>) -> IdmapStage {
        match outcome {
            Err(_) => IdmapStage::Finished,
            Ok(text) => match self.stage {
                IdmapStage::Setgroups => IdmapStage::UidMap,
                IdmapStage::UidMap => IdmapStage::UidMapCheck,
                IdmapStage::UidMapCheck => if readback_accepts(self.uid_map@, text) {
                    IdmapStage::GidMap
                } else {
                    IdmapStage::Finished
                },
                IdmapStage::GidMap => IdmapStage::GidMapCheck,
                _ => IdmapStage::Finished,
            },
        }
    }

    /// The action that follows the outcome `outcome` in this session.
    pub open spec fn action_fits(self, outcome: Result<String, String>, a: IdmapAction) -> bool {
        let st = self.stage;
        let pid = self.child;
        match outcome {
            Err(reason) => {
                let f = stage_file(st);
                match a {
                    IdmapAction::Done(Err(IdmapError::WriteFailed { file, path, reason: r })) => {
                        &&& is_write_stage(st)
                        &&& file == f
                        &&& path@ == proc_path_spec(pid, file_name(f))
                        &&& r == reason
                    },
                    IdmapAction::Done(Err(IdmapError::ReadFailed { file, path, reason: r })) => {
                        &&& !is_write_stage(st)
                        &&& file == f
                        &&& path@ == proc_path_spec(pid, file_name(f))
                        &&& r == reason
                    },
                    _ => false,
                }
            },
            Ok(text) => match st {
                IdmapStage::Setgroups => is_write_of(a, pid, MapFile::UidMap, self.uid_map),
                IdmapStage::UidMap => is_read_of(a, pid, MapFile::UidMap),
                IdmapStage::UidMapCheck => if readback_accepts(self.uid_map@, text@) {
                    is_write_of(a, pid, MapFile::GidMap, self.gid_map)
                } else {
                    &&& a matches IdmapAction::Done(Err(IdmapError::Unverified { file, cause }))
                    &&& file == MapFile::UidMap
                    &&& readback_error_fits(cause, pid, MapFile::UidMap, self.uid_map, text)
                },
                IdmapStage::GidMap => is_read_of(a, pid, MapFile::GidMap),
                IdmapStage::GidMapCheck => if readback_accepts(self.gid_map@, text@) {
                    a matches IdmapAction::Done(Ok(()))
                } else {
                    &&& a matches IdmapAction::Done(Err(IdmapError::Unverified { file, cause }))
                    &&& file == MapFile::GidMap
                    &&& readback_error_fits(cause, pid, MapFile::GidMap, self.gid_map, text)
                },
                IdmapStage::Finished => false,
            },
        }
    }
}

pub open spec fn outcome_view(outcome: Result<String, String>) -> Result<Seq<char>, ()> {
    match outcome {
        Ok(t) => Ok(t@),
        Err(_) => Err(()),
    }
}

proof fn lemma_words_single_char_word(c: char, w: char, r: Seq<char>)
    requires
        !is_white(c),
        is_white(w),
    ensures
        words(seq![c, w] + r) == seq![seq![c]] + words(r),
{
    let t = seq![c, w] + r;
    assert(t.drop_first() =~= seq![w] + r);
    assert(word_len(seq![w] + r) == 0);
    assert(word_len(t) == 1);
    assert(t.take(1) =~= seq![c]);
    assert(t.skip(1) =~= seq![w] + r);
    assert((seq![w] + r).drop_first() =~= r);
    assert((seq![w] + r)[0] == w);
    assert(words(seq![w] + r) == words(r));
    assert(t[0] == c);
    assert(words(t) == seq![t.take(1)] + words(t.skip(1)));
}

/// A map that begins with the root line reads back as root mapped to root.
proof fn lemma_parse_root_line(r: Seq<char>)
    ensures
        parse_map_spec(root_line() + r) == Some((0u64, 0u64, 1u64)),
{
    let t3 = seq!['1', '\n'] + r;
    let t2 = seq!['0', ' '] + t3;
    let t1 = seq!['0', ' '] + t2;
    assert(root_line() + r =~= t1);
    lemma_words_single_char_word('0', ' ', t2);
    lemma_words_single_char_word('0', ' ', t3);
    lemma_words_single_char_word('1', '\n', r);
    let w = words(t1);
    assert(w =~= seq![seq!['0'], seq!['0'], seq!['1']] + words(r));
    assert(seq!['0'].drop_last() =~= Seq::<char>::empty());
    assert(seq!['1'].drop_last() =~= Seq::<char>::empty());
    assert(digits_value(Seq::<char>::empty()) == 0);
    assert(is_digit(seq!['0'][0]));
    assert(is_digit(seq!['1'][0]));
    assert(unsigned_value(seq!['0']) == Some(0nat));
    assert(unsigned_value(seq!['1']) == Some(1nat));
}

/// Each supplementary group other than `gid` gets exactly one line of its own,
/// and `gid` gets none beyond its own.
pub proof fn lemma_extra_gids_once(gid: u32, s: Seq<u32>)
    ensures
        extra_gids(gid, s).no_duplicates(),
        !extra_gids(gid, s).contains(gid),
        forall|x: u32| extra_gids(gid, s).contains(x) <==> (x != gid && s.contains(x)),
    decreases s.len(),
{
    if s.len() > 0 {
        let p = s.drop_last();
        lemma_extra_gids_once(gid, p);
        let x = s.last();
        assert forall|y: u32| s.contains(y) <==> (p.contains(y) || y == x) by {
            if s.contains(y) {
                let k = choose|k: int| 0 <= k < s.len() && s[k] == y;
                if k < p.len() {
                    assert(p[k] == y);
                }
            }
            if p.contains(y) {
                let k = choose|k: int| 0 <= k < p.len() && p[k] == y;
                assert(s[k] == y);
            }
            if y == x {
                assert(s[s.len() - 1] == y);
            }
        }
        let e = extra_gids(gid, p);
        if !(x == gid || p.contains(x)) {
            assert forall|y: u32| e.push(x).contains(y) <==> (e.contains(y) || y == x) by {
                if e.push(x).contains(y) {
                    let k = choose|k: int| 0 <= k < e.push(x).len() && e.push(x)[k] == y;
                    if k < e.len() {
                        assert(e[k] == y);
                    }
                }
                if e.contains(y) {
                    let k = choose|k: int| 0 <= k < e.len() && e[k] == y;
                    assert(e.push(x)[k] == y);
                }
                if y == x {
                    assert(e.push(x)[e.len() as int] == y);
                }
            }
            assert forall|i: int, j: int|
                0 <= i < e.push(x).len() && 0 <= j < e.push(x).len() && i != j implies e.push(x)[i]
                != e.push(x)[j] by {
                if i < e.len() && j < e.len() {
                } else if i < e.len() {
                    assert(e.contains(e[i]));
                } else if j < e.len() {
                    assert(e.contains(e[j]));
                }
            }
        }
    } else {
        assert(s.len() == 0);
    }
}

/// A map that this crate writes is taken back when the kernel returns it as written.
pub proof fn lemma_own_maps_read_back(uid: u32, gid: u32, supplementary: Seq<u32>)
    ensures
        readback_accepts(uid_map_text(uid), uid_map_text(uid)),
        readback_accepts(gid_map_text(gid, supplementary), gid_map_text(gid, supplementary)),
        parse_map_spec(uid_map_text(uid)) == Some((0u64, 0u64, 1u64)),
        parse_map_spec(gid_map_text(gid, supplementary)) == Some((0u64, 0u64, 1u64)),
{
    lemma_parse_root_line(map_line(uid));
    let rest = map_line(gid) + map_lines(extra_gids(gid, supplementary));
    assert(gid_map_text(gid, supplementary) =~= root_line() + rest);
    lemma_parse_root_line(rest);
}

/// With every write succeeding and every read giving back what was written, a
/// session runs through `setgroups`, `uid_map` and its check, `gid_map` and its
/// check, and ends in success.
pub proof fn lemma_session_succeeds(
    child: Pid,
    uid: u32,
    gid: u32,
    supplementary: Seq<u32>,
    s: IdmapSession,
    after_write: String,
    uid_read: String,
    gid_read: String,
)
    requires
        s.stage == IdmapStage::Setgroups,
        s.uid_map@ == uid_map_text(uid),
        s.gid_map@ == gid_map_text(gid, supplementary),
        uid_read@ == s.uid_map@,
        gid_read@ == s.gid_map@,
    ensures
        s.next_stage(Ok(after_write@)) == IdmapStage::UidMap,
        (IdmapSession { stage: IdmapStage::UidMap, ..s }).next_stage(Ok(after_write@))
            == IdmapStage::UidMapCheck,
        (IdmapSession { stage: IdmapStage::UidMapCheck, ..s }).next_stage(Ok(uid_read@))
            == IdmapStage::GidMap,
        (IdmapSession { stage: IdmapStage::GidMap, ..s }).next_stage(Ok(after_write@))
            == IdmapStage::GidMapCheck,
        forall|a: IdmapAction|
            (IdmapSession { stage: IdmapStage::GidMapCheck, ..s }).action_fits(Ok(gid_read), a)
                ==> a matches IdmapAction::Done(Ok(())),
{
    lemma_own_maps_read_back(uid, gid, supplementary);
}

fn push_str(out: &mut Vec<char>, s: &str)
    ensures
        final(out)@ == old(out)@ + s@,
{
    let cs = chars_of(s);
    let mut i: usize = 0;
    while i < cs.len()
        invariant
            i <= cs.len(),
            cs@ == s@,
            out@ == old(out)@ + cs@.take(i as int),
        decreases cs.len() - i,
    {
        out.push(cs[i]);
        assert(cs@.take(i + 1) =~= cs@.take(i as int).push(cs@[i as int]));
        i = i + 1;
    }
    assert(cs@.take(cs.len() as int) =~= cs@);
}

fn push_signed_decimal(out: &mut Vec<char>, n: i32)
    ensures
        final(out)@ == old(out)@ + signed_decimal(n as int),
{
    if n < 0 {
        out.push('-');
        let m: u64 = (0i64 - n as i64) as u64;
        push_decimal(out, m);
        assert(final(out)@ =~= old(out)@ + signed_decimal(n as int));
    } else {
        push_decimal(out, n as u64);
    }
}

/// `/proc/<pid>/<file>`.
pub fn proc_path(pid: Pid, file: &str) -> (p: String)
    ensures
        p@ == proc_path_spec(pid, file@),
{
    let mut v: Vec<char> = Vec::new();
    push_str(&mut v, "/proc/");
    push_signed_decimal(&mut v, pid);
    push_str(&mut v, "/");
    push_str(&mut v, file);
    assert(v@ =~= proc_path_spec(pid, file@));
    string_from_chars(&v)
}

fn push_map_line(out: &mut Vec<char>, id: u32)
    ensures
        final(out)@ == old(out)@ + map_line(id),
{
    push_decimal(out, id as u64);
    out.push(' ');
    push_decimal(out, id as u64);
    out.push(' ');
    out.push('1');
    out.push('\n');
    assert(final(out)@ =~= old(out)@ + map_line(id));
}

fn push_root_line(out: &mut Vec<char>)
    ensures
        final(out)@ == old(out)@ + root_line(),
{
    out.push('0');
    out.push(' ');
    out.push('0');
    out.push(' ');
    out.push('1');
    out.push('\n');
    assert(final(out)@ =~= old(out)@ + root_line());
}

/// What is written to `setgroups`: `allow` where the child needs `setgroups(2)`, else `deny`.
pub fn setgroups_content(needs_setgroups: bool) -> (s: String)
    ensures
        s@ == setgroups_text(needs_setgroups),
{
    if needs_setgroups {
        "allow".to_owned()
    } else {
        "deny".to_owned()
    }
}

/// The content of `uid_map` for `uid`.
pub fn uid_map_content(uid: Uid) -> (s: String)
    ensures
        s@ == uid_map_text(uid),
{
    let mut v: Vec<char> = Vec::new();
    push_root_line(&mut v);
    push_map_line(&mut v, uid);
    assert(v@ =~= uid_map_text(uid));
    string_from_chars(&v)
}

/// The content of `gid_map` for `gid` and the supplementary groups.
pub fn gid_map_content(gid: Gid, supplementary_gids: &[Gid]) -> (s: String)
    ensures
        s@ == gid_map_text(gid, supplementary_gids@),
{
    let mut v: Vec<char> = Vec::new();
    push_root_line(&mut v);
    push_map_line(&mut v, gid);
    let ghost head = v@;
    let mut seen: HashSet<u32> = HashSet::new();
    let n = supplementary_gids.len();
    let mut i: usize = 0;
    assert(supplementary_gids@.take(0) =~= Seq::<u32>::empty());
    while i < n
        invariant
            i <= n == supplementary_gids@.len(),
            head == root_line() + map_line(gid),
            v@ == head + map_lines(extra_gids(gid, supplementary_gids@.take(i as int))),
            forall|x: u32|
                seen@.contains(x) <==> (x != gid && supplementary_gids@.take(i as int).contains(x)),
        decreases n - i,
    {
        let sgid = supplementary_gids[i];
        let ghost pre = supplementary_gids@.take(i as int);
        let ghost post = supplementary_gids@.take(i + 1);
        assert(post.drop_last() =~= pre);
        assert(post.last() == sgid);
        if sgid != gid {
            if seen.insert(sgid) {
                let ghost before = v@;
                push_map_line(&mut v, sgid);
                assert(extra_gids(gid, post) == extra_gids(gid, pre).push(sgid));
                assert(extra_gids(gid, post).drop_last() =~= extra_gids(gid, pre));
                assert(v@ =~= head + map_lines(extra_gids(gid, post)));
            } else {
                assert(pre.contains(sgid));
            }
        }
        assert forall|x: u32|
            seen@.contains(x) <==> (x != gid && post.contains(x)) by {
            if post.contains(x) && !pre.contains(x) {
                let k = choose|k: int| 0 <= k < post.len() && post[k] == x;
                if k < pre.len() {
                    assert(pre[k] == x);
                }
            }
            if pre.contains(x) {
                let k = choose|k: int| 0 <= k < pre.len() && pre[k] == x;
                assert(post[k] == x);
            }
        }
        i = i + 1;
    }
    assert(supplementary_gids@.take(n as int) =~= supplementary_gids@);
    assert(v@ =~= gid_map_text(gid, supplementary_gids@));
    string_from_chars(&v)
}

/// The first three words of `s` read as numbers, as the maps are read back.
pub fn parse_map(s: &Vec<char>) -> (r: Option<(u64, u64, u64)>)
    ensures
        r == parse_map_spec(s@),
{
    let w = split_words(s);
    proof {
        assert(w@.map_values(|x: Vec<char>| x@).len() == w.len());
    }
    if w.len() < 3 {
        return None;
    }
    proof {
        assert(w@.map_values(|x: Vec<char>| x@)[0] == w@[0]@);
        assert(w@.map_values(|x: Vec<char>| x@)[1] == w@[1]@);
        assert(w@.map_values(|x: Vec<char>| x@)[2] == w@[2]@);
    }
    let a = parse_u64(&w[0]);
    let b = parse_u64(&w[1]);
    let c = parse_u64(&w[2]);
    match (a, b, c) {
        (Some(a), Some(b), Some(c)) => Some((a, b, c)),
        _ => None,
    }
}

/// Checks that the map of `pid` read back as `actual` is the one written as `expected`.
pub fn verify_map_written(pid: Pid, file: MapFile, expected: &String, actual: &String) -> (r: Result<
    (),
    ReadbackError,
>)
    ensures
        r is Ok <==> readback_accepts(expected@, actual@),
        r matches Err(e) ==> readback_error_fits(e, pid, file, *expected, *actual),
{
    let ev = chars_of(expected.as_str());
    let av = chars_of(actual.as_str());
    let expected_parsed = match parse_map(&ev) {
        Some(p) => p,
        None => {
            return Err(ReadbackError::ExpectedUnparsable { file, expected: expected.clone() });
        },
    };
    let actual_parsed = match parse_map(&av) {
        Some(p) => p,
        None => {
            return Err(
                ReadbackError::ActualUnparsable {
                    file,
                    actual: actual.clone(),
                    expected: expected.clone(),
                },
            );
        },
    };
    if expected_parsed.0 != actual_parsed.0 || expected_parsed.1 != actual_parsed.1
        || expected_parsed.2 != actual_parsed.2 {
        let path = proc_path(pid, file.name());
        let wrote = string_from_chars(&trim_chars(&ev));
        let read = string_from_chars(&trim_chars(&av));
        return Err(ReadbackError::Mismatch { path, wrote, read });
    }
    Ok(())
}

/// Starts writing the id maps of `child`: `uid` and `gid` are mapped to
/// themselves, beside root, and so is each supplementary group; `setgroups`
/// is allowed where `needs_setgroups`. The session asks first for `setgroups`
/// to be written, since the kernel wants that before `gid_map`.
pub fn write_idmaps(
    child: Pid,
    uid: Uid,
    gid: Gid,
    supplementary_gids: &[Gid],
    needs_setgroups: bool,
) -> (r: (IdmapSession, IdmapAction))
    ensures
        r.0.child == child,
        r.0.setgroups@ == setgroups_text(needs_setgroups),
        r.0.uid_map@ == uid_map_text(uid),
        r.0.gid_map@ == gid_map_text(gid, supplementary_gids@),
        r.0.stage == IdmapStage::Setgroups,
        is_write_of(r.1, child, MapFile::Setgroups, r.0.setgroups),
{
    let setgroups = setgroups_content(needs_setgroups);
    let uid_map = uid_map_content(uid);
    let gid_map = gid_map_content(gid, supplementary_gids);
    let path = proc_path(child, MapFile::Setgroups.name());
    let action = IdmapAction::Write {
        file: MapFile::Setgroups,
        path,
        content: setgroups.clone(),
    };
    (IdmapSession { child, setgroups, uid_map, gid_map, stage: IdmapStage::Setgroups }, action)
}

impl IdmapSession {
    fn write_action(&self, file: MapFile, content: &String) -> (a: IdmapAction)
        ensures
            is_write_of(a, self.child, file, *content),
    {
        IdmapAction::Write { file, path: proc_path(self.child, file.name()), content: content.clone() }
    }

    fn read_action(&self, file: MapFile) -> (a: IdmapAction)
        ensures
            is_read_of(a, self.child, file),
    {
        IdmapAction::Read { file, path: proc_path(self.child, file.name()) }
    }

    /// Whether the session is over.
    pub fn is_finished(&self) -> (b: bool)
        ensures
            b == (self.stage == IdmapStage::Finished),
    {
        self.stage == IdmapStage::Finished
    }

    /// Takes the outcome of the last action (the text read, or any text after a
    /// write; or the reason it failed) and says what to do next.
    pub fn advance(&mut self, outcome: Result<String, String>) -> (a: IdmapAction)
        requires
            old(self).stage != IdmapStage::Finished,
        ensures
            final(self).stage == old(self).next_stage(outcome_view(outcome)),
            final(self).child == old(self).child,
            final(self).setgroups == old(self).setgroups,
            final(self).uid_map == old(self).uid_map,
            final(self).gid_map == old(self).gid_map,
            old(self).action_fits(outcome, a),
    {
        let st = self.stage;
        match outcome {
            Err(reason) => {
                self.stage = IdmapStage::Finished;
                match st {
                    IdmapStage::Setgroups => {
                        let f = MapFile::Setgroups;
                        IdmapAction::Done(
                            Err(
                                IdmapError::WriteFailed {
                                    file: f,
                                    path: proc_path(self.child, f.name()),
                                    reason,
                                },
                            ),
                        )
                    },
                    IdmapStage::UidMap => {
                        let f = MapFile::UidMap;
                        IdmapAction::Done(
                            Err(
                                IdmapError::WriteFailed {
                                    file: f,
                                    path: proc_path(self.child, f.name()),
                                    reason,
                                },
                            ),
                        )
                    },
                    IdmapStage::GidMap => {
                        let f = MapFile::GidMap;
                        IdmapAction::Done(
                            Err(
                                IdmapError::WriteFailed {
                                    file: f,
                                    path: proc_path(self.child, f.name()),
                                    reason,
                                },
                            ),
                        )
                    },
                    IdmapStage::UidMapCheck => {
                        let f = MapFile::UidMap;
                        IdmapAction::Done(
                            Err(
                                IdmapError::ReadFailed {
                                    file: f,
                                    path: proc_path(self.child, f.name()),
                                    reason,
                                },
                            ),
                        )
                    },
                    _ => {
                        let f = MapFile::GidMap;
                        IdmapAction::Done(
                            Err(
                                IdmapError::ReadFailed {
                                    file: f,
                                    path: proc_path(self.child, f.name()),
                                    reason,
                                },
                            ),
                        )
                    },
                }
            },
            Ok(text) => match st {
                IdmapStage::Setgroups => {
                    self.stage = IdmapStage::UidMap;
                    self.write_action(MapFile::UidMap, &self.uid_map)
                },
                IdmapStage::UidMap => {
                    self.stage = IdmapStage::UidMapCheck;
                    self.read_action(MapFile::UidMap)
                },
                IdmapStage::UidMapCheck => match verify_map_written(
                    self.child,
                    MapFile::UidMap,
                    &self.uid_map,
                    &text,
                ) {
                    Ok(()) => {
                        self.stage = IdmapStage::GidMap;
                        self.write_action(MapFile::GidMap, &self.gid_map)
                    },
                    Err(cause) => {
                        self.stage = IdmapStage::Finished;
                        IdmapAction::Done(Err(IdmapError::Unverified { file: MapFile::UidMap, cause }))
                    },
                },
                IdmapStage::GidMap => {
                    self.stage = IdmapStage::GidMapCheck;
                    self.read_action(MapFile::GidMap)
                },
                _ => {
                    self.stage = IdmapStage::Finished;
                    match verify_map_written(self.child, MapFile::GidMap, &self.gid_map, &text) {
                        Ok(()) => IdmapAction::Done(Ok(())),
                        Err(cause) => IdmapAction::Done(
                            Err(IdmapError::Unverified { file: MapFile::GidMap, cause }),
                        ),
                    }
                },
            },
        }
    }
}

} // verus!
