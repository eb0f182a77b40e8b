//! How the daemon serves one connection.
//!
//! A [`ClientSession`] holds what is known of the request so far and decides,
//! from the outcome of each step, what the caller (which owns the sockets,
//! the files and the system calls) does next. Every check of the request
//! comes before the maps are written; a failed check is answered with a
//! refusal, a failure of the daemon's own work ends the session with an error.
use vstd::prelude::*;

use crate::auth::{
    caps_requested, check_policy, first_forbidden, groups_from_status, ownership, parse_caps,
    read_peer_groups, status_groups, validate_child_ownership, verify_in_userns,
    verify_not_mapped, AlreadyMapped, OwnershipError, PidFdInfo, PolicyError, SameNamespace,
    UnknownCapability,
};
use crate::connection::WrappaRequest;
use crate::idmap::{proc_path, proc_path_spec, MapFile};
use crate::policy::admission;
use crate::text::trim;
use crate::{Gid, Pid, Uid};

verus! {

/// The process at the other end of the connection, as the socket reports it.
#[derive(Debug, Clone, Copy, PartialEq, Eq, Structural)]
pub struct Peer {
    pub uid: Uid,
    pub gid: Gid,
    pub pid: Pid,
}

/// Why a request is refused; the refusal is sent back to the requester.
#[derive(Debug)]
pub enum Refusal {
    /// The kernel could not describe the child.
    ChildUnknown { child: Pid, reason: String },
    /// The child is not the requester's to map.
    Ownership(OwnershipError),
    /// The policy does not allow the request.
    Policy(PolicyError),
    /// The capability list names an unknown capability.
    BadCapabilities(UnknownCapability),
    /// A user namespace link could not be read: the child's, or that of init.
    NamespaceUnreadable { of_init: bool, reason: String },
    /// The child has no user namespace of its own.
    SameNamespace(SameNamespace),
    /// A map of the child could not be read.
    MapUnreadable { file: MapFile, path: String, reason: String },
    /// A map of the child is written already.
    AlreadyMapped(AlreadyMapped),
}

/// What is sent back to the requester.
#[derive(Debug)]
pub enum Reply {
    Grant,
    Refuse(Refusal),
}

/// Why serving the connection failed; nothing more is sent.
#[derive(Debug)]
pub enum HandlerError {
    /// No pidfd could be had for `pid`.
    NoPidfd { pid: Pid, reason: String },
    /// The requester's groups could not be read.
    NoGroups { reason: String },
    /// Writing the maps failed.
    MappingFailed { reason: String },
    /// The reply could not be sent.
    SendFailed { reason: String },
}

/// The outcome of an action, handed back to the session.
#[derive(Debug)]
pub enum ClientEvent {
    /// A pidfd was opened, or not.
    Opened(Result<i32, String>),
    /// The kernel's description of the child, or why there is none.
    ChildInfo(Result<PidFdInfo, String>),
    /// The text of a file, or why it could not be read.
    Text(Result<String, String>),
    /// The lines of a `status` file that could be read, and why reading
    /// stopped before the end, if it did.
    Status { text: String, read_error: Option<String> },
    /// The target of a link, or why it could not be read.
    Link(Result<Vec<u8>, String>),
    /// The administrator group's id, where it exists, and the ids of the
    /// allowed users that exist.
    Administrators { admin_gid: Option<Gid>, allowed_uids: Vec<Uid> },
    /// The maps were written, or why not.
    Mapped(Result<(), String>),
    /// The reply was sent, or why not.
    Sent(Result<(), String>),
}

/// What the caller does next for a [`ClientSession`].
#[derive(Debug)]
pub enum ClientAction {
    /// Open a pidfd for `pid`; report [`ClientEvent::Opened`].
    OpenPidfd { pid: Pid },
    /// Ask the kernel about the process of `pidfd`; report [`ClientEvent::ChildInfo`].
    QueryInfo { pidfd: i32 },
    /// Read the file `status` relative to `dirfd`, line by line; report
    /// [`ClientEvent::Status`]. The session hands the requester's pid here.
    ReadStatus { dirfd: i32 },
    /// Look up the administrator group and the allowed users; report
    /// [`ClientEvent::Administrators`].
    LookupAdministrators,
    /// Read the link at `path`; report [`ClientEvent::Link`].
    ReadLink { path: String },
    /// Read the map at `path`; report [`ClientEvent::Text`].
    ReadMap { file: MapFile, path: String },
    /// Write the maps of `child` (see `write_idmaps`); report [`ClientEvent::Mapped`].
    WriteMaps { child: Pid, uid: Uid, gid: Gid, groups: Vec<Gid>, needs_setgroups: bool },
    /// Send `reply` to the requester; report [`ClientEvent::Sent`].
    Send(Reply),
    /// The connection is served, with this result.
    Finish(Result<(), HandlerError>),
}

/// The step that a [`ClientSession`] waits for the outcome of.
#[derive(Debug, Clone, Copy, PartialEq, Eq, Structural)]
pub enum ClientStage {
    OpenChild,
    OpenPeer,
    QueryChild,
    ReadStatus,
    LookupAdministrators,
    ReadChildNamespace,
    ReadInitNamespace,
    ReadUidMap,
    ReadGidMap,
    WriteMaps,
    Replying,
    Finished,
}

/// One connection being served. The ghost fields record what the checks
/// were made on.
pub struct ClientSession {
    pub peer: Peer,
    pub request: WrappaRequest,
    pub child_pidfd: i32,
    pub peer_pidfd: i32,
    pub peer_groups: Vec<Gid>,
    pub child_namespace: Vec<u8>,
    pub stage: ClientStage,
    /// What the kernel said of the child.
    pub child_info: Ghost<PidFdInfo>,
    /// The text of the requester's `status` file.
    pub status: Ghost<Seq<char>>,
    /// The administrator group's id and the allowed users' ids.
    pub administrators: Ghost<(Option<Gid>, Seq<Uid>)>,
    /// The user namespace link of init.
    pub init_namespace: Ghost<Seq<u8>>,
    /// The content of the child's `uid_map` before mapping.
    pub uid_map_seen: Ghost<Seq<char>>,
    /// The content of the child's `gid_map` before mapping.
    pub gid_map_seen: Ghost<Seq<char>>,
}

/// Whether `e` is the kind of outcome that stage `st` waits for.
pub open spec fn event_fits(st: ClientStage, e: ClientEvent) -> bool {
    match st {
        ClientStage::OpenChild | ClientStage::OpenPeer => e is Opened,
        ClientStage::QueryChild => e is ChildInfo,
        ClientStage::ReadStatus => e is Status,
        ClientStage::ReadUidMap | ClientStage::ReadGidMap => e is Text,
        ClientStage::LookupAdministrators => e is Administrators,
        ClientStage::ReadChildNamespace | ClientStage::ReadInitNamespace => e is Link,
        ClientStage::WriteMaps => e is Mapped,
        ClientStage::Replying => e is Sent,
        ClientStage::Finished => false,
    }
}

/// Whether the stage comes after the requester's groups were read.
pub open spec fn past_status(st: ClientStage) -> bool {
    st is LookupAdministrators || past_gate(st)
}

/// Whether the stage comes after the namespace check.
pub open spec fn past_namespace(st: ClientStage) -> bool {
    st is ReadUidMap || st is ReadGidMap || st is WriteMaps
}

/// Whether the stage comes after the policy and capability checks.
pub open spec fn past_gate(st: ClientStage) -> bool {
    st is ReadChildNamespace || st is ReadInitNamespace || st is ReadUidMap || st is ReadGidMap
        || st is WriteMaps
}

/// Whether the capability list of `request` from `peer` passes: every name is
/// known, and a non-root requester asks only for capabilities it may have.
pub open spec fn capabilities_pass(peer: Peer, request: WrappaRequest) -> bool {
    &&& caps_requested(request.requested_capabilities@) is Ok
    &&& peer.uid != 0 ==> first_forbidden(
        caps_requested(request.requested_capabilities@)->Ok_0,
        request.needs_setgroups,
    ) is None
}

/// Whether the stage comes after the child's ownership was checked.
pub open spec fn past_ownership(st: ClientStage) -> bool {
    !(st is OpenChild || st is OpenPeer || st is QueryChild || st is Finished || st is Replying)
}

pub open spec fn sends_refusal(a: ClientAction, new_stage: ClientStage) -> bool {
    new_stage == ClientStage::Replying && a matches ClientAction::Send(Reply::Refuse(_))
}

pub open spec fn refusal_of(a: ClientAction) -> Refusal
    recommends
        a matches ClientAction::Send(Reply::Refuse(_)),
{
    match a {
        ClientAction::Send(Reply::Refuse(r)) => r,
        _ => arbitrary(),
    }
}

pub open spec fn finishes_with_error(a: ClientAction, new_stage: ClientStage) -> bool {
    new_stage == ClientStage::Finished && a matches ClientAction::Finish(Err(_))
}

pub open spec fn error_of(a: ClientAction) -> HandlerError
    recommends
        a matches ClientAction::Finish(Err(_)),
{
    match a {
        ClientAction::Finish(Err(e)) => e,
        _ => arbitrary(),
    }
}

/// The path of the user namespace link of `pid`.
pub open spec fn userns_path(pid: Pid) -> Seq<char> {
    proc_path_spec(pid, "ns/user"@)
}

impl ClientSession {
    /// Whether the session's state agrees with the checks it has passed:
    /// past each check, the recorded facts pass it, and the groups are those of
    /// the recorded `status` text.
    pub open spec fn wf(self) -> bool {
        let st = self.stage;
        &&& past_ownership(st) ==> ownership(
            self.child_info@,
            self.request.child,
            self.peer.pid,
            self.peer.uid,
            self.peer.gid,
            self.request.requested_uid,
            self.request.requested_gid,
        ) is Ok
        &&& past_status(st) ==> self.peer_groups@ == status_groups(self.status@)
        &&& past_gate(st) ==> admission(
            self.peer.uid,
            self.peer_groups@,
            self.administrators@.0,
            self.administrators@.1,
        ) is Ok
        &&& past_gate(st) ==> capabilities_pass(self.peer, self.request)
        &&& past_namespace(st) ==> self.child_namespace@ != self.init_namespace@
        &&& (st is ReadGidMap || st is WriteMaps) ==> trim(self.uid_map_seen@).len() == 0
        &&& st is WriteMaps ==> trim(self.gid_map_seen@).len() == 0
    }

    /// What follows once the requester's groups are known, given the
    /// administrator group and the allowed users: the policy, then the
    /// capability list, decide whether the session goes on to the namespace.
    pub open spec fn gate_fits(
        self,
        admin_gid: Option<Gid>,
        allowed_uids: Seq<Uid>,
        new: Self,
        a: ClientAction,
    ) -> bool {
        let uid = self.peer.uid;
        match admission(uid, new.peer_groups@, admin_gid, allowed_uids) {
            Err(ae) => {
                &&& sends_refusal(a, new.stage)
                &&& refusal_of(a) matches Refusal::Policy(PolicyError::Admission(x))
                &&& x == ae
            },
            Ok(()) => match caps_requested(self.request.requested_capabilities@) {
                Err(n) => {
                    &&& sends_refusal(a, new.stage)
                    &&& if uid == 0 {
                        refusal_of(a) matches Refusal::BadCapabilities(u) && u.name@ == n
                    } else {
                        refusal_of(a) matches Refusal::Policy(PolicyError::UnknownCapability(u))
                            && u.name@ == n
                    }
                },
                Ok(cs) => if uid != 0 && first_forbidden(cs, self.request.needs_setgroups) is Some {
                    &&& sends_refusal(a, new.stage)
                    &&& refusal_of(a) matches Refusal::Policy(PolicyError::NotPermitted { cap })
                    &&& Some(cap) == first_forbidden(cs, self.request.needs_setgroups)
                } else {
                    &&& new.stage == ClientStage::ReadChildNamespace
                    &&& a matches ClientAction::ReadLink { path }
                    &&& path@ == userns_path(self.request.child)
                },
            },
        }
    }

    /// The step that follows the outcome `e`, to the session `new` and the action `a`.
    pub open spec fn advance_fits(self, e: ClientEvent, new: Self, a: ClientAction) -> bool {
        let child = self.request.child;
        match self.stage {
            ClientStage::OpenChild => match e {
                ClientEvent::Opened(Ok(fd)) => {
                    &&& new.stage == ClientStage::OpenPeer
                    &&& new.child_pidfd == fd
                    &&& a == ClientAction::OpenPidfd { pid: self.peer.pid }
                },
                ClientEvent::Opened(Err(reason)) => {
                    &&& finishes_with_error(a, new.stage)
                    &&& error_of(a) == HandlerError::NoPidfd { pid: child, reason }
                },
                _ => false,
            },
            ClientStage::OpenPeer => match e {
                ClientEvent::Opened(Ok(fd)) => {
                    &&& new.stage == ClientStage::QueryChild
                    &&& new.peer_pidfd == fd
                    &&& a == ClientAction::QueryInfo { pidfd: self.child_pidfd }
                },
                ClientEvent::Opened(Err(reason)) => {
                    &&& finishes_with_error(a, new.stage)
                    &&& error_of(a) == HandlerError::NoPidfd { pid: self.peer.pid, reason }
                },
                _ => false,
            },
            ClientStage::QueryChild => match e {
                ClientEvent::ChildInfo(Err(reason)) => {
                    &&& sends_refusal(a, new.stage)
                    &&& refusal_of(a) == Refusal::ChildUnknown { child, reason }
                },
                ClientEvent::ChildInfo(Ok(info)) => match ownership(
                    info,
                    child,
                    self.peer.pid,
                    self.peer.uid,
                    self.peer.gid,
                    self.request.requested_uid,
                    self.request.requested_gid,
                ) {
                    Err(o) => {
                        &&& sends_refusal(a, new.stage)
                        &&& refusal_of(a) == Refusal::Ownership(o)
                    },
                    Ok(()) => {
                        &&& new.stage == ClientStage::ReadStatus
                        &&& a == ClientAction::ReadStatus { dirfd: self.peer.pid }
                    },
                },
                _ => false,
            },
            ClientStage::ReadStatus => match e {
                ClientEvent::Status { text, read_error } => match groups_from_status(
                    text@,
                    read_error,
                ) {
                    Err(reason) => {
                        &&& finishes_with_error(a, new.stage)
                        &&& error_of(a) == HandlerError::NoGroups { reason }
                    },
                    Ok(groups) => {
                        &&& new.peer_groups@ == groups
                        &&& groups == status_groups(text@)
                        &&& if self.peer.uid != 0 {
                            new.stage == ClientStage::LookupAdministrators && a
                                == ClientAction::LookupAdministrators
                        } else {
                            self.gate_fits(None, seq![], new, a)
                        }
                    },
                },
                _ => false,
            },
            ClientStage::LookupAdministrators => match e {
                ClientEvent::Administrators { admin_gid, allowed_uids } => {
                    &&& new.peer_groups == self.peer_groups
                    &&& self.gate_fits(admin_gid, allowed_uids@, new, a)
                },
                _ => false,
            },
            ClientStage::ReadChildNamespace => match e {
                ClientEvent::Link(Err(reason)) => {
                    &&& sends_refusal(a, new.stage)
                    &&& refusal_of(a) == Refusal::NamespaceUnreadable { of_init: false, reason }
                },
                ClientEvent::Link(Ok(ns)) => {
                    &&& new.stage == ClientStage::ReadInitNamespace
                    &&& new.child_namespace == ns
                    &&& a matches ClientAction::ReadLink { path }
                    &&& path@ == userns_path(1)
                },
                _ => false,
            },
            ClientStage::ReadInitNamespace => match e {
                ClientEvent::Link(Err(reason)) => {
                    &&& sends_refusal(a, new.stage)
                    &&& refusal_of(a) == Refusal::NamespaceUnreadable { of_init: true, reason }
                },
                ClientEvent::Link(Ok(init_ns)) => if self.child_namespace@ == init_ns@ {
                    &&& sends_refusal(a, new.stage)
                    &&& refusal_of(a) matches Refusal::SameNamespace(s)
                    &&& s.child == child
                    &&& s.namespace@ == self.child_namespace@
                } else {
                    &&& new.stage == ClientStage::ReadUidMap
                    &&& a matches ClientAction::ReadMap { file, path }
                    &&& file == MapFile::UidMap
                    &&& path@ == proc_path_spec(child, "uid_map"@)
                },
                _ => false,
            },
            ClientStage::ReadUidMap | ClientStage::ReadGidMap => {
                let f = if self.stage == ClientStage::ReadUidMap {
                    MapFile::UidMap
                } else {
                    MapFile::GidMap
                };
                let fname = if self.stage == ClientStage::ReadUidMap {
                    "uid_map"@
                } else {
                    "gid_map"@
                };
                match e {
                    ClientEvent::Text(Err(reason)) => {
                        &&& sends_refusal(a, new.stage)
                        &&& refusal_of(a) matches Refusal::MapUnreadable { file, path, reason: r }
                        &&& file == f
                        &&& path@ == proc_path_spec(child, fname)
                        &&& r == reason
                    },
                    ClientEvent::Text(Ok(content)) => if trim(content@).len() != 0 {
                        &&& sends_refusal(a, new.stage)
                        &&& refusal_of(a) matches Refusal::AlreadyMapped(m)
                        &&& m.child == child
                        &&& m.file == f
                        &&& m.content@ == trim(content@)
                    } else if self.stage == ClientStage::ReadUidMap {
                        &&& new.stage == ClientStage::ReadGidMap
                        &&& a matches ClientAction::ReadMap { file, path }
                        &&& file == MapFile::GidMap
                        &&& path@ == proc_path_spec(child, "gid_map"@)
                    } else {
                        &&& new.stage == ClientStage::WriteMaps
                        &&& a matches ClientAction::WriteMaps {
                            child: c,
                            uid,
                            gid,
                            groups,
                            needs_setgroups,
                        }
                        &&& c == child
                        &&& uid == self.request.requested_uid
                        &&& gid == self.request.requested_gid
                        &&& groups@ == self.peer_groups@
                        &&& needs_setgroups == self.request.needs_setgroups
                    },
                    _ => false,
                }
            },
            ClientStage::WriteMaps => match e {
                ClientEvent::Mapped(Err(reason)) => {
                    &&& finishes_with_error(a, new.stage)
                    &&& error_of(a) == HandlerError::MappingFailed { reason }
                },
                ClientEvent::Mapped(Ok(())) => {
                    &&& new.stage == ClientStage::Replying
                    &&& a matches ClientAction::Send(Reply::Grant)
                },
                _ => false,
            },
            ClientStage::Replying => match e {
                ClientEvent::Sent(Err(reason)) => {
                    &&& finishes_with_error(a, new.stage)
                    &&& error_of(a) == HandlerError::SendFailed { reason }
                },
                ClientEvent::Sent(Ok(())) => {
                    &&& new.stage == ClientStage::Finished
                    &&& a matches ClientAction::Finish(Ok(()))
                },
                _ => false,
            },
            ClientStage::Finished => false,
        }
    }
}

/// Starts serving `request` from `peer`: first a pidfd for the child is opened.
pub fn handle_client(peer: Peer, request: WrappaRequest) -> (r: (ClientSession, ClientAction))
    ensures
        r.0.peer == peer,
        r.0.request == request,
        r.0.stage == ClientStage::OpenChild,
        r.0.wf(),
        r.1 == (ClientAction::OpenPidfd { pid: request.child }),
{
    let child = request.child;
    (
        ClientSession {
            peer,
            request,
            child_pidfd: -1,
            peer_pidfd: -1,
            peer_groups: Vec::new(),
            child_namespace: Vec::new(),
            stage: ClientStage::OpenChild,
            child_info: Ghost(PidFdInfo {
                request_mask: 0,
                cgroupid: 0,
                pid: 0,
                tgid: 0,
                ppid: 0,
                ruid: 0,
                rgid: 0,
                euid: 0,
                egid: 0,
                suid: 0,
                sgid: 0,
                fsuid: 0,
                fsgid: 0,
            }),
            status: Ghost(Seq::empty()),
            administrators: Ghost((None, Seq::empty())),
            init_namespace: Ghost(Seq::empty()),
            uid_map_seen: Ghost(Seq::empty()),
            gid_map_seen: Ghost(Seq::empty()),
        },
        ClientAction::OpenPidfd { pid: child },
    )
}

/// Whether two sessions hold the same data, but for the stage and the record
/// of the administrators.
pub open spec fn same_data(a: ClientSession, b: ClientSession) -> bool {
    &&& a.peer == b.peer
    &&& a.request == b.request
    &&& a.child_pidfd == b.child_pidfd
    &&& a.peer_pidfd == b.peer_pidfd
    &&& a.peer_groups == b.peer_groups
    &&& a.child_namespace == b.child_namespace
    &&& a.child_info == b.child_info
    &&& a.status == b.status
    &&& a.init_namespace == b.init_namespace
    &&& a.uid_map_seen == b.uid_map_seen
    &&& a.gid_map_seen == b.gid_map_seen
}

impl ClientSession {
    /// Whether `e` is the kind of outcome that the session waits for.
    pub fn accepts(&self, e: &ClientEvent) -> (b: bool)
        ensures
            b == event_fits(self.stage, *e),
    {
        match self.stage {
            ClientStage::OpenChild | ClientStage::OpenPeer => matches!(e, ClientEvent::Opened(_)),
            ClientStage::QueryChild => matches!(e, ClientEvent::ChildInfo(_)),
            ClientStage::ReadStatus => matches!(e, ClientEvent::Status { .. }),
            ClientStage::ReadUidMap | ClientStage::ReadGidMap => matches!(e, ClientEvent::Text(_)),
            ClientStage::LookupAdministrators => matches!(e, ClientEvent::Administrators { .. }),
            ClientStage::ReadChildNamespace | ClientStage::ReadInitNamespace => matches!(
                e,
                ClientEvent::Link(_)
            ),
            ClientStage::WriteMaps => matches!(e, ClientEvent::Mapped(_)),
            ClientStage::Replying => matches!(e, ClientEvent::Sent(_)),
            ClientStage::Finished => false,
        }
    }

    fn refuse(&mut self, r: Refusal) -> (a: ClientAction)
        ensures
            final(self).stage == ClientStage::Replying,
            same_data(*final(self), *old(self)),
            final(self).administrators == old(self).administrators,
            a == ClientAction::Send(Reply::Refuse(r)),
    {
        self.stage = ClientStage::Replying;
        ClientAction::Send(Reply::Refuse(r))
    }

    fn fail(&mut self, e: HandlerError) -> (a: ClientAction)
        ensures
            final(self).stage == ClientStage::Finished,
            same_data(*final(self), *old(self)),
            final(self).administrators == old(self).administrators,
            a == ClientAction::Finish(Err(e)),
    {
        self.stage = ClientStage::Finished;
        ClientAction::Finish(Err(e))
    }

    /// The policy and capability checks, once the groups are known.
    fn gate(&mut self, admin_gid: Option<Gid>, allowed_uids: &[Uid]) -> (a: ClientAction)
        requires
            old(self).stage == ClientStage::ReadStatus || old(self).stage
                == ClientStage::LookupAdministrators,
        ensures
            old(self).gate_fits(admin_gid, allowed_uids@, *final(self), a),
            same_data(*final(self), *old(self)),
            final(self).administrators@ == (admin_gid, allowed_uids@),
            final(self).stage == ClientStage::ReadChildNamespace ==> admission(
                old(self).peer.uid,
                old(self).peer_groups@,
                admin_gid,
                allowed_uids@,
            ) is Ok && capabilities_pass(old(self).peer, old(self).request),
    {
        self.administrators = Ghost((admin_gid, allowed_uids@));
        match check_policy(
            self.peer.uid,
            self.peer_groups.as_slice(),
            &self.request,
            admin_gid,
            allowed_uids,
        ) {
            Ok(()) => {},
            Err(p) => {
                return self.refuse(Refusal::Policy(p));
            },
        }
        match parse_caps(self.request.requested_capabilities.as_str()) {
            Ok(_) => {},
            Err(u) => {
                return self.refuse(Refusal::BadCapabilities(u));
            },
        }
        self.stage = ClientStage::ReadChildNamespace;
        ClientAction::ReadLink { path: proc_path(self.request.child, "ns/user") }
    }

    /// Takes the outcome of the last action and says what to do next. Each
    /// datum of the session changes only on the step that reads it.
    pub fn advance(&mut self, e: ClientEvent) -> (a: ClientAction)
        requires
            event_fits(old(self).stage, e),
        ensures
            old(self).advance_fits(e, *final(self), a),
            old(self).wf() ==> final(self).wf(),
            final(self).peer == old(self).peer,
            final(self).request == old(self).request,
            old(self).stage != ClientStage::ReadStatus ==> final(self).peer_groups == old(
                self,
            ).peer_groups,
            old(self).stage != ClientStage::ReadStatus ==> final(self).status == old(self).status,
            old(self).stage == ClientStage::ReadStatus ==> (e matches ClientEvent::Status {
                text,
                ..
            } ==> final(self).status@ == text@),
            old(self).stage != ClientStage::QueryChild ==> final(self).child_info == old(
                self,
            ).child_info,
            old(self).stage != ClientStage::OpenChild ==> final(self).child_pidfd == old(
                self,
            ).child_pidfd,
            old(self).stage != ClientStage::OpenPeer ==> final(self).peer_pidfd == old(
                self,
            ).peer_pidfd,
            old(self).stage != ClientStage::ReadChildNamespace ==> final(self).child_namespace
                == old(self).child_namespace,
            a matches ClientAction::WriteMaps { child, uid, gid, groups, needs_setgroups } ==> (
            child == old(self).request.child && uid == old(self).request.requested_uid && gid
                == old(self).request.requested_gid && groups@ == old(self).peer_groups@
                && needs_setgroups == old(self).request.needs_setgroups),
            old(self).wf() ==> (a matches ClientAction::WriteMaps { uid, gid, .. } ==> (
            final(self).peer.uid == 0 || (uid == final(self).peer.uid && gid
                == final(self).peer.gid))),
            old(self).wf() ==> (a matches ClientAction::WriteMaps { groups, .. } ==> groups@
                == status_groups(final(self).status@)),
    {
        let child = self.request.child;
        match e {
            ClientEvent::Opened(Ok(fd)) => {
                if self.stage == ClientStage::OpenChild {
                    self.child_pidfd = fd;
                    self.stage = ClientStage::OpenPeer;
                    ClientAction::OpenPidfd { pid: self.peer.pid }
                } else {
                    self.peer_pidfd = fd;
                    self.stage = ClientStage::QueryChild;
                    ClientAction::QueryInfo { pidfd: self.child_pidfd }
                }
            },
            ClientEvent::Opened(Err(reason)) => {
                let pid = if self.stage == ClientStage::OpenChild {
                    child
                } else {
                    self.peer.pid
                };
                self.fail(HandlerError::NoPidfd { pid, reason })
            },
            ClientEvent::ChildInfo(Err(reason)) => self.refuse(
                Refusal::ChildUnknown { child, reason },
            ),
            ClientEvent::ChildInfo(Ok(info)) => {
                self.child_info = Ghost(info);
                match validate_child_ownership(
                    &info,
                    child,
                    self.peer.pid,
                    self.peer.uid,
                    self.peer.gid,
                    self.request.requested_uid,
                    self.request.requested_gid,
                ) {
                    Ok(()) => {
                        self.stage = ClientStage::ReadStatus;
                        ClientAction::ReadStatus { dirfd: self.peer.pid }
                    },
                    Err(o) => self.refuse(Refusal::Ownership(o)),
                }
            },
            ClientEvent::Status { text, read_error } => {
                self.status = Ghost(text@);
                match read_peer_groups(text.as_str(), read_error) {
                    Err(reason) => self.fail(HandlerError::NoGroups { reason }),
                    Ok(groups) => {
                        self.peer_groups = groups;
                        if self.peer.uid != 0 {
                            self.stage = ClientStage::LookupAdministrators;
                            ClientAction::LookupAdministrators
                        } else {
                            let none: Vec<Uid> = Vec::new();
                            self.gate(None, none.as_slice())
                        }
                    },
                }
            },
            ClientEvent::Text(Err(reason)) => {
                let file = if self.stage == ClientStage::ReadUidMap {
                    MapFile::UidMap
                } else {
                    MapFile::GidMap
                };
                let path = proc_path(child, file.name());
                self.refuse(Refusal::MapUnreadable { file, path, reason })
            },
            ClientEvent::Text(Ok(text)) => {
                let file = if self.stage == ClientStage::ReadUidMap {
                    self.uid_map_seen = Ghost(text@);
                    MapFile::UidMap
                } else {
                    self.gid_map_seen = Ghost(text@);
                    MapFile::GidMap
                };
                match verify_not_mapped(child, file, text.as_str()) {
                    Err(m) => self.refuse(Refusal::AlreadyMapped(m)),
                    Ok(()) => {
                        if self.stage == ClientStage::ReadUidMap {
                            self.stage = ClientStage::ReadGidMap;
                            ClientAction::ReadMap {
                                file: MapFile::GidMap,
                                path: proc_path(child, MapFile::GidMap.name()),
                            }
                        } else {
                            self.stage = ClientStage::WriteMaps;
                            ClientAction::WriteMaps {
                                child,
                                uid: self.request.requested_uid,
                                gid: self.request.requested_gid,
                                groups: self.peer_groups.clone(),
                                needs_setgroups: self.request.needs_setgroups,
                            }
                        }
                    },
                }
            },
            ClientEvent::Administrators { admin_gid, allowed_uids } => {
                self.gate(admin_gid, allowed_uids.as_slice())
            },
            ClientEvent::Link(Err(reason)) => {
                let of_init = self.stage == ClientStage::ReadInitNamespace;
                self.refuse(Refusal::NamespaceUnreadable { of_init, reason })
            },
            ClientEvent::Link(Ok(ns)) => {
                if self.stage == ClientStage::ReadChildNamespace {
                    self.child_namespace = ns;
                    self.stage = ClientStage::ReadInitNamespace;
                    ClientAction::ReadLink { path: proc_path(1, "ns/user") }
                } else {
                    self.init_namespace = Ghost(ns@);
                    match verify_in_userns(child, self.child_namespace.as_slice(), ns.as_slice()) {
                        Err(s) => self.refuse(Refusal::SameNamespace(s)),
                        Ok(()) => {
                            self.stage = ClientStage::ReadUidMap;
                            ClientAction::ReadMap {
                                file: MapFile::UidMap,
                                path: proc_path(child, MapFile::UidMap.name()),
                            }
                        },
                    }
                }
            },
            ClientEvent::Mapped(Err(reason)) => self.fail(HandlerError::MappingFailed { reason }),
            ClientEvent::Mapped(Ok(())) => {
                self.stage = ClientStage::Replying;
                ClientAction::Send(Reply::Grant)
            },
            ClientEvent::Sent(Err(reason)) => self.fail(HandlerError::SendFailed { reason }),
            ClientEvent::Sent(Ok(())) => {
                self.stage = ClientStage::Finished;
                ClientAction::Finish(Ok(()))
            },
        }
    }
}

/// The maps are written only after every check has passed: the child is the
/// requester's to map, the groups are those of the requester's `status`, the
/// requester is admitted and asks only for capabilities it may have, the child
/// has a user namespace of its own, and neither of its maps is written yet.
pub proof fn lemma_maps_follow_checks(s: ClientSession)
    requires
        s.wf(),
        s.stage == ClientStage::WriteMaps,
    ensures
        ownership(
            s.child_info@,
            s.request.child,
            s.peer.pid,
            s.peer.uid,
            s.peer.gid,
            s.request.requested_uid,
            s.request.requested_gid,
        ) is Ok,
        s.peer.uid == 0 || (s.request.requested_uid == s.peer.uid && s.request.requested_gid
            == s.peer.gid),
        s.peer_groups@ == status_groups(s.status@),
        admission(s.peer.uid, s.peer_groups@, s.administrators@.0, s.administrators@.1) is Ok,
        capabilities_pass(s.peer, s.request),
        s.child_namespace@ != s.init_namespace@,
        trim(s.uid_map_seen@).len() == 0,
        trim(s.gid_map_seen@).len() == 0,
{
}

/// Whoever asks, root or not, the maps are written for the requested child
/// with the requested user and group ids, the requester's groups and the
/// requested `setgroups` choice, and only from the last map check.
pub proof fn lemma_write_maps_carries_request(
    s: ClientSession,
    e: ClientEvent,
    new: ClientSession,
    a: ClientAction,
)
    requires
        event_fits(s.stage, e),
        s.advance_fits(e, new, a),
    ensures
        a matches ClientAction::WriteMaps { child, uid, gid, groups, needs_setgroups } ==> (
        s.stage == ClientStage::ReadGidMap && new.stage == ClientStage::WriteMaps && child
            == s.request.child && uid == s.request.requested_uid && gid
            == s.request.requested_gid && groups@ == s.peer_groups@ && needs_setgroups
            == s.request.needs_setgroups),
{
}

/// A connection gets at most one reply: a reply is sent only on entering
/// `Replying` from another stage, the only step from `Replying` ends the
/// session, and a finished session takes no outcome.
pub proof fn lemma_one_reply(s: ClientSession, e: ClientEvent, new: ClientSession, a: ClientAction)
    requires
        event_fits(s.stage, e),
        s.advance_fits(e, new, a),
    ensures
        a is Send ==> new.stage == ClientStage::Replying && s.stage != ClientStage::Replying,
        s.stage == ClientStage::Replying ==> a is Finish && new.stage == ClientStage::Finished,
        !event_fits(ClientStage::Finished, e),
{
}

} // verus!
