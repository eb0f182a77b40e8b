use wrappa_core::auth::{OwnershipError, PidFdInfo, PolicyError};
use wrappa_core::connection::WrappaRequest;
use wrappa_core::handler::{
    handle_client, ClientAction, ClientEvent, ClientSession, ClientStage, HandlerError, Peer,
    Refusal, Reply,
};
use wrappa_core::idmap::MapFile;

fn request(uid: u32, gid: u32, caps: &str) -> WrappaRequest {
    WrappaRequest {
        child: 60,
        requested_gid: gid,
        requested_uid: uid,
        requested_capabilities: caps.to_string(),
        needs_setgroups: false,
    }
}

fn child_info(ppid: u32, uid: u32, gid: u32) -> PidFdInfo {
    PidFdInfo { ppid, ruid: uid, rgid: gid, ..Default::default() }
}

fn step(s: &mut ClientSession, e: ClientEvent) -> ClientAction {
    assert!(s.accepts(&e));
    s.advance(e)
}

/// Runs a session up to the namespace checks.
fn up_to_namespaces(peer: Peer, req: WrappaRequest) -> ClientSession {
    let (mut s, a) = handle_client(peer, req);
    assert!(matches!(a, ClientAction::OpenPidfd { pid: 60 }));
    let a = step(&mut s, ClientEvent::Opened(Ok(7)));
    assert!(matches!(a, ClientAction::OpenPidfd { pid } if pid == peer.pid));
    let a = step(&mut s, ClientEvent::Opened(Ok(8)));
    assert!(matches!(a, ClientAction::QueryInfo { pidfd: 7 }));
    let a = step(&mut s, ClientEvent::ChildInfo(Ok(child_info(peer.pid as u32, peer.uid, peer.gid))));
    assert!(matches!(a, ClientAction::ReadStatus { dirfd } if dirfd == peer.pid));
    let a = step(
        &mut s,
        ClientEvent::Status { text: "Name:\tx\nGroups:\t10 1000\n".to_string(), read_error: None },
    );
    let a = if peer.uid != 0 {
        assert!(matches!(a, ClientAction::LookupAdministrators));
        step(&mut s, ClientEvent::Administrators { admin_gid: Some(10), allowed_uids: vec![0, 1000] })
    } else {
        a
    };
    match a {
        ClientAction::ReadLink { path } => assert_eq!(path, "/proc/60/ns/user"),
        other => panic!("{:?}", other),
    }
    s
}

#[test]
fn granted_request_runs_every_check_then_maps() {
    let peer = Peer { uid: 1000, gid: 1000, pid: 50 };
    let mut s = up_to_namespaces(peer, request(1000, 1000, "setuid"));
    assert_eq!(s.peer_groups, vec![10, 1000]);
    match step(&mut s, ClientEvent::Link(Ok(b"user:[1]".to_vec()))) {
        ClientAction::ReadLink { path } => assert_eq!(path, "/proc/1/ns/user"),
        other => panic!("{:?}", other),
    }
    match step(&mut s, ClientEvent::Link(Ok(b"user:[2]".to_vec()))) {
        ClientAction::ReadMap { file, path } => {
            assert_eq!(file, MapFile::UidMap);
            assert_eq!(path, "/proc/60/uid_map");
        }
        other => panic!("{:?}", other),
    }
    match step(&mut s, ClientEvent::Text(Ok(String::new()))) {
        ClientAction::ReadMap { file, path } => {
            assert_eq!(file, MapFile::GidMap);
            assert_eq!(path, "/proc/60/gid_map");
        }
        other => panic!("{:?}", other),
    }
    match step(&mut s, ClientEvent::Text(Ok("\n".to_string()))) {
        ClientAction::WriteMaps { child, uid, gid, groups, needs_setgroups } => {
            assert_eq!((child, uid, gid), (60, 1000, 1000));
            assert_eq!(groups, vec![10, 1000]);
            assert!(!needs_setgroups);
        }
        other => panic!("{:?}", other),
    }
    assert!(matches!(step(&mut s, ClientEvent::Mapped(Ok(()))), ClientAction::Send(Reply::Grant)));
    assert!(matches!(step(&mut s, ClientEvent::Sent(Ok(()))), ClientAction::Finish(Ok(()))));
    assert_eq!(s.stage, ClientStage::Finished);
}

#[test]
fn root_skips_the_lookups_but_not_the_capability_names() {
    let peer = Peer { uid: 0, gid: 0, pid: 50 };
    let s = up_to_namespaces(peer, request(5, 5, "sys_admin"));
    assert_eq!(s.stage, ClientStage::ReadChildNamespace);

    let (mut s, _) = handle_client(peer, request(5, 5, "frob"));
    step(&mut s, ClientEvent::Opened(Ok(7)));
    step(&mut s, ClientEvent::Opened(Ok(8)));
    step(&mut s, ClientEvent::ChildInfo(Ok(child_info(50, 0, 0))));
    match step(&mut s, ClientEvent::Status { text: "Groups:\n".to_string(), read_error: None }) {
        ClientAction::Send(Reply::Refuse(Refusal::BadCapabilities(u))) => assert_eq!(u.name, "CAP_FROB"),
        other => panic!("{:?}", other),
    }
}

#[test]
fn pidfd_failures_end_without_reply() {
    let peer = Peer { uid: 1000, gid: 1000, pid: 50 };
    let (mut s, _) = handle_client(peer, request(1000, 1000, ""));
    match step(&mut s, ClientEvent::Opened(Err("no such process".to_string()))) {
        ClientAction::Finish(Err(HandlerError::NoPidfd { pid, reason })) => {
            assert_eq!(pid, 60);
            assert_eq!(reason, "no such process");
        }
        other => panic!("{:?}", other),
    }
    let (mut s, _) = handle_client(peer, request(1000, 1000, ""));
    step(&mut s, ClientEvent::Opened(Ok(3)));
    assert!(matches!(
        step(&mut s, ClientEvent::Opened(Err("x".to_string()))),
        ClientAction::Finish(Err(HandlerError::NoPidfd { pid: 50, .. }))
    ));
}

#[test]
fn foreign_child_is_refused() {
    let peer = Peer { uid: 1000, gid: 1000, pid: 50 };
    let (mut s, _) = handle_client(peer, request(1000, 1000, ""));
    step(&mut s, ClientEvent::Opened(Ok(7)));
    step(&mut s, ClientEvent::Opened(Ok(8)));
    match step(&mut s, ClientEvent::ChildInfo(Ok(child_info(49, 1000, 1000)))) {
        ClientAction::Send(Reply::Refuse(Refusal::Ownership(o))) => {
            assert_eq!(o, OwnershipError::ForeignParent { child: 60, parent: 49, requester: 50 })
        }
        other => panic!("{:?}", other),
    }
    assert!(matches!(
        step(&mut s, ClientEvent::Sent(Err("broken pipe".to_string()))),
        ClientAction::Finish(Err(HandlerError::SendFailed { .. }))
    ));
}

#[test]
fn forbidden_capability_is_refused() {
    let peer = Peer { uid: 1000, gid: 1000, pid: 50 };
    let (mut s, _) = handle_client(peer, request(1000, 1000, "chown"));
    step(&mut s, ClientEvent::Opened(Ok(7)));
    step(&mut s, ClientEvent::Opened(Ok(8)));
    step(&mut s, ClientEvent::ChildInfo(Ok(child_info(50, 1000, 1000))));
    step(&mut s, ClientEvent::Status { text: "Groups:\t10\n".to_string(), read_error: None });
    match step(&mut s, ClientEvent::Administrators { admin_gid: Some(10), allowed_uids: vec![1000] }) {
        ClientAction::Send(Reply::Refuse(Refusal::Policy(PolicyError::NotPermitted { cap }))) => {
            assert_eq!(cap, 0)
        }
        other => panic!("{:?}", other),
    }
}

#[test]
fn same_namespace_and_written_maps_are_refused() {
    let peer = Peer { uid: 0, gid: 0, pid: 50 };
    let mut s = up_to_namespaces(peer, request(0, 0, ""));
    step(&mut s, ClientEvent::Link(Ok(b"user:[1]".to_vec())));
    match step(&mut s, ClientEvent::Link(Ok(b"user:[1]".to_vec()))) {
        ClientAction::Send(Reply::Refuse(Refusal::SameNamespace(n))) => assert_eq!(n.child, 60),
        other => panic!("{:?}", other),
    }

    let mut s = up_to_namespaces(peer, request(0, 0, ""));
    step(&mut s, ClientEvent::Link(Ok(b"user:[1]".to_vec())));
    step(&mut s, ClientEvent::Link(Ok(b"user:[2]".to_vec())));
    match step(&mut s, ClientEvent::Text(Ok("0 0 1\n".to_string()))) {
        ClientAction::Send(Reply::Refuse(Refusal::AlreadyMapped(m))) => {
            assert_eq!(m.file, MapFile::UidMap);
            assert_eq!(m.content, "0 0 1");
        }
        other => panic!("{:?}", other),
    }

    let mut s = up_to_namespaces(peer, request(0, 0, ""));
    match step(&mut s, ClientEvent::Link(Err("denied".to_string()))) {
        ClientAction::Send(Reply::Refuse(Refusal::NamespaceUnreadable { of_init, .. })) => assert!(!of_init),
        other => panic!("{:?}", other),
    }
}

#[test]
fn unreadable_groups_and_failed_mapping_end_without_reply() {
    let peer = Peer { uid: 0, gid: 0, pid: 50 };
    let (mut s, _) = handle_client(peer, request(0, 0, ""));
    step(&mut s, ClientEvent::Opened(Ok(7)));
    step(&mut s, ClientEvent::Opened(Ok(8)));
    step(&mut s, ClientEvent::ChildInfo(Ok(child_info(50, 0, 0))));
    assert!(matches!(
        step(&mut s, ClientEvent::Status { text: "Name:\tx\n".to_string(), read_error: Some("bad fd".to_string()) }),
        ClientAction::Finish(Err(HandlerError::NoGroups { .. }))
    ));

    let mut s = up_to_namespaces(peer, request(0, 0, ""));
    step(&mut s, ClientEvent::Link(Ok(b"a".to_vec())));
    step(&mut s, ClientEvent::Link(Ok(b"b".to_vec())));
    step(&mut s, ClientEvent::Text(Ok(String::new())));
    step(&mut s, ClientEvent::Text(Ok(String::new())));
    assert!(matches!(
        step(&mut s, ClientEvent::Mapped(Err("readback".to_string()))),
        ClientAction::Finish(Err(HandlerError::MappingFailed { .. }))
    ));
}

#[test]
fn mismatched_outcome_is_not_accepted() {
    let peer = Peer { uid: 0, gid: 0, pid: 50 };
    let (s, _) = handle_client(peer, request(0, 0, ""));
    assert!(!s.accepts(&ClientEvent::Sent(Ok(()))));
}

#[test]
fn groups_read_before_a_read_error_are_used() {
    let peer = Peer { uid: 0, gid: 0, pid: 50 };
    let (mut s, _) = handle_client(peer, request(0, 0, ""));
    step(&mut s, ClientEvent::Opened(Ok(7)));
    step(&mut s, ClientEvent::Opened(Ok(8)));
    step(&mut s, ClientEvent::ChildInfo(Ok(child_info(50, 0, 0))));
    let a = step(
        &mut s,
        ClientEvent::Status {
            text: "Groups:\t4 5\n".to_string(),
            read_error: Some("invalid UTF-8".to_string()),
        },
    );
    assert!(matches!(a, ClientAction::ReadLink { .. }));
    assert_eq!(s.peer_groups, vec![4, 5]);
    assert_eq!(s.child_pidfd, 7);
    assert_eq!(s.peer_pidfd, 8);
}

#[test]
fn groups_written_are_the_groups_read() {
    let peer = Peer { uid: 1000, gid: 1000, pid: 50 };
    let mut s = up_to_namespaces(peer, request(1000, 1000, ""));
    step(&mut s, ClientEvent::Link(Ok(b"user:[1]".to_vec())));
    assert_eq!(s.peer_groups, vec![10, 1000]);
    step(&mut s, ClientEvent::Link(Ok(b"user:[2]".to_vec())));
    assert_eq!(s.peer_groups, vec![10, 1000]);
    step(&mut s, ClientEvent::Text(Ok(String::new())));
    match step(&mut s, ClientEvent::Text(Ok(String::new()))) {
        ClientAction::WriteMaps { groups, .. } => assert_eq!(groups, vec![10, 1000]),
        other => panic!("{:?}", other),
    }
}
