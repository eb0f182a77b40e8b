use wrappa_core::auth::{
    capability_name_of, capability_plan, check_policy, forbidden_capability, parse_caps, read_peer_groups, set_capabilities,
    validate_child_ownership, verify_in_userns, verify_not_mapped, CapChange, CapSet,
    OwnershipError, PidFdInfo, PolicyError,
};
use wrappa_core::connection::WrappaRequest;
use wrappa_core::idmap::MapFile;
use wrappa_core::policy::AdmissionError;

fn info(ppid: u32, ruid: u32, rgid: u32) -> PidFdInfo {
    PidFdInfo { ppid, ruid, rgid, ..Default::default() }
}

#[test]
fn ownership_of_own_child_passes() {
    assert_eq!(validate_child_ownership(&info(50, 1000, 1000), 60, 50, 1000, 1000, 1000, 1000), Ok(()));
    // root may ask for any ids
    assert_eq!(validate_child_ownership(&info(50, 0, 0), 60, 50, 0, 0, 1234, 99), Ok(()));
}

#[test]
fn ownership_errors() {
    assert_eq!(
        validate_child_ownership(&info(0, 1000, 1000), 60, 50, 1000, 1000, 1000, 1000),
        Err(OwnershipError::NoParent { child: 60 })
    );
    assert_eq!(
        validate_child_ownership(&info(51, 1000, 1000), 60, 50, 1000, 1000, 1000, 1000),
        Err(OwnershipError::ForeignParent { child: 60, parent: 51, requester: 50 })
    );
    assert_eq!(
        validate_child_ownership(&info(50, 1001, 1000), 60, 50, 1000, 1000, 1000, 1000),
        Err(OwnershipError::ForeignOwner { child: 60, uid: 1001, gid: 1000, peer_uid: 1000, peer_gid: 1000 })
    );
    assert_eq!(
        validate_child_ownership(&info(50, 1000, 1000), 60, 50, 1000, 1000, 0, 1000),
        Err(OwnershipError::ForeignUid { peer_uid: 1000, requested_uid: 0 })
    );
    assert_eq!(
        validate_child_ownership(&info(50, 1000, 1000), 60, 50, 1000, 1000, 1000, 0),
        Err(OwnershipError::ForeignGid { peer_gid: 1000, requested_gid: 0 })
    );
}

#[test]
fn negative_requester_pid_compares_as_u32() {
    let ppid = (-2i32) as u32;
    assert_eq!(validate_child_ownership(&info(ppid, 5, 5), 60, -2, 5, 5, 5, 5), Ok(()));
}

#[test]
fn not_mapped_checks() {
    assert!(verify_not_mapped(3, MapFile::UidMap, "").is_ok());
    assert!(verify_not_mapped(3, MapFile::UidMap, " \n\t").is_ok());
    let e = verify_not_mapped(3, MapFile::GidMap, "  0 0 1\n").unwrap_err();
    assert_eq!(e.child, 3);
    assert_eq!(e.file, MapFile::GidMap);
    assert_eq!(e.content, "0 0 1");
}

#[test]
fn peer_groups_from_status() {
    let status = "Name:\tbash\nUid:\t1000\t1000\t1000\t1000\nGroups:\t10 998 wheel 1000 \nNgid:\t0\n";
    assert_eq!(read_peer_groups(status, None), Ok(vec![10, 998, 1000]));
    assert_eq!(read_peer_groups("Name:\tx\n", None), Ok(Vec::<u32>::new()));
    assert_eq!(read_peer_groups("Groups:\n", None), Ok(Vec::<u32>::new()));
    assert_eq!(read_peer_groups("Groups: 1\r\nGroups: 2\n", None), Ok(vec![1]));
    assert_eq!(read_peer_groups(" Groups: 1\n", None), Ok(Vec::<u32>::new()));
}

#[test]
fn peer_groups_after_a_read_error() {
    assert_eq!(read_peer_groups("Groups:\t3\n", Some("bad".to_string())), Ok(vec![3]));
    assert_eq!(
        read_peer_groups("Name:\tx\n", Some("bad".to_string())),
        Err("bad".to_string())
    );
}

#[test]
fn capability_names_and_numbers() {
    assert_eq!(capability_name_of("SETUID"), "CAP_SETUID");
    assert_eq!(capability_name_of("CAP_NET_ADMIN"), "CAP_NET_ADMIN");
    assert_eq!(capability_name_of(""), "CAP_");
    assert_eq!(forbidden_capability(&[7, 6, 2, 8], false), None);
    assert_eq!(forbidden_capability(&[7, 12, 0], false), Some(12));
    assert_eq!(forbidden_capability(&[21], true), Some(21));
    assert_eq!(forbidden_capability(&[], true), None);
}

#[test]
fn userns_checks() {
    assert!(verify_in_userns(4, b"user:[4026531837]", b"user:[4026532000]").is_ok());
    let e = verify_in_userns(4, b"user:[4026531837]", b"user:[4026531837]").unwrap_err();
    assert_eq!(e.child, 4);
    assert_eq!(e.namespace, b"user:[4026531837]".to_vec());
}

#[test]
fn parse_caps_names() {
    assert_eq!(parse_caps("setuid").unwrap(), vec![7]);
    assert_eq!(parse_caps(" chown , CAP_KILL,dac_read_search ").unwrap(), vec![0, 5, 2]);
    assert_eq!(parse_caps("Cap_SetGid").unwrap(), vec![6]);
    assert_eq!(parse_caps("").unwrap(), Vec::<u8>::new());
    assert_eq!(parse_caps("  \t").unwrap(), Vec::<u8>::new());
    assert_eq!(parse_caps("checkpoint_restore").unwrap(), vec![40]);
}

#[test]
fn parse_caps_ignores_ascii_case() {
    assert_eq!(parse_caps("SETUID,Chown,cap_KILL").unwrap(), parse_caps("setuid,chown,cap_kill").unwrap());
    assert_eq!(parse_caps("NOPE").unwrap_err().name, parse_caps("nope").unwrap_err().name);
}

#[test]
fn parse_caps_unknown_names() {
    assert_eq!(parse_caps("bogus").unwrap_err().name, "CAP_BOGUS");
    assert_eq!(parse_caps("setuid,").unwrap_err().name, "CAP_");
    assert_eq!(parse_caps("setuid,nope,alsonope").unwrap_err().name, "CAP_NOPE");
}

fn request(caps: &str, needs_setgroups: bool) -> WrappaRequest {
    WrappaRequest {
        child: 60,
        requested_gid: 1000,
        requested_uid: 1000,
        requested_capabilities: caps.to_string(),
        needs_setgroups,
    }
}

#[test]
fn policy_admits_root_whatever_it_asks() {
    assert!(check_policy(0, &[], &request("bogus,sys_admin", false), None, &[]).is_ok());
}

#[test]
fn policy_admits_allowed_admin_with_allowed_caps() {
    assert!(check_policy(1000, &[10], &request("setuid,setgid", false), Some(10), &[0, 1000]).is_ok());
    assert!(check_policy(1000, &[10], &request("setpcap", true), Some(10), &[1000]).is_ok());
    assert!(check_policy(1000, &[10], &request("", false), Some(10), &[1000]).is_ok());
}

#[test]
fn policy_refusals() {
    assert!(matches!(
        check_policy(1000, &[10], &request("setuid", false), None, &[1000]),
        Err(PolicyError::Admission(AdmissionError::NoAdministratorGroup))
    ));
    assert!(matches!(
        check_policy(1000, &[11], &request("setuid", false), Some(10), &[1000]),
        Err(PolicyError::Admission(AdmissionError::NotAllowed { uid: 1000 }))
    ));
    assert!(matches!(
        check_policy(1000, &[10], &request("setuid", false), Some(10), &[1001]),
        Err(PolicyError::Admission(AdmissionError::NotAllowed { uid: 1000 }))
    ));
    match check_policy(1000, &[10], &request("setuid,frob", false), Some(10), &[1000]) {
        Err(PolicyError::UnknownCapability(u)) => assert_eq!(u.name, "CAP_FROB"),
        other => panic!("{:?}", other),
    }
    assert!(matches!(
        check_policy(1000, &[10], &request("setuid,sys_admin,chown", false), Some(10), &[1000]),
        Err(PolicyError::NotPermitted { cap: 21 })
    ));
    assert!(matches!(
        check_policy(1000, &[10], &request("chown", true), Some(10), &[1000]),
        Err(PolicyError::NotPermitted { cap: 0 })
    ));
}

#[test]
fn plan_grants_wanted_and_drops_the_rest() {
    let plan = capability_plan(&[7], &[6, 7]);
    assert_eq!(
        plan,
        vec![
            CapChange::Drop(CapSet::Permitted, 6),
            CapChange::Drop(CapSet::Effective, 6),
            CapChange::Drop(CapSet::Inheritable, 6),
            CapChange::Raise(CapSet::Effective, 7),
            CapChange::Raise(CapSet::Inheritable, 7),
        ]
    );
}

#[test]
fn set_capabilities_covers_every_capability() {
    let plan = set_capabilities(&request("setuid", false)).unwrap();
    assert_eq!(plan.len(), 40 + 41 * 2);
    for c in 0u8..=40 {
        if c == 7 {
            assert!(plan.contains(&CapChange::Raise(CapSet::Effective, c)));
            assert!(plan.contains(&CapChange::Raise(CapSet::Inheritable, c)));
            assert!(!plan.contains(&CapChange::Drop(CapSet::Permitted, c)));
        } else {
            assert!(plan.contains(&CapChange::Drop(CapSet::Permitted, c)));
            assert!(plan.contains(&CapChange::Drop(CapSet::Effective, c)));
            assert!(plan.contains(&CapChange::Drop(CapSet::Inheritable, c)));
        }
    }
    assert_eq!(set_capabilities(&request("nope", false)).unwrap_err().name, "CAP_NOPE");
}
