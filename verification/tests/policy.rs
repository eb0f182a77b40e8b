use wrappa_core::kernel::{is_superuser, require_kernel_version, strtocstr, KernelError};
use wrappa_core::policy::{
    is_admitted, is_allowed_cap, is_allowed_cap_su, is_binary_allowed, AdmissionError,
};

#[test]
fn allowed_capabilities() {
    for c in [2u8, 6, 7, 8] {
        assert!(is_allowed_cap(c));
        assert!(is_allowed_cap_su(c));
    }
    for c in [0u8, 1, 5, 21, 40] {
        assert!(!is_allowed_cap(c));
        assert!(!is_allowed_cap_su(c));
    }
}

#[test]
fn admission() {
    assert_eq!(is_admitted(0, &[], None, &[]), Ok(()));
    assert_eq!(is_admitted(1000, &[10, 20], Some(20), &[1000]), Ok(()));
    assert_eq!(is_admitted(1000, &[10], None, &[1000]), Err(AdmissionError::NoAdministratorGroup));
    assert_eq!(is_admitted(1000, &[10], Some(20), &[1000]), Err(AdmissionError::NotAllowed { uid: 1000 }));
    assert_eq!(is_admitted(1000, &[20], Some(20), &[0]), Err(AdmissionError::NotAllowed { uid: 1000 }));
}

#[test]
fn binaries() {
    assert!(is_binary_allowed("/usr/bin/.su.unwrapped", Some(0o100755)));
    assert!(is_binary_allowed("/usr/bin/.doas.unwrapped", Some(0o755)));
    assert!(!is_binary_allowed("/usr/bin/.sudo.unwrapped", Some(0o104755)));
    assert!(!is_binary_allowed("/usr/bin/.sudo.unwrapped", Some(0o102755)));
    assert!(!is_binary_allowed("/usr/bin/.su.unwrapped", None));
    assert!(!is_binary_allowed("/usr/bin/su", Some(0o755)));
}

#[test]
fn kernel_release() {
    // The minor version is read from the first field too, so a 6.x release
    // compares as 6.6.
    assert!(matches!(require_kernel_version("6.13.0-arch1-1"), Err(KernelError::TooOld { major: 6, minor: 6 })));
    assert!(matches!(require_kernel_version("6.14"), Err(KernelError::TooOld { major: 6, minor: 6 })));
    assert!(require_kernel_version("7.0.1").is_ok());
    assert!(require_kernel_version("12").is_ok());
    assert!(matches!(require_kernel_version("5.15.0"), Err(KernelError::TooOld { major: 5, minor: 5 })));
    assert!(matches!(require_kernel_version("6.13-rc1"), Err(KernelError::TooOld { major: 6, minor: 6 })));
    match require_kernel_version("linux-6.1") {
        Err(KernelError::BadNumber { text }) => assert_eq!(text, "linux-6"),
        other => panic!("unexpected {:?}", other),
    }
    assert!(matches!(require_kernel_version(""), Err(KernelError::BadNumber { .. })));
}

#[test]
fn c_strings() {
    assert_eq!(strtocstr("abc"), b"abc".to_vec());
    assert_eq!(strtocstr("ab\0cd"), b"ab".to_vec());
    assert_eq!(strtocstr(""), Vec::<u8>::new());
    assert_eq!(strtocstr("é"), "é".as_bytes().to_vec());
}

#[test]
fn superuser() {
    assert!(is_superuser(0, 0, 0));
    assert!(!is_superuser(0, 1, 0));
    assert!(!is_superuser(0, 0, 1000));
}
