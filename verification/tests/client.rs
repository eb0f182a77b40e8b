use wrappa_core::client::{stack_size, Args};
use wrappa_core::connection::{frame_message, message_payload, WrappaRequest};

fn args(uid: Option<u32>, gid: Option<u32>, program: &str) -> Args {
    Args {
        uid,
        gid,
        caps: "setuid".to_string(),
        setgroups: true,
        command: vec![program.to_string(), "-l".to_string()],
    }
}

#[test]
fn program_must_be_absolute() {
    assert!(args(None, None, "/usr/bin/.su.unwrapped").check_program().is_ok());
    assert_eq!(args(None, None, "su").check_program().unwrap_err().program, "su");
    assert!(args(None, None, "").check_program().is_err());
}

#[test]
fn request_uses_own_ids_by_default() {
    let r = args(None, Some(5), "/bin/x").into_request(42, 1000, 100);
    assert_eq!(r.child, 42);
    assert_eq!(r.requested_uid, 1000);
    assert_eq!(r.requested_gid, 5);
    assert_eq!(r.requested_capabilities, "setuid");
    assert!(r.needs_setgroups);
    let r = args(Some(0), None, "/bin/x").into_request(1, 1000, 100);
    assert_eq!(r.requested_uid, 0);
    assert_eq!(r.requested_gid, 100);
}

#[test]
fn stack_sizes() {
    assert_eq!(stack_size(8 * 1024 * 1024), 8 * 1024 * 1024);
    assert_eq!(stack_size(0), 0);
}

#[test]
fn framing() {
    assert_eq!(frame_message("{\"status\":\"Ok\"}"), "{\"status\":\"Ok\"}\n");
    assert_eq!(message_payload("  {\"a\":1}\r\n"), "{\"a\":1}");
    assert_eq!(message_payload(&frame_message("{}")), "{}");
}

#[test]
fn default_request() {
    let r = WrappaRequest::default();
    assert_eq!(r.child, 0);
    assert_eq!(r.requested_capabilities, "");
    assert!(!r.needs_setgroups);
}
