use wrappa_core::idmap::{
    gid_map_content, parse_map, proc_path, setgroups_content, uid_map_content,
    verify_map_written, write_idmaps, IdmapAction, IdmapError, IdmapStage, MapFile,
    ReadbackError,
};
use wrappa_core::text::chars_of;

#[test]
fn proc_paths() {
    assert_eq!(proc_path(42, "uid_map"), "/proc/42/uid_map");
    assert_eq!(proc_path(1, "ns/user"), "/proc/1/ns/user");
    assert_eq!(proc_path(-3, "gid_map"), "/proc/-3/gid_map");
    assert_eq!(proc_path(i32::MIN, "x"), format!("/proc/{}/x", i32::MIN));
}

#[test]
fn map_contents() {
    assert_eq!(setgroups_content(true), "allow");
    assert_eq!(setgroups_content(false), "deny");
    assert_eq!(uid_map_content(1000), "0 0 1\n1000 1000 1\n");
    assert_eq!(uid_map_content(0), "0 0 1\n0 0 1\n");
}

#[test]
fn gid_map_lists_each_other_group_once_in_first_order() {
    assert_eq!(
        gid_map_content(100, &[10, 100, 10, 20, 100, 20, 5]),
        "0 0 1\n100 100 1\n10 10 1\n20 20 1\n5 5 1\n"
    );
    assert_eq!(gid_map_content(7, &[]), "0 0 1\n7 7 1\n");
}

#[test]
fn parse_map_reads_first_three_numbers() {
    assert_eq!(parse_map(&chars_of("0 0 1\n1000 1000 1\n")), Some((0, 0, 1)));
    assert_eq!(
        parse_map(&chars_of("         0          0          1\n")),
        Some((0, 0, 1))
    );
    assert_eq!(parse_map(&chars_of("0 0")), None);
    assert_eq!(parse_map(&chars_of("0 x 1")), None);
    assert_eq!(parse_map(&chars_of("")), None);
}

#[test]
fn readback_accepts_kernel_formatting() {
    let expected = uid_map_content(1000);
    let actual = "         0          0          1\n      1000       1000          1\n".to_string();
    assert!(verify_map_written(5, MapFile::UidMap, &expected, &actual).is_ok());
    assert!(verify_map_written(5, MapFile::UidMap, &expected, &expected).is_ok());
}

#[test]
fn readback_errors() {
    let bad = "nonsense".to_string();
    let good = uid_map_content(1);
    match verify_map_written(5, MapFile::UidMap, &bad, &good) {
        Err(ReadbackError::ExpectedUnparsable { file, expected }) => {
            assert_eq!(file, MapFile::UidMap);
            assert_eq!(expected, "nonsense");
        }
        other => panic!("{:?}", other),
    }
    match verify_map_written(5, MapFile::GidMap, &good, &bad) {
        Err(ReadbackError::ActualUnparsable { file, actual, expected }) => {
            assert_eq!(file, MapFile::GidMap);
            assert_eq!(actual, "nonsense");
            assert_eq!(expected, good);
        }
        other => panic!("{:?}", other),
    }
    let other = " 1 0 1 \n".to_string();
    match verify_map_written(5, MapFile::UidMap, &good, &other) {
        Err(ReadbackError::Mismatch { path, wrote, read }) => {
            assert_eq!(path, "/proc/5/uid_map");
            assert_eq!(wrote, "0 0 1\n1 1 1");
            assert_eq!(read, "1 0 1");
        }
        other => panic!("{:?}", other),
    }
}

fn expect_write(a: &IdmapAction, f: MapFile, p: &str, c: &str) {
    match a {
        IdmapAction::Write { file, path, content } => {
            assert_eq!(*file, f);
            assert_eq!(path, p);
            assert_eq!(content, c);
        }
        other => panic!("{:?}", other),
    }
}

fn expect_read(a: &IdmapAction, f: MapFile, p: &str) {
    match a {
        IdmapAction::Read { file, path } => {
            assert_eq!(*file, f);
            assert_eq!(path, p);
        }
        other => panic!("{:?}", other),
    }
}

#[test]
fn session_that_reads_back_what_it_wrote_succeeds() {
    let (mut s, a) = write_idmaps(77, 1000, 1000, &[10, 1000, 20], true);
    expect_write(&a, MapFile::Setgroups, "/proc/77/setgroups", "allow");
    let a = s.advance(Ok(String::new()));
    expect_write(&a, MapFile::UidMap, "/proc/77/uid_map", "0 0 1\n1000 1000 1\n");
    let a = s.advance(Ok(String::new()));
    expect_read(&a, MapFile::UidMap, "/proc/77/uid_map");
    let a = s.advance(Ok("         0          0          1\n      1000       1000          1\n".to_string()));
    expect_write(&a, MapFile::GidMap, "/proc/77/gid_map", "0 0 1\n1000 1000 1\n10 10 1\n20 20 1\n");
    let a = s.advance(Ok(String::new()));
    expect_read(&a, MapFile::GidMap, "/proc/77/gid_map");
    let text = s.gid_map.clone();
    let a = s.advance(Ok(text));
    assert!(matches!(a, IdmapAction::Done(Ok(()))));
    assert!(s.is_finished());
}

#[test]
fn session_stops_at_a_failed_write() {
    let (mut s, _) = write_idmaps(9, 1, 1, &[], false);
    assert_eq!(s.setgroups, "deny");
    let a = s.advance(Ok(String::new()));
    expect_write(&a, MapFile::UidMap, "/proc/9/uid_map", "0 0 1\n1 1 1\n");
    match s.advance(Err("permission denied".to_string())) {
        IdmapAction::Done(Err(IdmapError::WriteFailed { file, path, reason })) => {
            assert_eq!(file, MapFile::UidMap);
            assert_eq!(path, "/proc/9/uid_map");
            assert_eq!(reason, "permission denied");
        }
        other => panic!("{:?}", other),
    }
    assert_eq!(s.stage, IdmapStage::Finished);
}

#[test]
fn session_stops_at_a_failed_setgroups_write() {
    let (mut s, _) = write_idmaps(9, 1, 1, &[], false);
    match s.advance(Err("gone".to_string())) {
        IdmapAction::Done(Err(IdmapError::WriteFailed { file, path, .. })) => {
            assert_eq!(file, MapFile::Setgroups);
            assert_eq!(path, "/proc/9/setgroups");
        }
        other => panic!("{:?}", other),
    }
}

#[test]
fn session_stops_at_a_failed_read_or_a_wrong_map() {
    let (mut s, _) = write_idmaps(9, 1, 2, &[], false);
    s.advance(Ok(String::new()));
    s.advance(Ok(String::new()));
    match s.advance(Err("eio".to_string())) {
        IdmapAction::Done(Err(IdmapError::ReadFailed { file, path, reason })) => {
            assert_eq!(file, MapFile::UidMap);
            assert_eq!(path, "/proc/9/uid_map");
            assert_eq!(reason, "eio");
        }
        other => panic!("{:?}", other),
    }

    let (mut s, _) = write_idmaps(9, 1, 2, &[], false);
    s.advance(Ok(String::new()));
    s.advance(Ok(String::new()));
    s.advance(Ok("0 0 1\n1 1 1\n".to_string()));
    s.advance(Ok(String::new()));
    match s.advance(Ok("5 5 1\n".to_string())) {
        IdmapAction::Done(Err(IdmapError::Unverified {
            file,
            cause: ReadbackError::Mismatch { path, .. },
        })) => {
            assert_eq!(file, MapFile::GidMap);
            assert_eq!(path, "/proc/9/gid_map");
        }
        other => panic!("{:?}", other),
    }
}
