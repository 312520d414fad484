use drpc::ipc::{
    candidate_dirs, candidate_paths, decide_path, slot_file_name, BindScan, IpcServer,
    PathDecision, SLOTS_PER_DIR,
};

#[test]
fn directories_come_from_the_environment_then_tmp() {
    assert_eq!(candidate_dirs(None, None, None, None), vec!["/tmp"]);
    assert_eq!(
        candidate_dirs(Some("/run/user/1000"), None, Some(""), Some("/var/tmp")),
        vec!["/run/user/1000", "/var/tmp", "/tmp"]
    );
    assert_eq!(
        candidate_dirs(Some("a"), Some("b"), Some("c"), Some("d")),
        vec!["a", "b", "c", "d", "/tmp"]
    );
    assert_eq!(candidate_dirs(Some(""), Some(""), Some(""), Some("")), vec!["/tmp"]);
    assert_eq!(candidate_dirs(Some("/tmp"), None, None, None), vec!["/tmp", "/tmp"]);
}

#[test]
fn ten_files_are_tried_in_each_directory() {
    assert_eq!(SLOTS_PER_DIR, 10);
    let paths = candidate_paths(&vec!["/run".to_string(), "/tmp".to_string()]);
    assert_eq!(paths.len(), 20);
    for n in 0..10 {
        assert_eq!(slot_file_name(n), format!("discord-ipc-{n}"));
        assert_eq!(paths[n], format!("/run/discord-ipc-{n}"));
        assert_eq!(paths[10 + n], format!("/tmp/discord-ipc-{n}"));
    }
    assert!(candidate_paths(&Vec::new()).is_empty());
}

#[test]
fn stale_files_are_reclaimed_and_live_ones_skipped() {
    assert_eq!(decide_path(false, false), PathDecision::Bind);
    assert_eq!(decide_path(false, true), PathDecision::Bind);
    assert_eq!(decide_path(true, true), PathDecision::Skip);
    assert_eq!(decide_path(true, false), PathDecision::Reclaim);
}

#[test]
fn walk_goes_through_every_path_once() {
    let mut scan = BindScan::new(&vec!["/a".to_string()]);
    let mut seen = Vec::new();
    while let Some(path) = scan.current() {
        seen.push(path.to_string());
        scan.advance();
    }
    let expected: Vec<String> = (0..10).map(|n| format!("/a/discord-ipc-{n}")).collect();
    assert_eq!(seen, expected);
    scan.advance();
    assert!(scan.current().is_none());
    assert!(BindScan::new(&Vec::new()).current().is_none());
}

#[test]
fn server_remembers_its_path() {
    let server = IpcServer::bound_at("/tmp/discord-ipc-3".to_string());
    assert_eq!(server.path(), "/tmp/discord-ipc-3");
}

#[test]
fn bind_failure_carries_the_cause() {
    let cause = std::io::Error::new(std::io::ErrorKind::AddrNotAvailable, "no ipc path");
    let err = drpc::ipc::IpcServerError::Io(cause);
    match &err {
        drpc::ipc::IpcServerError::Io(e) => {
            assert_eq!(e.kind(), std::io::ErrorKind::AddrNotAvailable);
        }
    }
    assert!(format!("{err:?}").contains("no ipc path"));
}
