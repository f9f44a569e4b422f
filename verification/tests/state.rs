use panoptes::ebpf_types::{FileEvent as RawFileEvent, FileEventType};
use panoptes::errors::{FailureKind, ProcError, ReadFailure};
use panoptes::kernel::{extract_cwd_from_names, should_emit_event};
use panoptes::metrics::{BasicMetrics, DaemonMetrics, MetricsAggregator, MetricsSnapshot, WatcherMetrics};
use panoptes::procfs::{split_cmdline, ProcessInfo, ProcessResolver, ProcfsProcessResolver};
use panoptes::session::{Session, SessionError, SessionRegistry, SessionState};

#[test]
fn test_basic_metrics_creation() {
    let metrics = BasicMetrics::new("test-session");
    assert_eq!(metrics.name(), "test-session");
    assert_eq!(metrics.events_total(), 0);
    assert_eq!(metrics.errors_total(), 0);
}

#[test]
fn test_basic_metrics_recording() {
    let mut metrics = BasicMetrics::new("test");

    metrics.record_event();
    metrics.record_event();
    metrics.record_error();

    assert_eq!(metrics.events_total(), 2);
    assert_eq!(metrics.errors_total(), 1);
}

#[test]
fn test_basic_metrics_snapshot() {
    let mut metrics = BasicMetrics::new("test");
    metrics.record_event();
    metrics.record_error();

    let snapshot = metrics.snapshot();
    assert_eq!(snapshot.name, "test");
    assert_eq!(snapshot.events_total, 1);
    assert_eq!(snapshot.errors_total, 1);
}

#[test]
fn test_metrics_snapshot_with_custom() {
    let snapshot = MetricsSnapshot::new("test")
        .with_custom("watches_active", 5)
        .with_custom("events_by_type", 100);

    assert_eq!(snapshot.custom_value("watches_active"), Some(5));
    assert_eq!(snapshot.custom_value("events_by_type"), Some(100));
}

#[test]
fn snapshot_custom_overwrites() {
    let snapshot = MetricsSnapshot::new("test").with_custom("a", 1).with_custom("a", 2);
    assert_eq!(snapshot.custom_value("a"), Some(2));
    assert_eq!(snapshot.custom.len(), 1);
    assert_eq!(snapshot.custom_value("b"), None);
}

#[test]
fn test_aggregator_creation() {
    let agg: MetricsAggregator<BasicMetrics> = MetricsAggregator::new("node1");
    assert_eq!(agg.node_name(), "node1");
    assert_eq!(agg.active_sessions(), 0);
}

#[test]
fn test_aggregator_register_unregister() {
    let mut agg = MetricsAggregator::new("node1");
    agg.register(BasicMetrics::new("session1"));
    assert_eq!(agg.active_sessions(), 1);
    agg.register(BasicMetrics::new("session2"));
    assert_eq!(agg.active_sessions(), 2);
    agg.unregister("session1");
    assert_eq!(agg.active_sessions(), 1);
}

#[test]
fn test_aggregator_totals() {
    let mut agg: MetricsAggregator<BasicMetrics> = MetricsAggregator::new("node1");
    agg.record_event();
    agg.record_event();
    agg.record_error();
    let totals = agg.totals();
    assert_eq!(totals.events_total, 2);
    assert_eq!(totals.errors_total, 1);
    assert_eq!(totals.node_name, "node1");
}

#[test]
fn test_aggregator_collect_all() {
    let mut agg = MetricsAggregator::new("node1");
    let mut metrics1 = BasicMetrics::new("session1");
    metrics1.record_event();
    let mut metrics2 = BasicMetrics::new("session2");
    metrics2.record_event();
    metrics2.record_event();
    agg.register(metrics1);
    agg.register(metrics2);

    let snapshots = agg.collect_all();
    assert_eq!(snapshots.len(), 2);
    let total_events: u64 = snapshots.iter().map(|s| s.events_total).sum();
    assert_eq!(total_events, 3);
}

#[test]
fn test_aggregator_collect_filtered() {
    let mut agg = MetricsAggregator::new("node1");
    agg.register(BasicMetrics::new("watcher-foo"));
    agg.register(BasicMetrics::new("watcher-bar"));
    agg.register(BasicMetrics::new("other-baz"));

    let filtered = agg.collect_filtered(Some("watcher"));
    assert_eq!(filtered.len(), 2);

    let all = agg.collect_filtered(None);
    assert_eq!(all.len(), 3);
}

#[test]
fn test_watcher_metrics_creation() {
    let metrics = WatcherMetrics::new("test-watcher");
    assert_eq!(metrics.name(), "test-watcher");

    let snapshot = metrics.snapshot();
    assert_eq!(snapshot.events_total, 0);
    assert_eq!(snapshot.custom_value("watches_active"), Some(0));
}

#[test]
fn test_record_events_typed() {
    let mut metrics = WatcherMetrics::new("test");

    metrics.record_event_typed("create");
    metrics.record_event_typed("create");
    metrics.record_event_typed("modify");

    let snapshot = metrics.snapshot();
    assert_eq!(snapshot.events_total, 3);
    assert_eq!(snapshot.custom_value("create"), Some(2));
    assert_eq!(snapshot.custom_value("modify"), Some(1));
}

#[test]
fn test_watch_tracking() {
    let mut metrics = WatcherMetrics::new("test");

    metrics.record_watch_added();
    metrics.record_watch_added();
    metrics.record_watch_added();
    metrics.record_watch_removed();

    let snapshot = metrics.snapshot();
    assert_eq!(snapshot.custom_value("watches_active"), Some(2));
    assert_eq!(snapshot.custom_value("watches_created"), Some(3));
    assert_eq!(snapshot.custom_value("watches_removed"), Some(1));
}

#[test]
fn test_move_pair_tracking() {
    let mut metrics = WatcherMetrics::new("test");

    metrics.record_move_pair_matched();
    metrics.record_move_pair_matched();
    metrics.record_move_pair_timeout();

    let snapshot = metrics.snapshot();
    assert_eq!(snapshot.custom_value("move_pairs_matched"), Some(2));
    assert_eq!(snapshot.custom_value("move_pairs_timeout"), Some(1));
}

#[test]
fn test_queue_overflow() {
    let mut metrics = WatcherMetrics::new("test");

    metrics.record_queue_overflow();
    metrics.record_queue_overflow();

    let snapshot = metrics.snapshot();
    assert_eq!(snapshot.custom_value("queue_overflows"), Some(2));
    assert_eq!(snapshot.custom_value("overflow"), Some(2));
}

#[test]
fn test_reset() {
    let mut metrics = WatcherMetrics::new("test");

    metrics.record_event_typed("create");
    metrics.record_watch_added();
    metrics.record_error();

    metrics.reset();

    let snapshot = metrics.snapshot();
    assert_eq!(snapshot.events_total, 0);
    assert_eq!(snapshot.custom_value("watches_active"), Some(0));
    assert_eq!(snapshot.errors_total, 0);
}

#[test]
fn test_daemon_metrics_trait() {
    let mut metrics = WatcherMetrics::new("trait-test");
    assert_eq!(metrics.name(), "trait-test");
    metrics.record_event_typed("test");
    assert_eq!(metrics.events_total(), 1);
}

#[test]
fn watch_removal_wraps_like_the_counter() {
    let mut metrics = WatcherMetrics::new("test");
    metrics.record_watch_removed();
    assert_eq!(metrics.watches_active(), u64::MAX);
    metrics.set_watches_active(7);
    assert_eq!(metrics.watches_active(), 7);
}

struct TestState;

impl SessionState for TestState {
    type Config = ();
    type Event = ();
}

fn create_test_session(name: &str) -> Session<TestState, BasicMetrics> {
    Session::new(
        format!("{}:default:pod", name),
        name.to_string(),
        "default".to_string(),
        "node".to_string(),
        "pod".to_string(),
        Vec::new(),
        vec![1],
        false,
        BasicMetrics::new(name),
        TestState,
    )
}

#[test]
fn test_session_insert_and_get() {
    let mut registry = SessionRegistry::new(10);
    let session = create_test_session("test1");
    let key = session.id.clone();
    assert!(registry.insert(key.clone(), session).is_ok());
    let retrieved = registry.get(&key);
    assert!(retrieved.is_some());
    assert_eq!(retrieved.unwrap().name, "test1");
}

#[test]
fn test_session_duplicate_insert() {
    let mut registry = SessionRegistry::new(10);
    let session1 = create_test_session("test1");
    let key = session1.id.clone();
    registry.insert(key.clone(), session1).unwrap();
    let session2 = create_test_session("test1");
    let result = registry.insert(key.clone(), session2);
    assert!(matches!(result, Err(SessionError::AlreadyExists { .. })));
}

#[test]
fn test_session_max_reached() {
    let mut registry = SessionRegistry::new(2);
    let s1 = create_test_session("test1");
    registry.insert(s1.id.clone(), s1).unwrap();
    let s2 = create_test_session("test2");
    registry.insert(s2.id.clone(), s2).unwrap();
    let s3 = create_test_session("test3");
    let result = registry.insert(s3.id.clone(), s3);
    assert!(matches!(result, Err(SessionError::MaxSessionsReached { max: 2 })));
    assert!(!registry.has_capacity());
}

#[test]
fn test_session_remove() {
    let mut registry = SessionRegistry::new(10);
    let session = create_test_session("test1");
    let key = session.id.clone();
    assert!(session.is_running());
    registry.insert(key.clone(), session).unwrap();
    let removed = registry.remove(&key);
    assert!(removed.is_some());
    assert!(!removed.unwrap().is_running());
    assert!(!registry.has_session(&key));
    assert!(registry.remove(&key).is_none());
}

#[test]
fn test_session_count() {
    let mut registry = SessionRegistry::new(10);
    assert_eq!(registry.count(), 0);
    let s1 = create_test_session("test1");
    registry.insert(s1.id.clone(), s1).unwrap();
    assert_eq!(registry.count(), 1);
    let s2 = create_test_session("test2");
    registry.insert(s2.id.clone(), s2).unwrap();
    assert_eq!(registry.count(), 2);
    let mut keys = registry.keys();
    keys.sort();
    assert_eq!(keys, vec!["test1:default:pod", "test2:default:pod"]);
}

#[test]
fn test_session_lifecycle() {
    let mut session = create_test_session("test1");
    assert!(session.is_running());
    session.stop();
    assert!(!session.is_running());
}

#[test]
fn session_error_messages() {
    assert_eq!(
        SessionError::AlreadyExists { key: "k".to_string() }.message(),
        "session already exists: k"
    );
    assert_eq!(SessionError::MaxSessionsReached { max: 3 }.message(), "maximum sessions reached: 3");
}

#[test]
fn test_file_event_size() {
    assert!(core::mem::size_of::<RawFileEvent>() < 512);
}

#[test]
fn test_event_type_conversion() {
    assert_eq!(FileEventType::from_u32(1), Some(FileEventType::Create));
    assert_eq!(FileEventType::from_u32(2), Some(FileEventType::Modify));
    assert_eq!(FileEventType::from_u32(7), Some(FileEventType::Access));
    assert_eq!(FileEventType::from_u32(8), Some(FileEventType::OpenRead));
    assert_eq!(FileEventType::from_u32(99), None);
}

#[test]
fn test_fim_vs_access_events() {
    assert!(FileEventType::Create.is_fim_event());
    assert!(FileEventType::Modify.is_fim_event());
    assert!(!FileEventType::Access.is_fim_event());

    assert!(FileEventType::Access.is_access_event());
    assert!(FileEventType::OpenRead.is_access_event());
    assert!(FileEventType::OpenWrite.is_access_event());
    assert!(FileEventType::OpenWrite.is_fim_event());
}

#[test]
fn raw_event_strings() {
    let mut raw = RawFileEvent::zeroed();
    assert!(!raw.has_container_id());
    raw.container_id[..3].copy_from_slice(b"abc");
    raw.path[..4].copy_from_slice(b"/tmp");
    raw.event_type = 3;
    assert!(raw.has_container_id());
    assert_eq!(raw.container_id_str(), "abc");
    assert_eq!(raw.path_str(), "/tmp");
    assert_eq!(raw.comm_str(), "");
    assert_eq!(raw.event_type(), Some(FileEventType::Delete));
    assert_eq!(FileEventType::Delete.as_str(), "delete");
    assert_eq!(FileEventType::Delete.code(), 3);
}

fn stat(content: &str) -> Result<String, ReadFailure> {
    Ok(content.to_string())
}

#[test]
fn test_parse_stat_simple() {
    let resolver = ProcfsProcessResolver::with_proc_path("/tmp/proc".to_string());
    let (pid, comm, ppid) = resolver.parse_stat(1234, stat("1234 (bash) S 1 1234 1234 0 -1 4194304\n")).unwrap();
    assert_eq!(pid, 1234);
    assert_eq!(comm, "bash");
    assert_eq!(ppid, 1);
}

#[test]
fn test_parse_stat_comm_with_spaces() {
    let resolver = ProcfsProcessResolver::new();
    let (pid, comm, ppid) =
        resolver.parse_stat(1234, stat("1234 (Web Content) S 5678 1234 1234 0 -1 4194304\n")).unwrap();
    assert_eq!(pid, 1234);
    assert_eq!(comm, "Web Content");
    assert_eq!(ppid, 5678);
}

#[test]
fn test_parse_stat_comm_with_parentheses() {
    let resolver = ProcfsProcessResolver::new();
    let (pid, comm, ppid) =
        resolver.parse_stat(1234, stat("1234 (test (1)) S 5678 1234 1234 0 -1 4194304\n")).unwrap();
    assert_eq!(pid, 1234);
    assert_eq!(comm, "test (1)");
    assert_eq!(ppid, 5678);
}

#[test]
fn test_parse_status() {
    let resolver = ProcfsProcessResolver::new();
    let content = "Name:\tbash\nUmask:\t0022\nState:\tS (sleeping)\nUid:\t1000\t1000\t1000\t1000\nGid:\t1001\t1001\t1001\t1001\n";
    let (uid, gid) = resolver.parse_status(1234, stat(content)).unwrap();
    assert_eq!(uid, 1000);
    assert_eq!(gid, 1001);
}

#[test]
fn test_parse_status_root() {
    let resolver = ProcfsProcessResolver::new();
    let content = "Name:\tinit\nUid:\t0\t0\t0\t0\nGid:\t0\t0\t0\t0\n";
    let (uid, gid) = resolver.parse_status(1, stat(content)).unwrap();
    assert_eq!(uid, 0);
    assert_eq!(gid, 0);
}

#[test]
fn test_get_process_info_full() {
    let resolver = ProcfsProcessResolver::new();
    let info = resolver
        .get_process_info(
            1234,
            stat("1234 (myprocess) S 5678 1234 1234 0 -1 4194304\n"),
            stat("Name:\tmyprocess\nUid:\t1000\t1000\t1000\t1000\nGid:\t1001\t1001\t1001\t1001\n"),
            None,
            Some(b"myprocess\0--arg1\0--arg2\0".to_vec()),
            Some("/home/user/work".to_string()),
        )
        .unwrap();
    assert_eq!(info.pid, 1234);
    assert_eq!(info.ppid, 5678);
    assert_eq!(info.uid, 1000);
    assert_eq!(info.gid, 1001);
    assert_eq!(info.comm, "myprocess");
    assert_eq!(info.cmdline, vec!["myprocess", "--arg1", "--arg2"]);
    assert_eq!(info.cwd, "/home/user/work");
    assert_eq!(info.exe, "");
}

#[test]
fn test_read_cmdline() {
    assert_eq!(split_cmdline(&b"/usr/bin/bash\0-c\0echo hello\0".to_vec()), vec!["/usr/bin/bash", "-c", "echo hello"]);
}

#[test]
fn test_read_cmdline_empty() {
    assert!(split_cmdline(&Vec::new()).is_empty());
}

#[test]
fn test_process_not_found() {
    let resolver = ProcfsProcessResolver::with_proc_path("/nonexistent".to_string());
    let missing = ReadFailure { kind: FailureKind::NotFound, message: "No such file".to_string() };
    let result = resolver.get_process_info(99999, Err(missing), stat(""), None, None, None);
    assert!(matches!(result.unwrap_err(), ProcError::ProcessNotFound { pid: 99999 }));
}

#[test]
fn test_get_parent_pid() {
    let resolver = ProcfsProcessResolver::new();
    let ppid = resolver.get_parent_pid(1234, stat("1234 (test) S 5678 1234 1234 0 -1 4194304\n")).unwrap();
    assert_eq!(ppid, 5678);
}

#[test]
fn test_resolve_fd_path() {
    let resolver = ProcfsProcessResolver::new();
    let resolved = resolver.resolve_fd_path(1234, 3, Ok("/tmp/testfile.txt".to_string()), true).unwrap();
    assert_eq!(resolved, "/tmp/testfile.txt");
    assert_eq!(resolver.fd_path(1234, 3), "/proc/1234/fd/3");
}

#[test]
fn test_resolve_fd_path_not_found() {
    let resolver = ProcfsProcessResolver::new();
    let missing = ReadFailure { kind: FailureKind::NotFound, message: "No such file".to_string() };
    let result = resolver.resolve_fd_path(1234, 999, Err(missing), true);
    assert!(matches!(result, Err(ProcError::FdResolutionError { pid: 1234, fd: 999, .. })));
    let missing = ReadFailure { kind: FailureKind::NotFound, message: "No such file".to_string() };
    let result = resolver.resolve_fd_path(1234, 999, Err(missing), false);
    assert!(matches!(result, Err(ProcError::ProcessNotFound { pid: 1234 })));
}

#[test]
fn test_long_stat_line() {
    let resolver = ProcfsProcessResolver::new();
    let line = "1234 (bash) S 1 1234 1234 0 -1 4194304 1000 2000 3000 4000 100 200 0 0 20 0 1 0 12345678 123456789 1000 18446744073709551615 4194304 4238788 140736466511168 0 0 0 65536 3686404 1266761467 0 0 0 17 1 0 0 0 0 0";
    let (pid, comm, ppid) = resolver.parse_stat(1234, stat(line)).unwrap();
    assert_eq!(pid, 1234);
    assert_eq!(comm, "bash");
    assert_eq!(ppid, 1);
}

#[test]
fn test_comm_with_newline_char() {
    let resolver = ProcfsProcessResolver::new();
    let result = resolver.parse_stat(1234, stat("1234 (test\nname) S 1 1234 1234 0 -1 0"));
    assert!(result.is_ok() || result.is_err());
}

#[test]
fn procfs_paths_and_errors() {
    let resolver = ProcfsProcessResolver::with_proc_path("/host/proc".to_string());
    assert_eq!(resolver.process_dir(42), "/host/proc/42");
    assert_eq!(resolver.file_path(42, "status"), "/host/proc/42/status");
    match resolver.parse_stat(1, stat("1 bash S 1")) {
        Err(e) => assert!(e.message().contains("missing '(' for comm field")),
        _ => panic!("parse error expected"),
    }
    let denied = ReadFailure { kind: FailureKind::PermissionDenied, message: "denied".to_string() };
    assert!(matches!(resolver.parse_status(7, Err(denied)), Err(ProcError::PermissionDenied { pid: 7, .. })));
}

#[test]
fn cwd_from_dentry_names() {
    use_cwd_case(&[b"work".to_vec(), b"user".to_vec(), b"home".to_vec()], b"/home/user/work");
    use_cwd_case(&[], b"/");
    let long: Vec<Vec<u8>> = (0..10).map(|_| vec![b'x'; 30]).collect();
    let mut out = [7u8; 128];
    let len = extract_cwd_from_names(&long, &mut out);
    assert_eq!(len, 127);
    assert_eq!(out[127], 0);
}

fn use_cwd_case(names: &[Vec<u8>], expected: &[u8]) {
    let mut out = [7u8; 128];
    let len = extract_cwd_from_names(&names.to_vec(), &mut out);
    assert_eq!(&out[..len], expected);
    assert_eq!(out[len], 0);
}

fn sample_info(comm: &str, exe: &str, cmdline: &[&str], cwd: &str) -> ProcessInfo {
    ProcessInfo {
        pid: 1234,
        ppid: 1,
        uid: 1000,
        gid: 1000,
        comm: comm.to_string(),
        exe: exe.to_string(),
        cmdline: cmdline.iter().map(|s| s.to_string()).collect(),
        cwd: cwd.to_string(),
    }
}

#[test]
fn test_debug_impl() {
    let info = sample_info("test", "/usr/bin/test", &["test", "--flag"], "/home/user");
    let debug_str = format!("{:?}", info);
    assert!(debug_str.contains("1234"));
    assert!(debug_str.contains("test"));
    assert!(debug_str.contains("cmdline"));
    assert!(debug_str.contains("cwd"));
}

#[test]
fn test_clone() {
    let info = sample_info("test", "/usr/bin/test", &["test"], "/home/user");
    let cloned = info.clone();
    assert_eq!(info, cloned);
}

#[test]
fn test_v2_fields() {
    let info = sample_info("bash", "/usr/bin/bash", &["-bash", "-c", "echo hello"], "/home/user/project");
    assert_eq!(info.cmdline.len(), 3);
    assert_eq!(info.cmdline[0], "-bash");
    assert_eq!(info.cwd, "/home/user/project");
}

#[test]
fn test_read_cmdline_missing() {
    let resolver = ProcfsProcessResolver::new();
    let info = resolver
        .get_process_info(
            1234,
            stat("1234 (test) S 1 1234 1234 0 -1 4194304\n"),
            stat("Name:\ttest\nUid:\t0\t0\t0\t0\nGid:\t0\t0\t0\t0\n"),
            None,
            None,
            Some("/".to_string()),
        )
        .unwrap();
    assert!(info.cmdline.is_empty());
}

#[test]
fn test_read_cwd_missing() {
    let resolver = ProcfsProcessResolver::new();
    let info = resolver
        .get_process_info(
            1234,
            stat("1234 (test) S 1 1234 1234 0 -1 4194304\n"),
            stat("Name:\ttest\nUid:\t0\t0\t0\t0\nGid:\t0\t0\t0\t0\n"),
            None,
            Some(b"test\0".to_vec()),
            None,
        )
        .unwrap();
    assert!(info.cwd.is_empty());
}

fn padded<const N: usize>(text: &str) -> [u8; N] {
    let mut out = [0u8; N];
    out[..text.len()].copy_from_slice(text.as_bytes());
    out
}

#[test]
fn approved_prefix_emits_longer_path() {
    let path: [u8; 256] = padded("/etc/passwd");
    let prefixes: Vec<[u8; 128]> = vec![padded("/etc/")];
    let ignored: Vec<[u8; 256]> = Vec::new();
    assert!(should_emit_event(&path, &prefixes, &ignored, Some(1)));
    let other: [u8; 256] = padded("/var/log/syslog");
    assert!(!should_emit_event(&other, &prefixes, &ignored, Some(1)));
    assert!(!should_emit_event(&path, &prefixes, &vec![path], Some(1)));
    assert!(should_emit_event(&other, &prefixes, &ignored, None));
}

#[test]
fn active_gauge_is_created_minus_removed() {
    let mut m = WatcherMetrics::new("w");
    m.record_watch_removed();
    m.record_watch_added();
    m.record_watch_added();
    m.record_watch_added();
    m.record_watch_removed();
    assert_eq!(m.watches_active(), 1);
    let snap = m.typed_snapshot();
    assert_eq!(snap.custom_value("watches_created"), Some(3));
    assert_eq!(snap.custom_value("watches_removed"), Some(2));
}
