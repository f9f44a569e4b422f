use panoptes::stream_filter::Filterable;
use panoptes::ebpf_types::{FileEvent as RawFileEvent, FileEventType};
use panoptes::notify::EventType;
use panoptes::errors::RuntimeError;
use panoptes::metrics::{BasicMetrics, DaemonMetrics, WatcherMetrics};
use panoptes::service::{
    begin_update, cached_arguments, first_container, pid_lookup_status, process_info_of, register_watch,
    update_reply, CachedProcess, route_probe_event, EbpfWatchSessionState,
    build_prefixes, build_watch_config, choose_pids, decide_update, event_type_to_proto,
    inotify_event_to_string, matches_any_prefix, select_state, stream_filter_for,
    system_time_to_timestamp, timestamp_from_ns, timestamp_from_parts, EbpfFileEvent, EventOrigin, HealthServiceImpl,
    InotifyEvent, StatusCode, UpdateAction, WatchSubject, WireFileEvent, SERVING,
};
use panoptes::session::{session_key, Session, SessionRegistry};
use std::time::SystemTime;

#[test]
fn service_test_session_key_generation() {
    let id = session_key("my-watcher", "default", "my-pod");
    assert_eq!(id, "my-watcher:default:my-pod");
}

#[test]
fn service_ebpf_test_session_key_generation() {
    let id = session_key("my-watcher", "default", "my-pod");
    assert_eq!(id, "my-watcher:default:my-pod");
}

#[test]
fn session_test_session_key_generation() {
    let key = session_key("watcher", "ns", "pod");
    assert_eq!(key, "watcher:ns:pod");
}

#[test]
fn service_test_inotify_event_to_string() {
    assert_eq!(inotify_event_to_string(InotifyEvent::Create.code()), "create");
    assert_eq!(inotify_event_to_string(InotifyEvent::Modify.code()), "modify");
    assert_eq!(inotify_event_to_string(InotifyEvent::Delete.code()), "delete");
    assert_eq!(inotify_event_to_string(InotifyEvent::All.code()), "all");
}

#[test]
fn service_ebpf_test_inotify_event_to_string() {
    assert_eq!(inotify_event_to_string(InotifyEvent::Create.code()), "create");
    assert_eq!(inotify_event_to_string(InotifyEvent::Modify.code()), "modify");
    assert_eq!(inotify_event_to_string(InotifyEvent::Delete.code()), "delete");
}

#[test]
fn wire_names_of_unknown_codes_are_empty() {
    assert_eq!(inotify_event_to_string(InotifyEvent::Unspecified.code()), "");
    assert_eq!(inotify_event_to_string(999), "");
    assert_eq!(InotifyEvent::from_code(InotifyEvent::MovedTo.code()), Some(InotifyEvent::MovedTo));
    assert_eq!(InotifyEvent::from_code(-1), None);
}

#[test]
fn test_event_type_to_proto() {
    assert_eq!(event_type_to_proto(&EventType::Create), InotifyEvent::Create);
    assert_eq!(event_type_to_proto(&EventType::Modify), InotifyEvent::Modify);
    assert_eq!(event_type_to_proto(&EventType::Delete), InotifyEvent::Delete);
    assert_eq!(event_type_to_proto(&EventType::Unknown), InotifyEvent::Unspecified);
}

#[test]
fn test_system_time_to_timestamp() {
    let now = SystemTime::now();
    let ts = system_time_to_timestamp(&now);
    assert!(ts.is_some());

    let ts = ts.unwrap();
    assert!(ts.seconds > 0);
}

#[test]
fn timestamps_split_nanoseconds() {
    let ts = timestamp_from_ns(1_500_000_000_123);
    assert_eq!(ts.seconds, 1500);
    assert_eq!(ts.nanos, 123);
    assert!(system_time_to_timestamp(&(SystemTime::UNIX_EPOCH - std::time::Duration::from_secs(1))).is_none());
}

#[test]
fn test_file_event_filterable() {
    let event = WireFileEvent {
        timestamp: None,
        watcher_name: "test-watcher".to_string(),
        namespace: "default".to_string(),
        node_name: "node1".to_string(),
        pod_name: "pod1".to_string(),
        container_id: "container1".to_string(),
        event_type: InotifyEvent::Modify.code(),
        path: "/etc/hosts".to_string(),
        filename: "hosts".to_string(),
        is_directory: false,
        inode: 0,
        tags: Vec::new(),
        process_info: None,
        cluster_name: "test-cluster".to_string(),
    };

    assert_eq!(event.filter_name(), "test-watcher");
    assert_eq!(event.filter_namespace(), "default");
    assert_eq!(event.filter_event_type(), "modify");
}

#[test]
fn test_event_type_parsing() {
    assert_eq!(EventType::from_str("create"), EventType::Create);
    assert_eq!(EventType::from_str("CREATE"), EventType::Create);
    assert_eq!(EventType::from_str("modify"), EventType::Modify);
    assert_eq!(EventType::from_str("delete"), EventType::Delete);
    assert_eq!(EventType::from_str("movedFrom"), EventType::MovedFrom);
    assert_eq!(EventType::from_str("moved_from"), EventType::MovedFrom);
    assert_eq!(EventType::from_str("invalid"), EventType::Unknown);
}

#[test]
fn test_event_filtering() {
    let filter = stream_filter_for(
        "",
        "",
        &vec![InotifyEvent::Create.code(), InotifyEvent::Delete.code()],
    );
    let event = |t: InotifyEvent| WireFileEvent {
        timestamp: None,
        watcher_name: "w".to_string(),
        namespace: "ns".to_string(),
        node_name: String::new(),
        pod_name: String::new(),
        container_id: String::new(),
        event_type: t.code(),
        path: String::new(),
        filename: String::new(),
        is_directory: false,
        inode: 0,
        tags: Vec::new(),
        process_info: None,
        cluster_name: String::new(),
    };
    assert!(filter.matches(&event(InotifyEvent::Create)));
    assert!(filter.matches(&event(InotifyEvent::Delete)));
    assert!(!filter.matches(&event(InotifyEvent::Modify)));
    assert!(!filter.matches(&event(InotifyEvent::Open)));
}

fn raw_event(event_type: FileEventType, pid: u32, path: &[u8], comm: &[u8]) -> RawFileEvent {
    let mut raw = RawFileEvent::zeroed();
    raw.event_type = event_type.code();
    raw.pid = pid;
    raw.path[..path.len()].copy_from_slice(path);
    raw.comm[..comm.len()].copy_from_slice(comm);
    raw
}

#[test]
fn test_ebpf_file_event_from_raw() {
    let raw = raw_event(FileEventType::Create, 1234, b"/etc/passwd", b"vim");
    let event = EbpfFileEvent::from_raw(&raw);

    assert_eq!(event.event_type, FileEventType::Create);
    assert_eq!(event.pid, 1234);
    assert_eq!(event.path, "/etc/passwd");
    assert_eq!(event.comm, "vim");
}

#[test]
fn test_event_type_mapping() {
    let create_event = EbpfFileEvent {
        event_type: FileEventType::Create,
        path: String::new(),
        pid: 0,
        comm: String::new(),
        timestamp_ns: 0,
    };
    assert_eq!(create_event.to_inotify_event(), InotifyEvent::Create);

    let delete_event = EbpfFileEvent {
        event_type: FileEventType::Delete,
        path: String::new(),
        pid: 0,
        comm: String::new(),
        timestamp_ns: 0,
    };
    assert_eq!(delete_event.to_inotify_event(), InotifyEvent::Delete);
}

#[test]
fn ebpf_event_to_wire() {
    let mut raw = raw_event(FileEventType::Rename, 9, b"/var/log/app.log", b"mv");
    raw.timestamp_ns = 2_000_000_005;
    let event = EbpfFileEvent::from_raw(&raw);
    assert_eq!(event.filename(), "app.log");
    assert_eq!(event.to_inotify_event(), InotifyEvent::MovedTo);
    let origin = EventOrigin {
        watcher_name: "w".to_string(),
        namespace: "ns".to_string(),
        node_name: "n".to_string(),
        pod_name: "p".to_string(),
        container_id: "c".to_string(),
        cluster_name: "k".to_string(),
    };
    let wire = event.to_wire(&origin, None);
    assert!(wire.process_info.is_none());
    assert_eq!(wire.path, "/var/log/app.log");
    assert_eq!(wire.filename, "app.log");
    assert_eq!(wire.event_type, InotifyEvent::MovedTo.code());
    assert_eq!(wire.watcher_name, "w");
    assert_eq!(wire.timestamp.unwrap().seconds, 2);
    assert_eq!(wire.timestamp.unwrap().nanos, 5);
    let unknown = raw_event(FileEventType::Create, 1, b"/x", b"y");
    let mut unknown = unknown;
    unknown.event_type = 99;
    assert_eq!(EbpfFileEvent::from_raw(&unknown).event_type, FileEventType::Modify);
}

#[test]
fn watch_config_from_subjects() {
    let subjects = vec![
        WatchSubject {
            paths: vec!["/etc".to_string(), "var/log".to_string()],
            events: vec![InotifyEvent::Modify.code(), 999],
            ignore: vec!["*.tmp".to_string()],
            recursive: false,
            max_depth: 0,
        },
        WatchSubject {
            paths: vec!["/opt".to_string()],
            events: vec![],
            ignore: vec![],
            recursive: true,
            max_depth: 3,
        },
    ];
    let config = build_watch_config(&subjects, "/proc/1/root");
    assert_eq!(
        config.paths,
        vec!["/proc/1/root/etc", "/proc/1/root/var/log", "/proc/1/root/opt"]
    );
    assert_eq!(config.events, vec!["modify"]);
    assert_eq!(config.ignore_patterns, vec!["*.tmp"]);
    assert!(config.recursive);
    assert_eq!(config.max_depth, Some(3));
    let prefixes = build_prefixes(&subjects, "/proc/1/root");
    assert_eq!(prefixes, config.paths);
    assert!(matches_any_prefix("/proc/1/root/etc/hosts", &prefixes));
    assert!(!matches_any_prefix("/proc/2/root/etc/hosts", &prefixes));

    let empty = build_watch_config(&vec![], "/r");
    assert_eq!(empty.events, vec!["all"]);
    assert!(empty.paths.is_empty());
}

#[test]
fn pids_and_selection() {
    assert_eq!(choose_pids(vec![4, 5], &vec![1]), vec![4, 5]);
    assert_eq!(choose_pids(vec![], &vec![1]), vec![1]);
    assert!(select_state("w", "ns", "w", "ns"));
    assert!(!select_state("w", "ns", "w", "other"));
}

#[test]
fn update_decisions() {
    assert_eq!(decide_update(1, false).unwrap(), UpdateAction::Pause);
    assert_eq!(decide_update(2, true).unwrap(), UpdateAction::Resume);
    let e = decide_update(1, true).unwrap_err();
    assert_eq!(e.code, StatusCode::FailedPrecondition);
    assert_eq!(e.message, "Watch is already paused");
    let e = decide_update(2, false).unwrap_err();
    assert_eq!(e.message, "Watch is not paused");
    let e = decide_update(0, false).unwrap_err();
    assert_eq!(e.code, StatusCode::InvalidArgument);
    assert_eq!(e.message, "Action must be PAUSE or RESUME");
}

#[test]
fn health_check_serves() {
    assert_eq!(HealthServiceImpl.check(), SERVING);
}

struct NoState;

impl panoptes::session::SessionState for NoState {
    type Config = ();
    type Event = ();
}

fn watch_session(key: &str, paused: bool) -> Session<NoState, BasicMetrics> {
    Session::new(
        key.to_string(),
        "w".to_string(),
        "ns".to_string(),
        "node".to_string(),
        "pod".to_string(),
        vec!["containerd://abc".to_string()],
        vec![],
        paused,
        BasicMetrics::new(key),
        NoState,
    )
}

#[test]
fn watch_admission_answers() {
    let mut registry = SessionRegistry::new(1);
    assert!(register_watch(&mut registry, "a".to_string(), watch_session("a", false)).is_ok());
    let e = register_watch(&mut registry, "a".to_string(), watch_session("a", false)).unwrap_err();
    assert_eq!(e.code, StatusCode::AlreadyExists);
    assert_eq!(e.message, "Watch already exists: a");
    let e = register_watch(&mut registry, "b".to_string(), watch_session("b", false)).unwrap_err();
    assert_eq!(e.code, StatusCode::ResourceExhausted);
    assert_eq!(e.message, "maximum sessions reached: 1");
    assert_eq!(registry.count(), 1);
}

#[test]
fn watch_update_answers() {
    let mut registry = SessionRegistry::new(4);
    registry.insert("a".to_string(), watch_session("a", false)).unwrap();
    let e = begin_update(&registry, "zz", 1).unwrap_err();
    assert_eq!(e.code, StatusCode::NotFound);
    assert_eq!(e.message, "Watch not found: zz");
    assert_eq!(begin_update(&registry, "a", 1).unwrap(), UpdateAction::Pause);
    assert!(registry.set_paused("a", true));
    assert!(registry.get("a").unwrap().paused);
    assert_eq!(begin_update(&registry, "a", 1).unwrap_err().message, "Watch is already paused");
    assert_eq!(begin_update(&registry, "a", 2).unwrap(), UpdateAction::Resume);
    assert!(!registry.set_paused("zz", true));
    let reply = update_reply("a".to_string(), UpdateAction::Pause, Some(3));
    assert!(reply.paused);
    assert_eq!(reply.watched_paths, 0);
    let reply = update_reply("a".to_string(), UpdateAction::Resume, Some(3));
    assert!(!reply.paused);
    assert_eq!(reply.watched_paths, 3);
    assert_eq!(reply.watch_id, "a");
}

#[test]
fn registry_positions() {
    let mut registry = SessionRegistry::new(4);
    registry.insert("a".to_string(), watch_session("a", false)).unwrap();
    registry.insert("b".to_string(), watch_session("b", false)).unwrap();
    let i = registry.index_of("b").unwrap();
    assert_eq!(registry.session_at(i).id, "b");
    registry.session_at_mut(i).pids.push(42);
    assert_eq!(registry.get("b").unwrap().pids, vec![42]);
    assert!(registry.index_of("c").is_none());
}

#[test]
fn pid_lookup_answers() {
    assert_eq!(pid_lookup_status(Ok(77)).unwrap(), 77);
    let e = pid_lookup_status(Err(RuntimeError::UnknownRuntime { id: "docker://x".to_string() })).unwrap_err();
    assert_eq!(e.code, StatusCode::NotFound);
    assert_eq!(e.message, "Failed to resolve container PID: unknown container runtime in ID: docker://x");
}

#[test]
fn ebpf_process_attribution() {
    let mut raw = raw_event(FileEventType::Modify, 10, b"/etc/shadow", b"cat");
    raw.tgid = 11;
    raw.uid = 1000;
    raw.gid = 1001;
    let cached = CachedProcess {
        ppid: 1,
        exe: "/usr/bin/cat".to_string(),
        cmdline: "cat\0\0/etc/shadow\0".to_string(),
        cwd: "/root".to_string(),
    };
    let info = process_info_of(&raw, "cat", Some(&cached));
    assert_eq!((info.pid, info.tid, info.uid, info.gid, info.ppid), (10, 11, 1000, 1001, 1));
    assert_eq!(info.cmdline, vec!["cat", "/etc/shadow"]);
    assert_eq!(info.exe, "/usr/bin/cat");
    assert_eq!(info.cwd, "/root");
    let bare = process_info_of(&raw, "cat", None);
    assert_eq!(bare.exe, "");
    assert_eq!(bare.ppid, 0);
    assert!(bare.cmdline.is_empty());
    assert_eq!(cached_arguments("a\0b"), vec!["a", "b"]);
    assert_eq!(first_container(&vec!["c1".to_string(), "c2".to_string()]), "c1");
    assert_eq!(first_container(&vec![]), "");
    let origin = EventOrigin {
        watcher_name: "w".to_string(),
        namespace: "ns".to_string(),
        node_name: "n".to_string(),
        pod_name: "p".to_string(),
        container_id: "c1".to_string(),
        cluster_name: String::new(),
    };
    let wire = EbpfFileEvent::from_raw(&raw).to_wire(&origin, Some(info));
    assert_eq!(wire.process_info.unwrap().comm, "cat");
}

#[test]
fn timestamp_from_parts_keeps_seconds_and_nanos() {
    let ts = timestamp_from_parts(Some((1_700_000_000, 123_456_789))).unwrap();
    assert_eq!(ts.seconds, 1_700_000_000);
    assert_eq!(ts.nanos, 123_456_789);
    assert!(timestamp_from_parts(None).is_none());
}

fn ebpf_session(name: &str, prefixes: &[&str]) -> Session<EbpfWatchSessionState, BasicMetrics> {
    let state = EbpfWatchSessionState {
        subjects: Vec::new(),
        log_format: String::new(),
        watched_prefixes: prefixes.len() as u64,
        typed_metrics: WatcherMetrics::new(name),
        watches_ready: true,
        ready_at: None,
        active_prefixes: prefixes.iter().map(|p| p.to_string()).collect(),
    };
    Session::new(
        session_key(name, "ns", "pod"),
        name.to_string(),
        "ns".to_string(),
        "node-1".to_string(),
        "pod".to_string(),
        vec!["abc123".to_string()],
        vec![42],
        false,
        BasicMetrics::new(name),
        state,
    )
}

#[test]
fn probe_event_routed_to_matching_sessions() {
    let mut registry: SessionRegistry<EbpfWatchSessionState, BasicMetrics> = SessionRegistry::new(10);
    registry.insert(session_key("etc", "ns", "pod"), ebpf_session("etc", &["/etc/"])).unwrap();
    registry.insert(session_key("var", "ns", "pod"), ebpf_session("var", &["/var/"])).unwrap();
    registry.insert(session_key("all", "ns", "pod"), ebpf_session("all", &["/"])).unwrap();
    let raw = raw_event(FileEventType::Modify, 7, b"/etc/passwd", b"vi");
    let cached = CachedProcess { ppid: 1, exe: "/usr/bin/vi".to_string(), cmdline: "vi\0/etc/passwd\0".to_string(), cwd: "/root".to_string() };
    let routed = route_probe_event(&mut registry, &raw, Some(&cached), "node-1", "cluster-a");
    let names: Vec<&str> = routed.iter().map(|w| w.watcher_name.as_str()).collect();
    assert_eq!(names, vec!["etc", "all"]);
    assert_eq!(routed[0].path, "/etc/passwd");
    assert_eq!(routed[0].container_id, "abc123");
    assert_eq!(routed[0].cluster_name, "cluster-a");
    let process = routed[0].process_info.as_ref().unwrap();
    assert_eq!(process.pid, 7);
    assert_eq!(process.exe, "/usr/bin/vi");
    assert_eq!(process.cmdline, vec!["vi", "/etc/passwd"]);
    let etc_key = session_key("etc", "ns", "pod");
    let var_key = session_key("var", "ns", "pod");
    assert_eq!(registry.get(&etc_key).unwrap().state.typed_metrics.events_total(), 1);
    assert_eq!(registry.get(&var_key).unwrap().state.typed_metrics.events_total(), 0);
}
