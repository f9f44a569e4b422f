use panoptes::pathname::ancestor_paths;
use panoptes::notify::{
    promotion_step, proxy_for_missing, PromotionStep,
    events_to_flags, mask_to_event_type, EventDisposition, EventType, FileEvent, MovePairTracker, NotifyError,
    ProxyTarget, WatchConfig, WatchState, Watcher, IN_ACCESS, IN_ALL_EVENTS, IN_CLOSE, IN_CREATE, IN_DELETE,
    IN_IGNORED, IN_ISDIR, IN_MODIFY, IN_MOVE, IN_MOVED_FROM, IN_MOVED_TO, IN_Q_OVERFLOW,
};
use panoptes::metrics::WatcherMetrics;
use panoptes::pathname::first_component_after;
use std::time::{Duration, Instant};

fn wait_at_least(d: Duration) {
    let start = Instant::now();
    while start.elapsed() < d {}
}

#[test]
fn test_event_type_as_str() {
    assert_eq!(EventType::Create.as_str(), "create");
    assert_eq!(EventType::Modify.as_str(), "modify");
    assert_eq!(EventType::Delete.as_str(), "delete");
    assert_eq!(EventType::MovedFrom.as_str(), "movedfrom");
    assert_eq!(EventType::MovedTo.as_str(), "movedto");
    assert_eq!(EventType::Unknown.as_str(), "unknown");
}

#[test]
fn test_event_type_from_str() {
    assert_eq!(EventType::from_str("create"), EventType::Create);
    assert_eq!(EventType::from_str("CREATE"), EventType::Create);
    assert_eq!(EventType::from_str("modify"), EventType::Modify);
    assert_eq!(EventType::from_str("invalid"), EventType::Unknown);
}

#[test]
fn test_event_type_roundtrip() {
    let types = vec![
        EventType::Access,
        EventType::Attrib,
        EventType::CloseWrite,
        EventType::CloseNoWrite,
        EventType::Create,
        EventType::Delete,
        EventType::DeleteSelf,
        EventType::Modify,
        EventType::MoveSelf,
        EventType::MovedFrom,
        EventType::MovedTo,
        EventType::Open,
    ];
    for event_type in types {
        let s = event_type.as_str();
        assert_eq!(EventType::from_str(s), event_type);
    }
}

#[test]
fn event_type_underscored_names() {
    assert_eq!(EventType::from_str("close_write"), EventType::CloseWrite);
    assert_eq!(EventType::from_str("Moved_To"), EventType::MovedTo);
    assert_eq!(EventType::from_str("unknown"), EventType::Unknown);
}

#[test]
fn test_record_moved_from() {
    let mut tracker = MovePairTracker::new(Duration::from_millis(100));
    tracker.record_moved_from(42, "/a/file.txt".to_string(), Some("file.txt".to_string()), false);
    assert_eq!(tracker.pending_count(), 1);
}

#[test]
fn test_cookie_zero_ignored() {
    let mut tracker = MovePairTracker::new(Duration::from_millis(100));
    tracker.record_moved_from(0, "/a/file.txt".to_string(), Some("file.txt".to_string()), false);
    assert_eq!(tracker.pending_count(), 0);
}

#[test]
fn test_match_moved_to_success() {
    let mut tracker = MovePairTracker::new(Duration::from_millis(100));
    tracker.record_moved_from(42, "/a/file.txt".to_string(), Some("file.txt".to_string()), false);
    let result = tracker.match_moved_to(42);
    assert!(result.is_some());
    let pending = result.unwrap();
    assert_eq!(pending.path, "/a/file.txt");
    assert_eq!(pending.filename, Some("file.txt".to_string()));
    assert!(!pending.is_dir);
    assert_eq!(tracker.pending_count(), 0);
}

#[test]
fn test_match_moved_to_no_match() {
    let mut tracker = MovePairTracker::new(Duration::from_millis(100));
    tracker.record_moved_from(42, "/a/file.txt".to_string(), Some("file.txt".to_string()), false);
    let result = tracker.match_moved_to(99);
    assert!(result.is_none());
    assert_eq!(tracker.pending_count(), 1);
}

#[test]
fn test_match_moved_to_cookie_zero() {
    let mut tracker = MovePairTracker::new(Duration::from_millis(100));
    tracker.record_moved_from(42, "/a/file.txt".to_string(), Some("file.txt".to_string()), false);
    let result = tracker.match_moved_to(0);
    assert!(result.is_none());
}

#[test]
fn test_drain_expired() {
    let mut tracker = MovePairTracker::new(Duration::from_millis(1));
    tracker.record_moved_from(42, "/a/file.txt".to_string(), Some("file.txt".to_string()), false);
    tracker.record_moved_from(43, "/b/file.txt".to_string(), Some("file.txt".to_string()), false);
    wait_at_least(Duration::from_millis(5));
    let expired = tracker.drain_expired();
    assert_eq!(expired.len(), 2);
    assert_eq!(tracker.pending_count(), 0);
}

#[test]
fn test_drain_expired_partial() {
    let mut tracker = MovePairTracker::new(Duration::from_millis(50));
    tracker.record_moved_from(42, "/a/file.txt".to_string(), Some("file.txt".to_string()), false);
    let expired = tracker.drain_expired();
    assert_eq!(expired.len(), 0);
    assert_eq!(tracker.pending_count(), 1);
    wait_at_least(Duration::from_millis(60));
    let expired = tracker.drain_expired();
    assert_eq!(expired.len(), 1);
}

#[test]
fn test_clear() {
    let mut tracker = MovePairTracker::new(Duration::from_millis(100));
    tracker.record_moved_from(42, "/a/file.txt".to_string(), None, false);
    tracker.record_moved_from(43, "/b/file.txt".to_string(), None, false);
    assert_eq!(tracker.pending_count(), 2);
    tracker.clear();
    assert_eq!(tracker.pending_count(), 0);
}

#[test]
fn test_directory_move() {
    let mut tracker = MovePairTracker::new(Duration::from_millis(100));
    tracker.record_moved_from(42, "/a/subdir".to_string(), Some("subdir".to_string()), true);
    let result = tracker.match_moved_to(42);
    assert!(result.is_some());
    assert!(result.unwrap().is_dir);
}

#[test]
fn tracker_same_cookie_replaces() {
    let mut tracker = MovePairTracker::new(Duration::from_millis(100));
    tracker.record_moved_from(7, "/a/one".to_string(), None, false);
    tracker.record_moved_from(7, "/a/two".to_string(), None, true);
    assert_eq!(tracker.pending_count(), 1);
    let p = tracker.match_moved_to(7).unwrap();
    assert_eq!(p.path, "/a/two");
    assert!(p.is_dir);
}

fn names(v: &[&str]) -> Vec<String> {
    v.iter().map(|s| s.to_string()).collect()
}

#[test]
fn test_single_event() {
    let flags = events_to_flags(&names(&["create"]));
    assert_eq!(flags & IN_CREATE, IN_CREATE);
}

#[test]
fn test_multiple_events() {
    let flags = events_to_flags(&names(&["create", "modify", "delete"]));
    assert_eq!(flags & IN_CREATE, IN_CREATE);
    assert_eq!(flags & IN_MODIFY, IN_MODIFY);
    assert_eq!(flags & IN_DELETE, IN_DELETE);
}

#[test]
fn test_all_events() {
    let flags = events_to_flags(&names(&["all"]));
    assert_eq!(flags & IN_ALL_EVENTS, IN_ALL_EVENTS);
}

#[test]
fn test_empty_defaults_to_all() {
    let flags = events_to_flags(&Vec::new());
    assert_eq!(flags & IN_ALL_EVENTS, IN_ALL_EVENTS);
}

#[test]
fn test_case_insensitive() {
    let flags = events_to_flags(&names(&["CREATE", "MODIFY"]));
    assert_eq!(flags & IN_CREATE, IN_CREATE);
    assert_eq!(flags & IN_MODIFY, IN_MODIFY);
}

#[test]
fn test_close_shorthand() {
    let flags = events_to_flags(&names(&["close"]));
    assert_eq!(flags & IN_CLOSE, IN_CLOSE);
}

#[test]
fn test_move_shorthand() {
    let flags = events_to_flags(&names(&["move"]));
    assert_eq!(flags & IN_MOVE, IN_MOVE);
}

#[test]
fn test_invalid_event_ignored() {
    let flags = events_to_flags(&names(&["invalid_event", "create"]));
    assert_eq!(flags & IN_CREATE, IN_CREATE);
}

#[test]
fn events_to_flags_exact_values() {
    assert_eq!(events_to_flags(&names(&["create", "modify"])), 0x102);
    assert_eq!(events_to_flags(&names(&["invalid_event"])), 0xfff);
}

#[test]
fn test_access() {
    assert_eq!(mask_to_event_type(IN_ACCESS), EventType::Access);
}

#[test]
fn test_create() {
    assert_eq!(mask_to_event_type(IN_CREATE), EventType::Create);
}

#[test]
fn test_modify() {
    assert_eq!(mask_to_event_type(IN_MODIFY), EventType::Modify);
}

#[test]
fn test_delete() {
    assert_eq!(mask_to_event_type(IN_DELETE), EventType::Delete);
}

#[test]
fn test_moved_from() {
    assert_eq!(mask_to_event_type(IN_MOVED_FROM), EventType::MovedFrom);
}

#[test]
fn test_moved_to() {
    assert_eq!(mask_to_event_type(IN_MOVED_TO), EventType::MovedTo);
}

#[test]
fn test_unknown() {
    assert_eq!(mask_to_event_type(0), EventType::Unknown);
}

#[test]
fn test_default_config() {
    let config = WatchConfig {
        paths: vec!["/tmp".to_string()],
        events: vec!["all".to_string()],
        ignore_patterns: vec![],
        recursive: false,
        max_depth: None,
        skip_if_missing: vec![false],
    };
    assert_eq!(config.paths.len(), 1);
    assert!(!config.recursive);
}

#[test]
fn test_recursive_config() {
    let config = WatchConfig {
        paths: vec!["/tmp".to_string()],
        events: vec!["create".to_string(), "modify".to_string()],
        ignore_patterns: vec!["*.tmp".to_string()],
        recursive: true,
        max_depth: Some(5),
        skip_if_missing: vec![false],
    };
    assert!(config.recursive);
    assert_eq!(config.max_depth, Some(5));
    assert_eq!(config.ignore_patterns.len(), 1);
}

#[test]
fn test_max_watches_exceeded_display() {
    let err = NotifyError::MaxWatchesExceeded { current: 100, limit: 100 };
    let msg = err.message();
    assert!(msg.contains("100"));
    assert!(msg.contains("limit"));
}

#[test]
fn test_kernel_watch_limit_display() {
    let err = NotifyError::KernelWatchLimitReached;
    let msg = err.message();
    assert!(msg.contains("max_user_watches"));
}

#[test]
fn test_queue_overflow_display() {
    let err = NotifyError::QueueOverflow;
    let msg = err.message();
    assert!(msg.contains("overflow"));
}

#[test]
fn test_path_not_found_display() {
    let err = NotifyError::PathNotFound("/nonexistent".to_string());
    let msg = err.message();
    assert!(msg.contains("/nonexistent"));
}

#[test]
fn notify_error_messages_exact() {
    assert_eq!(
        NotifyError::MaxWatchesExceeded { current: 7, limit: 64 }.message(),
        "max watches exceeded (limit: 64, current: 7)"
    );
    assert_eq!(NotifyError::InvalidWatchDescriptor(-3).message(), "invalid watch descriptor: WatchDescriptor { wd: -3 }");
    assert_eq!(NotifyError::Inotify(2).message(), "inotify error: ENOENT: No such file or directory");
    assert_eq!(NotifyError::ChannelClosed.message(), "event channel closed");
}

#[test]
fn test_file_event_creation() {
    let event = FileEvent {
        event_type: EventType::Create,
        path: "/tmp/test.txt".to_string(),
        filename: Some("test.txt".to_string()),
        is_dir: false,
        cookie: 0,
        move_peer: None,
    };
    assert_eq!(event.event_type, EventType::Create);
    assert!(!event.is_dir);
    assert!(event.move_peer.is_none());
}

#[test]
fn test_file_event_with_move_peer() {
    let event = FileEvent {
        event_type: EventType::MovedTo,
        path: "/tmp/new.txt".to_string(),
        filename: Some("new.txt".to_string()),
        is_dir: false,
        cookie: 42,
        move_peer: Some("/tmp/old.txt".to_string()),
    };
    assert_eq!(event.cookie, 42);
    assert_eq!(event.move_peer, Some("/tmp/old.txt".to_string()));
}

#[test]
fn test_directory_event() {
    let event = FileEvent {
        event_type: EventType::Create,
        path: "/tmp/subdir".to_string(),
        filename: Some("subdir".to_string()),
        is_dir: true,
        cookie: 0,
        move_peer: None,
    };
    assert!(event.is_dir);
}

#[test]
fn test_watch_state_clone() {
    let state = WatchState::Running;
    let cloned = state.clone();
    assert!(matches!(cloned, WatchState::Running));
}

#[test]
fn test_watch_state_debug() {
    let state = WatchState::Paused;
    let debug_str = format!("{:?}", state);
    assert!(debug_str.contains("Paused"));
}

#[test]
fn watcher_rename_within_tree_is_paired() {
    let mut w = Watcher::new(64);
    assert_eq!(w.add_watch(Ok(1), "/data".to_string()).unwrap(), 1);
    assert_eq!(w.add_watch(Ok(2), "/other/".to_string()).unwrap(), 2);
    let first = w.process_event(1, IN_MOVED_FROM, 9, Some("a.txt".to_string()));
    assert!(first.is_none());
    let second = w.process_event(2, IN_MOVED_TO, 9, Some("b.txt".to_string())).unwrap();
    assert_eq!(second.len(), 2);
    assert_eq!(second[0].event_type, EventType::MovedFrom);
    assert_eq!(second[0].path, "/data/a.txt");
    assert_eq!(second[0].move_peer, Some("/other/b.txt".to_string()));
    assert_eq!(second[1].event_type, EventType::MovedTo);
    assert_eq!(second[1].path, "/other/b.txt");
    assert_eq!(second[1].move_peer, Some("/data/a.txt".to_string()));
}

#[test]
fn watcher_events_on_unknown_watch_dropped() {
    let mut w = Watcher::new(64);
    assert!(w.process_event(5, IN_CREATE, 0, Some("x".to_string())).is_none());
}

#[test]
fn watcher_plain_event_and_unpaired_moved_to() {
    let mut w = Watcher::new(64);
    w.add_watch(Ok(3), "/etc".to_string()).unwrap();
    let e = w.process_event(3, IN_CREATE | IN_ISDIR, 0, Some("conf.d".to_string())).unwrap();
    assert_eq!(e.len(), 1);
    assert_eq!(e[0].event_type, EventType::Create);
    assert_eq!(e[0].path, "/etc/conf.d");
    assert!(e[0].is_dir);
    let m = w.process_event(3, IN_MOVED_TO, 11, None).unwrap();
    assert_eq!(m.len(), 1);
    assert_eq!(m[0].path, "/etc");
    assert!(m[0].move_peer.is_none());
}

#[test]
fn watcher_capacity_and_errors() {
    let mut w = Watcher::new(1);
    assert!(w.check_capacity().is_ok());
    w.add_watch(Ok(1), "/a".to_string()).unwrap();
    match w.check_capacity() {
        Err(NotifyError::MaxWatchesExceeded { current, limit }) => {
            assert_eq!(current, 1);
            assert_eq!(limit, 1);
        }
        _ => panic!("expected the limit"),
    }
    assert!(matches!(w.add_watch(Err(28), "/b".to_string()), Err(NotifyError::KernelWatchLimitReached)));
    assert!(matches!(w.add_watch(Err(13), "/b".to_string()), Err(NotifyError::Inotify(13))));
    assert_eq!(w.watch_count(), 1);
}

#[test]
fn watcher_removal_and_lookup() {
    let mut w = Watcher::with_metrics(8, WatcherMetrics::new("w"));
    w.add_watch(Ok(1), "/a".to_string()).unwrap();
    w.add_watch(Ok(2), "/b".to_string()).unwrap();
    assert_eq!(w.get_wd("/b"), Some(2));
    assert_eq!(w.get_path(1).map(|s| s.as_str()), Some("/a"));
    assert!(w.is_watching("/a"));
    assert!(matches!(w.remove_watch(1, Err(5)), Err(NotifyError::Inotify(5))));
    assert!(w.remove_watch(1, Err(22)).is_ok());
    assert!(!w.is_watching("/a"));
    assert_eq!(w.watch_count(), 1);
    assert_eq!(w.remove_watch_by_path("/b"), Some(2));
    assert_eq!(w.metrics().unwrap().watches_active(), 1);
    let mut paths = w.watched_paths();
    paths.sort();
    assert_eq!(paths, vec!["/b".to_string()]);
}

#[test]
fn watcher_proxies_taken_on_creation() {
    let mut w = Watcher::new(8);
    w.add_watch(Ok(4), "/tmp".to_string()).unwrap();
    w.add_proxy(4, ProxyTarget { configured_path: "/tmp/a.txt".to_string(), immediate_child: "a.txt".to_string(), flags: IN_MODIFY });
    w.add_proxy(4, ProxyTarget { configured_path: "/tmp/b.txt".to_string(), immediate_child: "b.txt".to_string(), flags: IN_MODIFY });
    assert_eq!(w.proxy_targets(4).unwrap().len(), 2);
    assert!(w.take_proxy_matches(4, IN_MODIFY, Some("a.txt")).is_empty());
    let taken = w.take_proxy_matches(4, IN_CREATE, Some("a.txt"));
    assert_eq!(taken.len(), 1);
    assert_eq!(taken[0].configured_path, "/tmp/a.txt");
    assert_eq!(w.proxy_targets(4).unwrap().len(), 1);
    let taken = w.take_proxy_matches(4, IN_MOVED_TO, Some("b.txt"));
    assert_eq!(taken.len(), 1);
    assert!(w.proxy_targets(4).is_none());
    assert_eq!(w.proxy_count(), 0);
}

#[test]
fn watcher_pause_clears_and_returns_config() {
    let mut w = Watcher::new(8);
    assert!(matches!(w.pause(), Err(NotifyError::Io(ref m)) if m == "no config stored"));
    let config = WatchConfig {
        paths: vec!["/tmp/ghost.txt".to_string()],
        events: vec!["modify".to_string()],
        ignore_patterns: vec![],
        recursive: false,
        max_depth: None,
        skip_if_missing: vec![false],
    };
    assert_eq!(w.set_config(&config), IN_MODIFY);
    w.add_watch(Ok(1), "/tmp".to_string()).unwrap();
    w.add_proxy(1, ProxyTarget { configured_path: "/tmp/ghost.txt".to_string(), immediate_child: "ghost.txt".to_string(), flags: IN_MODIFY });
    let back = w.pause().unwrap();
    assert_eq!(back.paths, config.paths);
    assert_eq!(*w.state(), WatchState::Paused);
    assert_eq!(w.watch_count(), 0);
    assert_eq!(w.proxy_count(), 0);
    assert!(w.start_event_loop().is_ok());
    assert_eq!(*w.state(), WatchState::Running);
    w.finish_event_loop();
    assert_eq!(*w.state(), WatchState::Stopped);
}

#[test]
fn event_dispositions() {
    assert_eq!(panoptes::notify::event_disposition(IN_Q_OVERFLOW), EventDisposition::Overflow);
    assert_eq!(panoptes::notify::event_disposition(IN_IGNORED), EventDisposition::WatchRemoved);
    assert_eq!(panoptes::notify::event_disposition(IN_CREATE), EventDisposition::Regular);
}

#[test]
fn join_path_cases() {
    assert_eq!(panoptes::notify::join_path("/a", "b"), "/a/b");
    assert_eq!(panoptes::notify::join_path("/a/", "b"), "/a/b");
    assert_eq!(panoptes::notify::join_path("/a", "/b"), "/b");
    assert_eq!(panoptes::notify::join_path("", "b"), "b");
}

#[test]
fn first_component_after_cases() {
    assert_eq!(first_component_after("/tmp/x/does_not_exist.txt", "/tmp/x"), Some("does_not_exist.txt".to_string()));
    assert_eq!(first_component_after("/tmp/x/subdir/file.txt", "/tmp/x/"), Some("subdir".to_string()));
    assert_eq!(first_component_after("/tmp//x/./y", "/tmp/x"), Some("y".to_string()));
    assert_eq!(first_component_after("/tmpx/y", "/tmp"), None);
    assert_eq!(first_component_after("/tmp", "/tmp"), None);
}

#[test]
fn proxy_planning() {
    let t = proxy_for_missing("/root/.ssh/authorized_keys", "/root", IN_MODIFY).unwrap();
    assert_eq!(t.immediate_child, ".ssh");
    assert_eq!(t.configured_path, "/root/.ssh/authorized_keys");
    assert_eq!(t.flags, IN_MODIFY);
    assert!(proxy_for_missing("/etc/x", "/var", IN_MODIFY).is_none());

    match promotion_step(&t, Some("/root"), ".ssh", true, false) {
        PromotionStep::Promote { path, flags } => {
            assert_eq!(path, "/root/.ssh/authorized_keys");
            assert_eq!(flags, IN_MODIFY);
        }
        other => panic!("promotion expected, got {:?}", other),
    }
    match promotion_step(&t, Some("/root"), ".ssh", false, true) {
        PromotionStep::Advance { dir, watch_flags, target } => {
            assert_eq!(dir, "/root/.ssh");
            assert_eq!(watch_flags, IN_MODIFY | IN_CREATE | IN_MOVED_TO);
            assert_eq!(target.immediate_child, "authorized_keys");
        }
        other => panic!("advance expected, got {:?}", other),
    }
    assert!(matches!(promotion_step(&t, Some("/root"), ".ssh", false, false), PromotionStep::Drop));
    assert!(matches!(promotion_step(&t, None, ".ssh", false, true), PromotionStep::Drop));
}

#[test]
fn take_moves_removes_only_listed_cookies() {
    let mut tracker = MovePairTracker::new(Duration::from_secs(3600));
    tracker.record_moved_from(1, "/a".to_string(), None, false);
    tracker.record_moved_from(2, "/b".to_string(), None, true);
    tracker.record_moved_from(3, "/c".to_string(), None, false);
    let taken = tracker.take_moves(&vec![3, 1, 9]);
    let cookies: Vec<u32> = taken.iter().map(|(c, _)| *c).collect();
    assert_eq!(cookies, vec![1, 3]);
    assert_eq!(taken[0].1.path, "/a");
    assert_eq!(tracker.pending_count(), 1);
    assert!(tracker.match_moved_to(2).is_some());
}

#[test]
fn nothing_expires_within_a_long_timeout() {
    let mut tracker = MovePairTracker::new(Duration::from_secs(3600));
    tracker.record_moved_from(7, "/x".to_string(), None, false);
    assert!(tracker.expired_cookies_at(tracker.now_ns()).is_empty());
    assert!(tracker.drain_expired().is_empty());
    assert_eq!(tracker.pending_count(), 1);
}

#[test]
fn drain_at_hands_out_moves_older_than_the_timeout() {
    let mut tracker = MovePairTracker::new(Duration::from_nanos(100));
    tracker.record_moved_from_at(1, "/old".to_string(), None, false, 100);
    tracker.record_moved_from_at(2, "/new".to_string(), None, false, 500);
    tracker.record_moved_from_at(3, "/edge".to_string(), None, false, 150);
    assert_eq!(tracker.expired_cookies_at(250), vec![1]);
    let drained = tracker.drain_expired_at(250);
    assert_eq!(drained.len(), 1);
    assert_eq!(drained[0].0, 1);
    assert_eq!(drained[0].1.path, "/old");
    assert_eq!(tracker.pending_count(), 2);
    let later = tracker.drain_expired_at(10_000);
    let cookies: Vec<u32> = later.iter().map(|(c, _)| *c).collect();
    assert_eq!(cookies, vec![2, 3]);
    assert_eq!(tracker.pending_count(), 0);
}

#[test]
fn ancestors_nearest_first() {
    assert_eq!(ancestor_paths("/var/lib/app/data.db"), vec!["/var/lib/app", "/var/lib", "/var", "/"]);
    assert_eq!(ancestor_paths("/etc"), vec!["/"]);
    assert!(ancestor_paths("/").is_empty());
    assert_eq!(ancestor_paths("a/b"), vec!["a"]);
}

#[test]
fn event_type_names_any_case() {
    let all = [
        EventType::Access, EventType::Attrib, EventType::CloseWrite, EventType::CloseNoWrite,
        EventType::Create, EventType::Delete, EventType::DeleteSelf, EventType::Modify,
        EventType::MoveSelf, EventType::MovedFrom, EventType::MovedTo, EventType::Open,
    ];
    for t in all {
        assert_eq!(EventType::from_str(t.as_str()), t);
        assert_eq!(EventType::from_str(&t.as_str().to_uppercase()), t);
    }
    assert_eq!(EventType::from_str(EventType::Unknown.as_str()), EventType::Unknown);
}
