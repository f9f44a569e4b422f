use panoptes::service_v1::ArgusServiceImpl;

fn create(service: &mut ArgusServiceImpl, name: &str, ns: &str, paths: usize) -> i64 {
    let reply = service.create_watch(
        name.to_string(),
        ns.to_string(),
        "pod".to_string(),
        "c1".to_string(),
        paths,
        1_700_000_000,
    );
    assert_eq!(reply.watch_count, paths as i32);
    assert!(reply.error.is_empty());
    reply.session_id
}

#[test]
fn v1_watches_numbered_in_order() {
    let mut service = ArgusServiceImpl::new("node".to_string(), 10);
    assert_eq!(service.node_name(), "node");
    assert_eq!(service.max_watches(), 10);
    assert_eq!(create(&mut service, "a", "ns", 2), 1);
    assert_eq!(create(&mut service, "b", "ns", 0), 2);
}

#[test]
fn v1_status_and_destroy() {
    let mut service = ArgusServiceImpl::new("node".to_string(), 10);
    let id = create(&mut service, "a", "ns", 3);
    let status = service.get_watch_status(id);
    assert!(status.active);
    assert_eq!(status.watch_count, 3);
    assert_eq!(status.events_detected, 0);
    assert!(status.error.is_empty());
    let reply = service.destroy_watch(id);
    assert!(reply.success);
    assert!(reply.error.is_empty());
    let reply = service.destroy_watch(id);
    assert!(!reply.success);
    assert_eq!(reply.error, "Session not found");
    let status = service.get_watch_status(id);
    assert!(!status.active);
    assert_eq!(status.watch_count, 0);
    assert_eq!(status.error, "Session not found");
}

#[test]
fn v1_listing_filters() {
    let mut service = ArgusServiceImpl::new("node".to_string(), 10);
    create(&mut service, "a", "prod", 1);
    create(&mut service, "b", "prod", 1);
    create(&mut service, "a", "dev", 1);
    assert_eq!(service.list_watches("", "").len(), 3);
    let mut ids: Vec<i64> = service.list_watches("a", "").iter().map(|w| w.session_id).collect();
    ids.sort();
    assert_eq!(ids, vec![1, 3]);
    let listed = service.list_watches("a", "dev");
    assert_eq!(listed.len(), 1);
    assert_eq!(listed[0].namespace, "dev");
    assert_eq!(listed[0].created_at, 1_700_000_000);
    assert!(service.list_watches("zz", "").is_empty());
}
