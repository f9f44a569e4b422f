use panoptes::errors::{FailureKind, ReadFailure, RuntimeError};
use panoptes::runtime::{
    container_path, detect_host_root, detect_runtime, detect_runtime_type, pid_from_read,
    proc_root_path, runtime_for_container, validate_container_id, AnyRuntime, ContainerRuntime,
    ContainerdRuntime, CriORuntime, RuntimeType,
};
use std::path::PathBuf;

#[test]
fn test_display() {
    assert_eq!(RuntimeType::Containerd.label(), "containerd");
    assert_eq!(RuntimeType::CriO.label(), "CRI-O");
}

#[test]
fn test_equality() {
    assert_eq!(RuntimeType::Containerd, RuntimeType::Containerd);
    assert_ne!(RuntimeType::Containerd, RuntimeType::CriO);
}

#[test]
fn test_containerd_prefix() {
    assert_eq!(
        detect_runtime_type("containerd://abc123def456"),
        Some(RuntimeType::Containerd)
    );
}

#[test]
fn test_crio_prefix() {
    assert_eq!(
        detect_runtime_type("cri-o://abc123def456"),
        Some(RuntimeType::CriO)
    );
}

#[test]
fn test_unknown_prefix() {
    assert_eq!(detect_runtime_type("docker://abc123"), None);
    assert_eq!(detect_runtime_type("unknown://abc123"), None);
    assert_eq!(detect_runtime_type("abc123"), None);
}

#[test]
fn test_empty_string() {
    assert_eq!(detect_runtime_type(""), None);
}

#[test]
fn test_valid_ids() {
    assert!(validate_container_id("abc123").is_ok());
    assert!(validate_container_id("ABC123").is_ok());
    assert!(validate_container_id("abc-123").is_ok());
    assert!(validate_container_id("abc_123").is_ok());
    assert!(validate_container_id("a1b2c3d4e5f6").is_ok());
}

#[test]
fn test_empty_id() {
    let result = validate_container_id("");
    assert!(result.is_err());
    assert!(result.unwrap_err().message().contains("empty"));
}

#[test]
fn test_path_traversal() {
    assert!(validate_container_id("../../../etc/passwd").is_err());
    assert!(validate_container_id("abc/../def").is_err());
    assert!(validate_container_id("abc/def").is_err());
    assert!(validate_container_id("abc\\def").is_err());
}

#[test]
fn test_null_byte() {
    assert!(validate_container_id("abc\0def").is_err());
}

#[test]
fn test_invalid_characters() {
    assert!(validate_container_id("abc.def").is_err());
    assert!(validate_container_id("abc:def").is_err());
    assert!(validate_container_id("abc def").is_err());
}

#[test]
fn container_runtime_test_resolve_container_root() {
    let runtime = ContainerdRuntime::new(None, false);
    let root = runtime.resolve_container_root(12345);
    assert_eq!(PathBuf::from(root), PathBuf::from("/proc/12345/root"));
    let runtime = CriORuntime::new(None, false);
    let root = runtime.resolve_container_root(12345);
    assert_eq!(PathBuf::from(root), PathBuf::from("/proc/12345/root"));
}

#[test]
fn container_runtime_test_resolve_container_path() {
    let runtime = ContainerdRuntime::new(None, false);
    let path = runtime.resolve_container_path(12345, "/etc/passwd");
    assert_eq!(PathBuf::from(path), PathBuf::from("/proc/12345/root/etc/passwd"));
}

#[test]
fn test_resolve_container_path_strips_leading_slash() {
    let runtime = ContainerdRuntime::new(None, false);
    let path1 = runtime.resolve_container_path(12345, "/etc/passwd");
    let path2 = runtime.resolve_container_path(12345, "etc/passwd");
    assert_eq!(path1, path2);
}

#[test]
fn container_runtime_test_pid_file_path() {
    let runtime = ContainerdRuntime::with_host_root("/".to_string());
    let path = runtime.pid_file_path("abc123");
    assert_eq!(
        PathBuf::from(path),
        PathBuf::from("/run/containerd/io.containerd.runtime.v2.task/k8s.io/abc123/init.pid")
    );
    let runtime = CriORuntime::with_host_root("/".to_string());
    let path = runtime.pid_file_path("abc123");
    assert_eq!(PathBuf::from(path), PathBuf::from("/var/run/crio/abc123/pidfile"));
}

#[test]
fn test_pid_file_path_with_host_root() {
    let runtime = ContainerdRuntime::with_host_root("/host".to_string());
    let path = runtime.pid_file_path("abc123");
    assert_eq!(
        PathBuf::from(path),
        PathBuf::from("/host/run/containerd/io.containerd.runtime.v2.task/k8s.io/abc123/init.pid")
    );
}

#[test]
fn test_containerd_id() {
    let runtime = runtime_for_container("containerd://abc123", "/".to_string()).unwrap();
    assert_eq!(runtime.runtime_type(), RuntimeType::Containerd);
}

#[test]
fn test_crio_id() {
    let runtime = runtime_for_container("cri-o://abc123", "/".to_string()).unwrap();
    assert_eq!(runtime.runtime_type(), RuntimeType::CriO);
}

#[test]
fn test_unknown_runtime() {
    let result = runtime_for_container("docker://abc123", "/".to_string());
    assert!(result.is_err());
    match result {
        Err(e) => assert!(e.message().contains("docker://abc123")),
        Ok(_) => panic!("expected error for unknown runtime"),
    }
}

#[test]
fn runtime_exact_paths() {
    assert_eq!(proc_root_path(1), "/proc/1/root");
    assert_eq!(container_path(7, "//etc/hosts"), "/proc/7/root/etc/hosts");
    let runtime = ContainerdRuntime::with_host_root("/host".to_string());
    assert_eq!(runtime.socket_path(), "/host/run/containerd/containerd.sock");
    let runtime = CriORuntime::with_host_root("/host".to_string());
    assert_eq!(runtime.socket_path(), "/host/var/run/crio/crio.sock");
}

#[test]
fn runtime_host_root_choice() {
    assert_eq!(detect_host_root(Some("/custom".to_string()), true), "/custom");
    assert_eq!(detect_host_root(None, true), "/host");
    assert_eq!(detect_host_root(None, false), "/");
}

#[test]
fn runtime_detect_prefers_containerd() {
    match detect_runtime("/".to_string(), true, true) {
        Some(AnyRuntime::Containerd(_)) => {}
        _ => panic!("containerd expected"),
    }
    match detect_runtime("/".to_string(), false, true) {
        Some(AnyRuntime::CriO(_)) => {}
        _ => panic!("CRI-O expected"),
    }
    assert!(detect_runtime("/".to_string(), false, false).is_none());
}

#[test]
fn runtime_pid_file_for_validates() {
    let runtime = ContainerdRuntime::with_host_root("/host".to_string());
    assert_eq!(
        runtime.pid_file_for("containerd://abc").unwrap(),
        "/host/run/containerd/io.containerd.runtime.v2.task/k8s.io/abc/init.pid"
    );
    match runtime.pid_file_for("containerd://../x") {
        Err(RuntimeError::InvalidContainerId { id, .. }) => assert_eq!(id, "../x"),
        _ => panic!("traversal must be refused"),
    }
    match runtime.pid_file_for("cri-o://abc") {
        Err(e) => assert_eq!(
            e.message(),
            "invalid container ID 'cri-o://abc': expected prefix 'containerd://'"
        ),
        _ => panic!("wrong prefix must be refused"),
    }
}

#[test]
fn runtime_pid_from_read_outcomes() {
    assert_eq!(pid_from_read("c", "/p", Ok(" 42\n".to_string())).unwrap(), 42);
    match pid_from_read("c", "/p", Ok("x".to_string())) {
        Err(e) => assert_eq!(e.message(), "invalid PID in file /p: expected integer, got 'x'"),
        _ => panic!("bad content must be refused"),
    }
    let missing = ReadFailure { kind: FailureKind::NotFound, message: "gone".to_string() };
    match pid_from_read("c", "/p", Err(missing)) {
        Err(e) => assert_eq!(e.message(), "PID file not found for container c: /p"),
        _ => panic!("missing file must be refused"),
    }
    let denied = ReadFailure { kind: FailureKind::PermissionDenied, message: "denied".to_string() };
    match pid_from_read("c", "/p", Err(denied)) {
        Err(e) => assert_eq!(e.message(), "failed to read PID file /p: denied"),
        _ => panic!("unreadable file must be refused"),
    }
}
