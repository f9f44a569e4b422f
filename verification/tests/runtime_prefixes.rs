use panoptes::runtime::{ContainerRuntime, ContainerdRuntime, CriORuntime};

#[test]
fn container_runtime_test_strip_prefix_valid() {
    let runtime = ContainerdRuntime::new(None, false);
    assert_eq!(runtime.strip_prefix("containerd://abc123").unwrap(), "abc123");
    let runtime = CriORuntime::new(None, false);
    assert_eq!(runtime.strip_prefix("cri-o://abc123").unwrap(), "abc123");
}

#[test]
fn container_runtime_test_strip_prefix_invalid() {
    let runtime = ContainerdRuntime::new(None, false);
    assert!(runtime.strip_prefix("cri-o://abc123").is_err());
    assert!(runtime.strip_prefix("abc123").is_err());
    let runtime = CriORuntime::new(None, false);
    assert!(runtime.strip_prefix("containerd://abc123").is_err());
    assert!(runtime.strip_prefix("abc123").is_err());
}
