use panoptes::stream_filter::StreamFilter;
use panoptes::capabilities::{
    argusd_required_caps, janusd_required_caps, missing_capabilities_message, CapabilityChecker,
    CapabilityError, LinuxCapabilityChecker, RequiredCapability,
};
use panoptes::ebpf::{is_ebpf_supported, path_to_key, EbpfError};
use panoptes::environment::{
    check_kernel_version, is_bpf_lsm_enabled, parse_kernel_version, DeploymentEnvironment,
    EnvironmentDetector, Feature, FeatureProbe, LinuxEnvironmentDetector, WarningSeverity,
};
use panoptes::errors::{CommonError, ProcError, RuntimeError, SecurityError};
use panoptes::glog::{source_file, thread_number, GlogLayer, LogLevel};
use panoptes::limits::{
    check_fd_limit, fd_limit_verdict, parse_proc_u64, read_fanotify_limits, read_inotify_limits,
    ResourceLimitError, ResourceLimitsInfo,
};
use panoptes::notify::{descend_allowed, stops_recursion, NotifyError};
use panoptes::startup::{fd_limit_advice, validate_capabilities, validate_environment, validate_fd_limit, StartupFailure};
use panoptes::paths::{detect_host_root, LinuxPathProvider, PathProvider, RuntimeType};
use panoptes::service::{InotifyEvent, WireFileEvent};
use std::path::PathBuf;

#[test]
fn test_runtime_error_display() {
    let err = RuntimeError::NoRuntimeDetected;
    assert!(err.message().contains("no supported container runtime"));

    let err = RuntimeError::UnknownRuntime { id: "docker://abc123".to_string() };
    assert!(err.message().contains("docker://abc123"));
}

#[test]
fn test_proc_error_display() {
    let err = ProcError::ProcessNotFound { pid: 12345 };
    assert!(err.message().contains("12345"));
    assert!(err.message().contains("not found"));
}

#[test]
fn test_security_error_display() {
    let err = SecurityError::MissingCapability { capability: "CAP_SYS_ADMIN".to_string() };
    assert!(err.message().contains("CAP_SYS_ADMIN"));
}

#[test]
fn test_error_conversion() {
    let runtime_err = RuntimeError::NoRuntimeDetected;
    let common_err: CommonError = runtime_err.into();
    assert!(matches!(common_err, CommonError::Runtime(_)));
}

#[test]
fn error_messages_exact() {
    assert_eq!(
        RuntimeError::ContainerRootNotAccessible { pid: 7 }.message(),
        "container root not accessible: /proc/7/root"
    );
    let common: CommonError = SecurityError::PathTraversal { path: "../x".to_string() }.into();
    assert!(common.message().starts_with("security error: "));
    assert!(common.message().contains("../x"));
    let common: CommonError = ProcError::ProcessNotFound { pid: 3 }.into();
    assert!(common.message().starts_with("proc error: "));
}

fn wire_event(name: &str, namespace: &str, event_type: InotifyEvent) -> WireFileEvent {
    WireFileEvent {
        timestamp: None,
        watcher_name: name.to_string(),
        namespace: namespace.to_string(),
        node_name: "node1".to_string(),
        pod_name: "pod1".to_string(),
        container_id: "container1".to_string(),
        event_type: event_type.code(),
        path: "/etc/hosts".to_string(),
        filename: "hosts".to_string(),
        is_directory: false,
        inode: 0,
        tags: Vec::new(),
        process_info: None,
        cluster_name: "test-cluster".to_string(),
    }
}

#[test]
fn test_filter_empty() {
    let filter = StreamFilter::new();
    assert!(filter.is_empty());

    let event = wire_event("any", "any", InotifyEvent::Access);
    assert!(filter.matches(&event));
}

#[test]
fn test_filter_by_name() {
    let filter = StreamFilter::new().with_name("watcher1");

    let matching = wire_event("watcher1", "default", InotifyEvent::Modify);
    let non_matching = wire_event("watcher2", "default", InotifyEvent::Modify);

    assert!(filter.matches(&matching));
    assert!(!filter.matches(&non_matching));
}

#[test]
fn test_filter_by_namespace() {
    let filter = StreamFilter::new().with_namespace("prod");

    let matching = wire_event("watcher1", "prod", InotifyEvent::Modify);
    let non_matching = wire_event("watcher1", "dev", InotifyEvent::Modify);

    assert!(filter.matches(&matching));
    assert!(!filter.matches(&non_matching));
}

#[test]
fn test_filter_by_event_types() {
    let filter =
        StreamFilter::new().with_event_types(vec!["modify".to_string(), "create".to_string()]);

    let matching1 = wire_event("w", "ns", InotifyEvent::Modify);
    let matching2 = wire_event("w", "ns", InotifyEvent::Create);
    let non_matching = wire_event("w", "ns", InotifyEvent::Delete);

    assert!(filter.matches(&matching1));
    assert!(filter.matches(&matching2));
    assert!(!filter.matches(&non_matching));
}

#[test]
fn test_filter_combined() {
    let filter = StreamFilter::new()
        .with_name("watcher1")
        .with_namespace("prod")
        .with_event_types(vec!["modify".to_string()]);

    let matching = wire_event("watcher1", "prod", InotifyEvent::Modify);
    assert!(filter.matches(&matching));

    let wrong_name = wire_event("watcher2", "prod", InotifyEvent::Modify);
    assert!(!filter.matches(&wrong_name));

    let wrong_ns = wire_event("watcher1", "dev", InotifyEvent::Modify);
    assert!(!filter.matches(&wrong_ns));

    let wrong_type = wire_event("watcher1", "prod", InotifyEvent::Delete);
    assert!(!filter.matches(&wrong_type));
}

#[test]
fn filter_with_condition_is_not_empty() {
    assert!(!StreamFilter::new().with_name("x").is_empty());
    assert!(!StreamFilter::new().with_event_types(vec!["open".to_string()]).is_empty());
    let copy = StreamFilter::new().with_namespace("ns").duplicate();
    assert_eq!(copy.namespace, Some("ns".to_string()));
}

#[test]
fn test_required_capability_display() {
    assert_eq!(RequiredCapability::SysAdmin.cap_name(), "CAP_SYS_ADMIN");
    assert_eq!(RequiredCapability::SysPtrace.cap_name(), "CAP_SYS_PTRACE");
    assert_eq!(RequiredCapability::AuditWrite.cap_name(), "CAP_AUDIT_WRITE");
}

#[test]
fn test_k8s_names() {
    assert_eq!(RequiredCapability::SysAdmin.k8s_name(), "SYS_ADMIN");
    assert_eq!(RequiredCapability::SysPtrace.k8s_name(), "SYS_PTRACE");
    assert_eq!(RequiredCapability::DacReadSearch.k8s_name(), "DAC_READ_SEARCH");
}

#[test]
fn test_descriptions() {
    for cap in &[
        RequiredCapability::SysAdmin,
        RequiredCapability::SysPtrace,
        RequiredCapability::DacReadSearch,
        RequiredCapability::AuditWrite,
        RequiredCapability::AuditRead,
        RequiredCapability::AuditControl,
    ] {
        assert!(!cap.description().is_empty());
    }
}

#[test]
fn test_linux_capability_checker_creation() {
    let _checker = LinuxCapabilityChecker::new();
}

#[test]
fn test_missing_capabilities_message() {
    let missing = vec![RequiredCapability::SysAdmin, RequiredCapability::SysPtrace];
    let msg = missing_capabilities_message(&missing, "janusd");

    assert!(msg.contains("janusd"));
    assert!(msg.contains("SYS_ADMIN"));
    assert!(msg.contains("SYS_PTRACE"));
    assert!(msg.contains("securityContext"));
}

#[test]
fn test_argusd_caps() {
    let caps = argusd_required_caps();
    assert_eq!(caps.len(), 1);
    assert!(caps.contains(&RequiredCapability::SysPtrace));
}

#[test]
fn test_janusd_caps() {
    let caps = janusd_required_caps();
    assert_eq!(caps.len(), 2);
    assert!(caps.contains(&RequiredCapability::SysAdmin));
    assert!(caps.contains(&RequiredCapability::SysPtrace));
}

#[test]
fn capability_checker_against_effective_set() {
    let checker = LinuxCapabilityChecker::with_effective(Some(vec![RequiredCapability::SysPtrace.number()]));
    assert!(checker.has_capability(RequiredCapability::SysPtrace));
    assert!(!checker.has_capability(RequiredCapability::SysAdmin));
    assert!(checker.require(RequiredCapability::SysPtrace).is_ok());
    let missing = checker.check_required(&janusd_required_caps());
    assert_eq!(missing, vec![RequiredCapability::SysAdmin]);
    match checker.require_all(&janusd_required_caps()) {
        Err(CapabilityError::MissingCapabilities(m)) => assert_eq!(m, vec![RequiredCapability::SysAdmin]),
        _ => panic!("a missing capability must be reported"),
    }
    let unread = LinuxCapabilityChecker::with_effective(None);
    assert!(!unread.has_capability(RequiredCapability::SysPtrace));
    assert_eq!(RequiredCapability::SysAdmin.number(), 21);
    assert_eq!(RequiredCapability::Bpf.number(), 39);
}

#[test]
fn test_deployment_environment_display() {
    assert_eq!(DeploymentEnvironment::Host.label(), "Host");
    assert_eq!(
        DeploymentEnvironment::ContainerWithHostAccess.label(),
        "Container (with host access)"
    );
    assert_eq!(DeploymentEnvironment::ContainerIsolated.label(), "Container (isolated)");
}

#[test]
fn test_feature_display() {
    assert_eq!(Feature::Inotify.label(), "inotify");
    assert_eq!(Feature::Fanotify.label(), "fanotify");
    assert_eq!(Feature::AuditNetlink.label(), "audit netlink");
}

#[test]
fn test_linux_environment_detector_creation() {
    let detector = LinuxEnvironmentDetector::new(false, None, false);
    let _ = detector.detect();
    let _ = detector.can_access_host();
    let _ = detector.environment_warnings();
}

fn probe() -> FeatureProbe {
    FeatureProbe { proc_exists: true, osrelease: Some("6.1.0-13-amd64".to_string()), btf_exists: true }
}

#[test]
fn test_validate_inotify() {
    let detector = LinuxEnvironmentDetector::new(false, None, false);
    assert!(detector.validate_for_feature(Feature::Inotify, &probe()).is_ok());
}

#[test]
fn test_validate_proc_access() {
    let detector = LinuxEnvironmentDetector::new(false, None, false);
    assert!(detector.validate_for_feature(Feature::ProcAccess, &probe()).is_ok());
}

#[test]
fn test_warning_severity_display() {
    assert_eq!(WarningSeverity::Info.label(), "INFO");
    assert_eq!(WarningSeverity::Warning.label(), "WARN");
    assert_eq!(WarningSeverity::Error.label(), "ERROR");
}

#[test]
fn environment_detection_outcomes() {
    let host = LinuxEnvironmentDetector::new(false, None, false);
    assert_eq!(host.detect(), DeploymentEnvironment::Host);
    assert!(host.environment_warnings().is_empty());
    let isolated = LinuxEnvironmentDetector::new(true, None, true);
    assert_eq!(isolated.detect(), DeploymentEnvironment::ContainerIsolated);
    assert!(!isolated.can_access_host());
    let codes: Vec<&str> = isolated.environment_warnings().iter().map(|w| w.code).collect();
    assert_eq!(codes, vec!["WSL_DETECTED", "NO_HOST_ACCESS", "AUDIT_LIMITED"]);
    let mounted = LinuxEnvironmentDetector::new(false, Some("/host".to_string()), true);
    assert_eq!(mounted.detect(), DeploymentEnvironment::ContainerWithHostAccess);
    assert!(mounted.can_access_host());
    assert!(mounted.validate_for_feature(Feature::AuditNetlink, &probe()).is_err());
    let old = FeatureProbe { proc_exists: false, osrelease: Some("5.4.0".to_string()), btf_exists: true };
    assert!(host.validate_for_feature(Feature::ProcAccess, &old).is_err());
    assert!(host.validate_for_feature(Feature::Ebpf, &old).is_ok());
    assert!(host.validate_for_feature(Feature::EbpfLsm, &old).is_err());
}

#[test]
fn mod_test_kernel_version_check() {
    let _ = check_kernel_version(Some("5.15.0-91-generic"), 5, 7);
    let _ = is_ebpf_supported(Some("5.15.0"), true);
}

#[test]
fn ebpf_support_test_kernel_version_check() {
    assert!(check_kernel_version(Some("5.15.0-91-generic"), 5, 7));
    assert!(check_kernel_version(Some("5.7.0"), 5, 7));
    assert!(!check_kernel_version(Some("5.6.19"), 5, 7));
    assert!(!check_kernel_version(Some("4.19.0"), 5, 7));
    assert!(check_kernel_version(Some("6.0"), 5, 7));
    assert!(!check_kernel_version(None, 5, 7));
    assert_eq!(parse_kernel_version("5.15.0-91-generic"), Some((5, 15)));
    assert_eq!(parse_kernel_version("garbage"), None);
    assert!(is_ebpf_supported(Some("5.15.0"), true));
    assert!(!is_ebpf_supported(Some("5.15.0"), false));
    assert!(!is_ebpf_supported(Some("5.4.0"), true));
}

#[test]
fn test_bpf_lsm_check() {
    assert!(is_bpf_lsm_enabled(Some("lockdown,capability,bpf\n")));
    assert!(!is_bpf_lsm_enabled(Some("lockdown,capability,selinux")));
    assert!(!is_bpf_lsm_enabled(None));
}

#[test]
fn test_ebpf_error_display() {
    let err = EbpfError::NotSupported;
    assert!(err.message().contains("5.7"));

    let err = EbpfError::Attach("test".into());
    assert!(err.message().contains("test"));
}

#[test]
fn ebpf_path_key_is_zero_filled() {
    let key: [u8; 8] = path_to_key(&b"/etc".to_vec());
    assert_eq!(key, [b'/', b'e', b't', b'c', 0, 0, 0, 0]);
    let key: [u8; 3] = path_to_key(&b"/etc".to_vec());
    assert_eq!(key, [b'/', b'e', b't']);
}

#[test]
fn test_runtime_type_socket_paths() {
    assert_eq!(RuntimeType::Containerd.default_socket_path(), "run/containerd/containerd.sock");
    assert_eq!(RuntimeType::CriO.default_socket_path(), "var/run/crio/crio.sock");
}

#[test]
fn test_linux_path_provider_creation() {
    let provider = LinuxPathProvider::new("/".to_string());
    let _ = provider.host_root();
    let _ = provider.proc_path();
}

#[test]
fn test_runtime_socket_on_host() {
    let provider = LinuxPathProvider::with_paths("/".to_string(), "/proc".to_string());
    assert_eq!(
        PathBuf::from(provider.runtime_socket(RuntimeType::Containerd)),
        PathBuf::from("/run/containerd/containerd.sock")
    );
    assert_eq!(
        PathBuf::from(provider.runtime_socket(RuntimeType::CriO)),
        PathBuf::from("/var/run/crio/crio.sock")
    );
}

#[test]
fn test_runtime_socket_in_container() {
    let provider = LinuxPathProvider::with_paths("/host".to_string(), "/proc".to_string());
    assert_eq!(
        PathBuf::from(provider.runtime_socket(RuntimeType::Containerd)),
        PathBuf::from("/host/run/containerd/containerd.sock")
    );
}

#[test]
fn paths_test_resolve_container_path() {
    let provider = LinuxPathProvider::with_paths("/".to_string(), "/proc".to_string());
    assert_eq!(
        PathBuf::from(provider.resolve_container_path(1234, "/etc/passwd")),
        PathBuf::from("/proc/1234/root/etc/passwd")
    );
    assert_eq!(
        PathBuf::from(provider.resolve_container_path(5678, "/var/log/messages")),
        PathBuf::from("/proc/5678/root/var/log/messages")
    );
}

#[test]
fn test_resolve_path_absolute() {
    let provider = LinuxPathProvider::with_paths("/host".to_string(), "/proc".to_string());
    assert_eq!(
        PathBuf::from(provider.resolve_path("/etc/passwd")),
        PathBuf::from("/host/etc/passwd")
    );
}

#[test]
fn test_resolve_path_relative() {
    let provider = LinuxPathProvider::with_paths("/host".to_string(), "/proc".to_string());
    assert_eq!(
        PathBuf::from(provider.resolve_path("relative/path")),
        PathBuf::from("relative/path")
    );
}

#[test]
fn test_with_overrides() {
    let provider = LinuxPathProvider::with_overrides(Some("/custom".to_string()), None, "/".to_string());
    assert_eq!(provider.host_root(), "/custom");
    assert_eq!(provider.proc_path(), "/proc");
}

#[test]
fn paths_host_root_detection() {
    assert_eq!(detect_host_root(Some("/custom".to_string()), true, true), "/custom");
    assert_eq!(detect_host_root(Some("/custom".to_string()), false, true), "/host");
    assert_eq!(detect_host_root(None, false, false), "/");
}

#[test]
fn test_check_fd_limit_success() {
    let result = check_fd_limit(100, 100);
    assert!(result.is_ok());
}

#[test]
fn test_check_fd_limit_too_low() {
    let result = check_fd_limit(u64::MAX / 2, u64::MAX / 2);
    assert!(result.is_err());

    if let Err(ResourceLimitError::FdLimitTooLow { current, required }) = result {
        assert!(current < required);
    } else {
        panic!("Expected FdLimitTooLow error");
    }
}

#[test]
fn test_read_inotify_limits() {
    let (watches, queued) = read_inotify_limits(Ok("524288\n".to_string()), Err("missing".to_string()));
    assert!(watches > 0);
    assert!(queued > 0);
    assert_eq!((watches, queued), (524288, 16384));
}

#[test]
fn test_read_fanotify_limits() {
    let (marks, queued) = read_fanotify_limits(Err("missing".to_string()), Ok("abc".to_string()));
    assert_eq!((marks, queued), (8192, 16384));
}

#[test]
fn test_saturating_add_prevents_overflow() {
    let result = check_fd_limit(u64::MAX, u64::MAX);
    assert!(result.is_err());
}

#[test]
fn limits_verdict_and_parse() {
    assert_eq!(fd_limit_verdict(1024, 100, 100).unwrap(), 1024);
    match fd_limit_verdict(150, 100, 100) {
        Err(e) => assert_eq!(
            e.message(),
            "file descriptor limit too low: 150 < 200 (adjust with: ulimit -n 200)"
        ),
        _ => panic!("too low expected"),
    }
    assert_eq!(parse_proc_u64("/p", Ok(" 42 \n".to_string())).unwrap(), 42);
    match parse_proc_u64("/p", Err("nope".to_string())) {
        Err(e) => assert_eq!(e.message(), "failed to read /p: nope"),
        _ => panic!("error expected"),
    }
}

#[test]
fn test_glog_format_info() {
    let mut layer = GlogLayer::new(LogLevel::Info, "20240101 12:00:00.000000", 1, "main.rs", 10);
    layer.record("message", "Test message");
    let output = layer.finish();
    assert!(output.starts_with('I'), "Should start with 'I': {}", output);
    assert!(output.contains("Test message"));
    assert!(output.ends_with('\n'));
    assert_eq!(output, "I20240101 12:00:00.000000 1 main.rs:10] Test message\n");
}

#[test]
fn test_glog_format_with_fields() {
    let mut layer = GlogLayer::new(LogLevel::Info, "20240101 12:00:00.000000", 1, "main.rs", 10);
    layer.record("version", "2.0.0");
    layer.record_value("port", "50051");
    layer.record("message", "Starting server");
    let output = layer.finish();
    assert!(output.contains("version="));
    assert!(output.contains("port="));
}

#[test]
fn test_level_characters() {
    let cases = [
        (LogLevel::Error, 'E'),
        (LogLevel::Warn, 'W'),
        (LogLevel::Info, 'I'),
        (LogLevel::Debug, 'D'),
        (LogLevel::Trace, 'T'),
    ];
    for (level, expected) in cases {
        assert_eq!(level.level_char(), expected);
    }
}

#[test]
fn glog_thread_and_file() {
    assert_eq!(thread_number("ThreadId(17)"), 17);
    assert_eq!(thread_number("main"), 0);
    assert_eq!(source_file(Some("src/deep/main.rs")), "main.rs");
    assert_eq!(source_file(None), "unknown");
}

#[test]
fn test_resource_limits_info_collect() {
    let info = ResourceLimitsInfo::collect(
        Ok("8192".to_string()),
        Ok("16384".to_string()),
        Err("missing".to_string()),
        Ok("x".to_string()),
        Ok("100".to_string()),
    );
    assert!(info.fd_soft_limit > 0);
    assert!(info.fd_hard_limit >= info.fd_soft_limit);
    assert_eq!(info.inotify_max_instances, 128);
    assert_eq!(info.fanotify_max_marks, 8192);
    assert_eq!(info.fanotify_max_queued, 100);
}

#[test]
fn startup_checks() {
    let host = LinuxEnvironmentDetector::new(false, None, false);
    assert!(validate_environment(&host, &probe()).is_ok());
    let no_proc = FeatureProbe { proc_exists: false, osrelease: None, btf_exists: false };
    match validate_environment(&host, &no_proc) {
        Err(e) => assert_eq!(e.message(), "/proc access validation failed"),
        Ok(()) => panic!("/proc is needed"),
    }
    let checker = LinuxCapabilityChecker::with_effective(Some(vec![RequiredCapability::SysPtrace.number()]));
    assert!(validate_capabilities(&checker).is_ok());
    match validate_capabilities(&LinuxCapabilityChecker::with_effective(None)) {
        Err(StartupFailure::MissingCapabilities { report }) => {
            assert!(report.contains("argusd"));
            assert!(report.contains("SYS_PTRACE"));
        }
        _ => panic!("missing capability expected"),
    }
    assert!(validate_fd_limit(100).is_ok());
    assert!(matches!(validate_fd_limit(usize::MAX), Err(StartupFailure::FdLimit(_))));
    assert_eq!(fd_limit_advice(10000), "Increase with: ulimit -n 11024 (or update container securityContext)");
}

#[test]
fn recursion_rules() {
    assert!(descend_allowed(0, 100));
    assert!(descend_allowed(3, 2));
    assert!(!descend_allowed(3, 3));
    assert!(stops_recursion(&NotifyError::KernelWatchLimitReached));
    assert!(stops_recursion(&NotifyError::MaxWatchesExceeded { current: 1, limit: 1 }));
    assert!(!stops_recursion(&NotifyError::PathNotFound("/x".to_string())));
}
