use blitz_host::discovery::{resolve_target_from_hosts, ErrorKind, TargetSelector};
use blitz_host::protocol::HostDescriptor;

fn dummy_descriptor(pid: u32) -> HostDescriptor {
    HostDescriptor {
        protocol_version: 1,
        pid,
        instance_id: format!("test-{pid}"),
        socket_path: format!("/tmp/test-{pid}.sock"),
        renderer: "test".to_string(),
        renderer_version: "0.1.0".to_string(),
        primary_window_id: None,
        primary_document_id: None,
    }
}

#[test]
fn test_resolve_target_auto_zero_hosts_returns_not_found() {
    let res = resolve_target_from_hosts(&TargetSelector::Auto, vec![]);
    assert!(res.is_err());
    assert_eq!(res.unwrap_err().kind(), ErrorKind::NotFound);
}

#[test]
fn test_resolve_target_auto_single_host_succeeds() {
    let host1 = dummy_descriptor(1001);
    let res = resolve_target_from_hosts(&TargetSelector::Auto, vec![host1]);
    assert!(res.is_ok());
    assert_eq!(res.unwrap().pid, 1001);
}

#[test]
fn test_resolve_target_auto_multiple_hosts_blocks_with_ambiguity() {
    let host1 = dummy_descriptor(1001);
    let host2 = dummy_descriptor(1002);
    let res = resolve_target_from_hosts(&TargetSelector::Auto, vec![host1, host2]);
    assert!(res.is_err());
    let err = res.unwrap_err();
    assert_eq!(err.kind(), ErrorKind::InvalidInput);
    let msg = err.to_string();
    assert!(msg.contains("Multiple active Blitz hosts detected"));
    assert!(msg.contains("1001"));
    assert!(msg.contains("1002"));
    assert!(msg.contains("--pid"));
}

#[test]
fn test_resolve_target_pid_disambiguation_succeeds() {
    let host1 = dummy_descriptor(1001);
    let host2 = dummy_descriptor(1002);
    let res = resolve_target_from_hosts(&TargetSelector::Pid(1002), vec![host1, host2]);
    assert!(res.is_ok());
    assert_eq!(res.unwrap().pid, 1002);
}

#[test]
fn test_resolve_target_pid_missing_returns_not_found() {
    let host1 = dummy_descriptor(1001);
    let res = resolve_target_from_hosts(&TargetSelector::Pid(9999), vec![host1]);
    assert!(res.is_err());
    assert_eq!(res.unwrap_err().kind(), ErrorKind::NotFound);
}
