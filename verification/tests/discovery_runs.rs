use blitz_host::discovery::{
    discover, discover_target, host_fate, is_descriptor_file, newest_first,
    resolve_target_from_hosts, DiscoveryAction, DiscoveryEvent, DiscoveryStage, ErrorKind,
    HostError, HostFate, TargetSelector,
};
use blitz_host::protocol::HostDescriptor;

fn host(pid: u32) -> HostDescriptor {
    HostDescriptor {
        protocol_version: 1,
        pid,
        instance_id: format!("{pid}-100"),
        socket_path: format!("/tmp/blitz-host/{pid}-100.sock"),
        renderer: "blitz".to_string(),
        renderer_version: "0.1.0".to_string(),
        primary_window_id: None,
        primary_document_id: None,
    }
}

fn explicit(path: &str, label: &str) -> HostDescriptor {
    HostDescriptor {
        protocol_version: 1,
        pid: 0,
        instance_id: label.to_string(),
        socket_path: path.to_string(),
        renderer: "blitz".to_string(),
        renderer_version: "unknown".to_string(),
        primary_window_id: None,
        primary_document_id: None,
    }
}

#[test]
fn resolution_messages_are_exact() {
    let e = resolve_target_from_hosts(&TargetSelector::Auto, vec![]).unwrap_err();
    assert_eq!(e.to_string(), "No active blitz-host instances found in $TMPDIR/blitz-host");
    let e = resolve_target_from_hosts(&TargetSelector::Pid(9999), vec![host(1)]).unwrap_err();
    assert_eq!(e.to_string(), "No live, reachable Blitz host found with PID 9999");
    let e = resolve_target_from_hosts(&TargetSelector::Auto, vec![host(1001), host(1002), host(7)])
        .unwrap_err();
    assert_eq!(e.kind(), ErrorKind::InvalidInput);
    assert_eq!(
        e.to_string(),
        "Multiple active Blitz hosts detected (PIDs: [1001, 1002, 7]). Target is ambiguous: please specify --pid <PID> (or connect_pid) to target a specific host."
    );
    let e = resolve_target_from_hosts(&TargetSelector::ExplicitPath("/x.json".to_string()), vec![host(1)])
        .unwrap_err();
    assert_eq!(e.kind(), ErrorKind::InvalidInput);
    assert_eq!(e.to_string(), "Cannot resolve explicit path '/x.json' from host list");
}

#[test]
fn pid_resolution_takes_the_first_match() {
    let mut second = host(5);
    second.instance_id = "other".to_string();
    let got = resolve_target_from_hosts(&TargetSelector::Pid(5), vec![host(4), host(5), second]).unwrap();
    assert_eq!(got, host(5));
}

#[test]
fn explicit_socket_discovery_probes_existence_then_reachability() {
    let path = "/tmp/blitz-host/a.sock".to_string();
    let (mut run, action) = discover_target(&TargetSelector::ExplicitPath(path.clone()));
    assert_eq!(action, DiscoveryAction::CheckExists(path.clone()));
    assert_eq!(run.stage, DiscoveryStage::AwaitExists);
    let action = run.step(DiscoveryEvent::Exists(true));
    assert_eq!(action, DiscoveryAction::CheckReachable(explicit(&path, "explicit-socket")));
    let action = run.step(DiscoveryEvent::Reachable(false));
    assert_eq!(
        action,
        DiscoveryAction::Finished(Err(HostError::new(
            ErrorKind::ConnectionRefused,
            "Control socket at '/tmp/blitz-host/a.sock' is unreachable".to_string()
        )))
    );
    assert_eq!(run.stage, DiscoveryStage::Done);
}

#[test]
fn explicit_path_that_does_not_exist_is_not_found() {
    let (mut run, _) = discover_target(&TargetSelector::ExplicitPath("/tmp/none.json".to_string()));
    let action = run.step(DiscoveryEvent::Exists(false));
    assert_eq!(
        action,
        DiscoveryAction::Finished(Err(HostError::new(
            ErrorKind::NotFound,
            "Explicit descriptor or socket '/tmp/none.json' does not exist".to_string()
        )))
    );
}

#[test]
fn explicit_descriptor_is_read_then_probed() {
    let (mut run, _) = discover(Some("/tmp/blitz-host/9-1.json"));
    let action = run.step(DiscoveryEvent::Exists(true));
    assert_eq!(action, DiscoveryAction::ReadDescriptor("/tmp/blitz-host/9-1.json".to_string()));
    let action = run.step(DiscoveryEvent::DescriptorRead(Ok(host(9))));
    assert_eq!(action, DiscoveryAction::CheckReachable(host(9)));
    let action = run.step(DiscoveryEvent::Reachable(true));
    assert_eq!(action, DiscoveryAction::Finished(Ok(host(9))));
}

#[test]
fn named_pipe_is_probed_at_once() {
    let pipe = r"\\.\pipe\blitz-host-1".to_string();
    let (mut run, action) = discover_target(&TargetSelector::ExplicitPath(pipe.clone()));
    assert_eq!(action, DiscoveryAction::CheckReachable(explicit(&pipe, "explicit-pipe")));
    let action = run.step(DiscoveryEvent::Reachable(false));
    assert_eq!(
        action,
        DiscoveryAction::Finished(Err(HostError::new(
            ErrorKind::ConnectionRefused,
            r"Explicit Named Pipe at '\\.\pipe\blitz-host-1' is unreachable".to_string()
        )))
    );
}

#[test]
fn automatic_discovery_resolves_the_listed_hosts() {
    let (mut run, action) = discover(None);
    assert_eq!(run.selector, TargetSelector::Auto);
    assert_eq!(action, DiscoveryAction::ListHosts);
    let action = run.step(DiscoveryEvent::HostsListed(Ok(vec![host(77)])));
    assert_eq!(action, DiscoveryAction::Finished(Ok(host(77))));
    let (mut run, _) = discover_target(&TargetSelector::Pid(3));
    let err = HostError::new(ErrorKind::Other, "denied".to_string());
    let action = run.step(DiscoveryEvent::HostsListed(Err(err.clone())));
    assert_eq!(action, DiscoveryAction::Finished(Err(err)));
}

#[test]
fn hosts_are_listed_newest_first_and_stably() {
    let entries = vec![(5u64, "a"), (9, "b"), (5, "c"), (7, "d"), (9, "e")];
    let sorted = newest_first(entries);
    assert_eq!(sorted, vec![(9, "b"), (9, "e"), (7, "d"), (5, "a"), (5, "c")]);
    let empty: Vec<(u64, u8)> = newest_first(Vec::new());
    assert!(empty.is_empty());
}

#[test]
fn descriptor_files_are_json_files() {
    assert!(is_descriptor_file("/tmp/blitz-host/123-456.json"));
    assert!(!is_descriptor_file("/tmp/blitz-host/123-456.sock"));
    assert!(!is_descriptor_file("/tmp/blitz-host/123-456.tmp.12"));
    assert!(!is_descriptor_file("json"));
    assert!(!is_descriptor_file("/tmp/blitz-host/.json"));
}

#[test]
fn unreachable_hosts_are_reaped_only_when_dead() {
    assert_eq!(host_fate(true, false), HostFate::Listed);
    assert_eq!(host_fate(false, false), HostFate::Reaped);
    assert_eq!(host_fate(false, true), HostFate::Skipped);
}

#[test]
fn discover_starts_as_discover_target() {
    let pipe = r"\\.\pipe\blitz-host-1";
    let (run, action) = discover(Some(pipe));
    assert_eq!(action, DiscoveryAction::CheckReachable(explicit(pipe, "explicit-pipe")));
    assert_eq!(run.selector, TargetSelector::ExplicitPath(pipe.to_string()));
    let (run, action) = discover(Some("/tmp/blitz-host/9-1.json"));
    assert_eq!(action, DiscoveryAction::CheckExists("/tmp/blitz-host/9-1.json".to_string()));
    assert_eq!(run.stage, DiscoveryStage::AwaitExists);
}
