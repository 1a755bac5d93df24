use blitz_host::cli::parse_compound_key;
use blitz_host::discovery::{resolve_target_from_hosts, TargetSelector};
use blitz_host::protocol::{ElementTarget, HostDescriptor};
use blitz_host::settle::SettleQueue;
use blitz_host::transport::{frame, instance_id_for, line_payload};

fn host(pid: u32) -> HostDescriptor {
    HostDescriptor {
        protocol_version: 1,
        pid,
        instance_id: format!("{pid}"),
        socket_path: format!("/tmp/{pid}.sock"),
        renderer: "blitz".to_string(),
        renderer_version: "0.1.0".to_string(),
        primary_window_id: None,
        primary_document_id: None,
    }
}

#[test]
fn node_id_text_names_the_node() {
    for id in [0u64, 7, 10, 4294967402, u64::MAX] {
        assert_eq!(ElementTarget::from_text(&id.to_string()), ElementTarget::Id(id));
        assert_eq!(ElementTarget::from_text(&format!("\t{id} ")), ElementTarget::from_text(&id.to_string()));
    }
}

#[test]
fn resolution_answers_only_listed_hosts() {
    let hosts = vec![host(3), host(4)];
    let got = resolve_target_from_hosts(&TargetSelector::Pid(4), hosts.clone()).unwrap();
    assert!(hosts.contains(&got));
    assert_eq!(got.pid, 4);
    let e = resolve_target_from_hosts(&TargetSelector::Auto, hosts).unwrap_err();
    assert!(e.to_string().contains("3") && e.to_string().contains("4"));
}

#[test]
fn framed_messages_read_back() {
    for msg in ["{}", "{\"type\":\"inspect\"}", ""] {
        assert_eq!(line_payload(&frame(msg.to_string())), msg);
    }
}

#[test]
fn instance_ids_differ_for_different_starts() {
    assert_ne!(instance_id_for(12, 345), instance_id_for(123, 45));
    assert_ne!(instance_id_for(1, 2), instance_id_for(1, 3));
    assert_eq!(instance_id_for(1, 2), instance_id_for(1, 2));
}

#[test]
fn repolling_answers_nothing_and_late_polls_answer_all() {
    let mut q: SettleQueue<u32> = SettleQueue::new();
    for (i, frames) in [3u32, 0, 9, 1].iter().enumerate() {
        q.enqueue(i as u32, 100, *frames);
    }
    let first = q.drain_due(101);
    assert_eq!(first.iter().map(|a| a.0).collect::<Vec<_>>(), vec![1, 3]);
    assert!(q.drain_due(101).is_empty());
    let rest = q.drain_due(1000);
    assert_eq!(rest.iter().map(|a| a.0).collect::<Vec<_>>(), vec![0, 2]);
    assert!(q.pending.is_empty());
}

#[test]
fn plain_keys_have_no_modifiers_and_named_ones_hold_a_key() {
    assert_eq!(parse_compound_key("  Escape "), ("Escape".to_string(), None));
    let (_, m) = parse_compound_key("alt+F4");
    let m = m.unwrap();
    assert!(m.shift || m.ctrl || m.alt || m.meta);
}
