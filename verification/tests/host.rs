use blitz_host::host::{
    action_reply, click_outcome, debug_control_enabled, init_step, inspect_reply, InitStep,
};
use blitz_host::protocol::{ActionResponse, ControlResponse, InspectResponse};

fn args(list: &[&str]) -> Vec<String> {
    list.iter().map(|s| s.to_string()).collect()
}

#[test]
fn debug_control_is_on_by_default() {
    assert!(debug_control_enabled(&args(&["app"]), None, None));
    assert!(debug_control_enabled(&args(&["app", "--debug"]), Some("1"), Some("0")));
    assert!(debug_control_enabled(&args(&["app"]), Some("yes"), Some("no")));
}

#[test]
fn debug_control_can_be_switched_off() {
    assert!(!debug_control_enabled(&args(&["app", "--no-debug-control"]), None, None));
    assert!(!debug_control_enabled(&args(&["app"]), Some("0"), None));
    assert!(!debug_control_enabled(&args(&["app"]), Some("FaLsE"), None));
    assert!(!debug_control_enabled(&args(&["app"]), None, Some("1")));
    assert!(!debug_control_enabled(&args(&["app"]), None, Some("TRUE")));
    assert!(debug_control_enabled(&args(&["app"]), Some(" 0"), None));
}

#[test]
fn clicks_on_missing_nodes_are_refused() {
    assert_eq!(click_outcome(42, false, true), Err("Node #42 not found in document".to_string()));
}

#[test]
fn clicks_on_existing_nodes_succeed_handled_or_not() {
    let handled = click_outcome(7, true, true).unwrap();
    assert_eq!(
        handled,
        ActionResponse {
            success: true,
            node_id: 7,
            handled: Some(true),
            message: Some("Dispatched synthetic click to node #7 (handled by listener)".to_string()),
        }
    );
    let background = click_outcome(8, true, false).unwrap();
    assert!(background.success);
    assert_eq!(background.handled, Some(false));
    assert_eq!(
        background.message.as_deref(),
        Some("Dispatched synthetic click to node #8 (unhandled, background click)")
    );
}

#[test]
fn replies_wrap_results() {
    let ok = ActionResponse { success: true, node_id: 1, handled: None, message: None };
    assert_eq!(action_reply(Ok(ok.clone())), ControlResponse::ActionSuccess(ok));
    assert_eq!(action_reply(Err("nope".to_string())), ControlResponse::Error("nope".to_string()));
    let resp = InspectResponse {
        document_id: 1,
        root_id: 2,
        node_count: 0,
        current_frame: None,
        focused_node_id: None,
        hover_node_id: None,
        viewport_scroll: None,
        nodes: vec![],
        message: None,
    };
    match inspect_reply(resp, 12) {
        ControlResponse::InspectSuccess(r) => {
            assert_eq!(r.current_frame, Some(12));
            assert_eq!(r.root_id, 2);
        }
        other => panic!("unexpected {other:?}"),
    }
}

#[test]
fn global_initialization_steps() {
    assert_eq!(init_step(false, true), InitStep::Disabled);
    assert_eq!(init_step(true, true), InitStep::AlreadyActive);
    assert_eq!(init_step(true, false), InitStep::Start);
}
