use std::sync::mpsc::{channel, sync_channel, SyncSender};

use blitz_host::bridge::{ControlBridgeRequest, HostBridge, LiveDocument};
use blitz_host::live::Dispatching;
use blitz_host::capture::CaptureAttempt;
use blitz_host::dom::{inspect_document, DocumentModel, NodeFacts, NodeKind, SelectorLookup};
use blitz_host::protocol::{
    ActionRequest, ActionResponse, CaptureRequest, ControlRequest, ControlResponse,
    InspectRequest, SettleRequest,
};

/// Sends each owed reply on its channel, as the host does; gives how many.
fn deliver(replies: Vec<(SyncSender<ControlResponse>, ControlResponse)>) -> usize {
    let count = replies.len();
    for (channel, reply) in replies {
        channel.send(reply).unwrap();
    }
    count
}

struct FakeDocument {
    model: DocumentModel,
    dispatched: Vec<ActionRequest>,
}

impl LiveDocument for FakeDocument {
    fn model(&self) -> &DocumentModel {
        &self.model
    }

    fn lookup_selector(&self, query: &str, _bare_id: &str) -> SelectorLookup {
        if query == "#app" {
            SelectorLookup { query: Ok(Some(0)), by_id: None }
        } else {
            SelectorLookup { query: Ok(None), by_id: None }
        }
    }

    fn dispatch(&mut self, action: &ActionRequest) -> Result<ActionResponse, String> {
        self.dispatched.push(action.clone());
        match action {
            ActionRequest::Focus { node_id, .. } => {
                let nid = node_id.unwrap();
                self.model.focused = Some(nid);
                Ok(ActionResponse {
                    success: true,
                    node_id: nid,
                    handled: None,
                    message: Some("focused".into()),
                })
            }
            _ => Err("unsupported".into()),
        }
    }

    fn capture(&mut self, _node_id: Option<u64>, _output_path: &str) -> CaptureAttempt {
        CaptureAttempt::Stored { width: 800, height: 600, bytes: 10 }
    }
}

fn document() -> FakeDocument {
    FakeDocument {
        model: DocumentModel {
            document_id: 1,
            root_id: 0,
            focused: None,
            hovered: None,
            viewport_scroll: [0, 0],
            nodes: vec![NodeFacts {
                id: 0,
                parent: None,
                kind: NodeKind::Document,
                position: [0, 0],
                size: [0, 0],
                scroll_offset: [0, 0],
                hovered: false,
                active: false,
                children: vec![],
            }],
        },
        dispatched: vec![],
    }
}

#[test]
fn test_bridge_focus_and_set_value_actions() {
    let mut doc = Dispatching::new(document());
    let root_id = doc.document().model.root_id;
    let (tx, rx) = channel::<ControlBridgeRequest>();
    let mut bridge = HostBridge::new(rx);

    let (focus_resp_tx, focus_resp_rx) = sync_channel(1);
    tx.send(ControlBridgeRequest {
        request: ControlRequest::Act(ActionRequest::Focus {
            window_id: None,
            node_id: Some(root_id),
            selector: None,
            target: None,
        }),
        reply: focus_resp_tx,
    })
    .unwrap();

    let serviced = deliver(bridge.poll_and_service_with(&mut doc, 1));
    assert_eq!(serviced, 1);
    let resp = focus_resp_rx.recv().unwrap();
    assert!(matches!(resp, ControlResponse::ActionSuccess(_)));

    let inspected = inspect_document(&doc.document().model, &InspectRequest::default(), &SelectorLookup { query: Ok(None), by_id: None });
    assert_eq!(inspected.focused_node_id, Some(root_id));
    assert_eq!(inspected.nodes[0].focused, Some(true));
}

#[test]
fn bridge_reports_refused_actions_as_errors() {
    let mut doc = Dispatching::new(document());
    let (tx, rx) = channel::<ControlBridgeRequest>();
    let mut bridge = HostBridge::new(rx);
    let (set_tx, set_rx) = sync_channel(1);
    tx.send(ControlBridgeRequest {
        request: ControlRequest::Act(ActionRequest::SetValue {
            window_id: None,
            node_id: Some(0),
            selector: None,
            target: None,
            value: "hello".into(),
        }),
        reply: set_tx,
    })
    .unwrap();
    assert_eq!(deliver(bridge.poll_and_service_with(&mut doc, 2)), 1);
    assert_eq!(set_rx.recv().unwrap(), ControlResponse::Error("unsupported".into()));
    assert_eq!(doc.document().dispatched.len(), 1);
}

#[test]
fn bridge_answers_inspections_with_the_frame() {
    let mut doc = Dispatching::new(document());
    let (tx, rx) = channel::<ControlBridgeRequest>();
    let mut bridge = HostBridge::new(rx);
    let (reply_tx, reply_rx) = sync_channel(1);
    tx.send(ControlBridgeRequest {
        request: ControlRequest::Inspect(InspectRequest {
            selector: Some("#app".into()),
            ..InspectRequest::default()
        }),
        reply: reply_tx,
    })
    .unwrap();
    assert_eq!(deliver(bridge.poll_and_service_with(&mut doc, 10)), 1);
    match reply_rx.recv().unwrap() {
        ControlResponse::InspectSuccess(r) => {
            assert_eq!(r.current_frame, Some(10));
            assert_eq!(r.root_id, 0);
            assert_eq!(r.nodes[0].tag, "#document");
        }
        other => panic!("unexpected {other:?}"),
    }
}

#[test]
fn bridge_settles_after_the_requested_frames() {
    let mut doc = Dispatching::new(document());
    let (tx, rx) = channel::<ControlBridgeRequest>();
    let mut bridge = HostBridge::new(rx);
    let (reply_tx, reply_rx) = sync_channel(1);
    tx.send(ControlBridgeRequest {
        request: ControlRequest::Settle(SettleRequest { window_id: None, frames: 2 }),
        reply: reply_tx,
    })
    .unwrap();
    assert_eq!(deliver(bridge.poll_and_service_with(&mut doc, 5)), 0);
    assert!(reply_rx.try_recv().is_err());
    assert_eq!(deliver(bridge.poll_and_service_with(&mut doc, 6)), 0);
    assert_eq!(deliver(bridge.poll_and_service_with(&mut doc, 7)), 1);
    match reply_rx.recv().unwrap() {
        ControlResponse::SettleSuccess(s) => {
            assert!(s.settled);
            assert_eq!(s.frames_waited, 2);
            assert_eq!(s.current_frame, 7);
        }
        other => panic!("unexpected {other:?}"),
    }
}

#[test]
fn bridge_captures_and_refuses_missing_nodes() {
    let mut doc = Dispatching::new(document());
    let (tx, rx) = channel::<ControlBridgeRequest>();
    let mut bridge = HostBridge::new(rx);
    let (full_tx, full_rx) = sync_channel(1);
    tx.send(ControlBridgeRequest {
        request: ControlRequest::Capture(CaptureRequest {
            window_id: None,
            node_id: None,
            selector: None,
            target: None,
            output_path: "target/full.png".into(),
        }),
        reply: full_tx,
    })
    .unwrap();
    let (node_tx, node_rx) = sync_channel(1);
    tx.send(ControlBridgeRequest {
        request: ControlRequest::Capture(CaptureRequest {
            window_id: None,
            node_id: Some(999999),
            selector: None,
            target: None,
            output_path: "target/none.png".into(),
        }),
        reply: node_tx,
    })
    .unwrap();
    assert_eq!(deliver(bridge.poll_and_service(&mut doc)), 2);
    match full_rx.recv().unwrap() {
        ControlResponse::CaptureSuccess(c) => {
            assert!(c.success);
            assert_eq!(c.width, 800);
            assert_eq!(c.file_path, "target/full.png");
        }
        other => panic!("unexpected {other:?}"),
    }
    match node_rx.recv().unwrap() {
        ControlResponse::CaptureSuccess(c) => {
            assert!(!c.success, "capture of non-existent node must report failure");
            assert!(c.message.unwrap().contains("not found in document"));
        }
        other => panic!("unexpected {other:?}"),
    }
}

#[test]
fn bridge_without_dispatcher_refuses_actions() {
    let mut doc = Dispatching::new(document());
    let (tx, rx) = channel::<ControlBridgeRequest>();
    let mut bridge = HostBridge::new(rx);
    let (reply_tx, reply_rx) = sync_channel(1);
    tx.send(ControlBridgeRequest {
        request: ControlRequest::Act(ActionRequest::Click {
            window_id: None,
            node_id: Some(0),
            selector: None,
            target: None,
        }),
        reply: reply_tx,
    })
    .unwrap();
    assert_eq!(deliver(bridge.poll_and_service(&mut doc)), 1);
    assert_eq!(
        reply_rx.recv().unwrap(),
        ControlResponse::Error("Action dispatcher not configured".into())
    );
    assert!(doc.document().dispatched.is_empty());
}

#[test]
fn bridge_replies_once_per_request_in_order() {
    let mut doc = Dispatching::new(document());
    let (tx, rx) = channel::<ControlBridgeRequest>();
    let mut bridge = HostBridge::new(rx);
    let (reply_tx, reply_rx) = sync_channel(8);
    let requests = vec![
        ControlRequest::Settle(SettleRequest { window_id: None, frames: 0 }),
        ControlRequest::Inspect(InspectRequest::default()),
        ControlRequest::Act(ActionRequest::Focus {
            window_id: None,
            node_id: Some(0),
            selector: None,
            target: None,
        }),
    ];
    for request in requests {
        tx.send(ControlBridgeRequest { request, reply: reply_tx.clone() }).unwrap();
    }
    // The settle waits; the inspection and the action are answered, in order.
    assert_eq!(deliver(bridge.poll_and_service_with(&mut doc, 3)), 2);
    assert!(matches!(reply_rx.try_recv().unwrap(), ControlResponse::InspectSuccess(r) if r.current_frame == Some(3)));
    assert!(matches!(reply_rx.try_recv().unwrap(), ControlResponse::ActionSuccess(_)));
    assert!(reply_rx.try_recv().is_err());
    // A frame later only the settle is answered, once.
    assert_eq!(deliver(bridge.poll_and_service_with(&mut doc, 4)), 1);
    assert!(matches!(reply_rx.try_recv().unwrap(), ControlResponse::SettleSuccess(s) if s.frames_waited == 1 && s.current_frame == 4));
    assert_eq!(deliver(bridge.poll_and_service_with(&mut doc, 5)), 0);
    assert!(reply_rx.try_recv().is_err());
}

#[test]
fn serviced_requests_pair_replies_with_their_channels() {
    let mut doc = Dispatching::new(document());
    let (_tx, rx) = channel::<ControlBridgeRequest>();
    let mut bridge = HostBridge::new(rx);
    let (a_tx, a_rx) = sync_channel(1);
    let (b_tx, b_rx) = sync_channel(1);
    let arrivals = vec![
        ControlBridgeRequest {
            request: ControlRequest::Act(ActionRequest::Focus {
                window_id: None,
                node_id: Some(0),
                selector: None,
                target: None,
            }),
            reply: a_tx,
        },
        ControlBridgeRequest { request: ControlRequest::Inspect(InspectRequest::default()), reply: b_tx },
    ];
    let replies = bridge.service_requests(&mut doc, 9, arrivals, true);
    assert_eq!(replies.len(), 2);
    assert_eq!(doc.document().dispatched.len(), 1);
    deliver(replies);
    assert!(matches!(a_rx.try_recv().unwrap(), ControlResponse::ActionSuccess(_)));
    assert!(matches!(b_rx.try_recv().unwrap(), ControlResponse::InspectSuccess(r) if r.current_frame == Some(9)));
}
