use blitz_host::discovery::ErrorKind;
use blitz_host::protocol::{
    CaptureResponse, ControlResponse, SettleResponse, PROTOCOL_VERSION,
};
use blitz_host::transport::{
    capture_file_outcome, connection_reply, descriptor_file_name, expect_action, expect_capture,
    expect_inspect, expect_settle, frame, instance_id_for, is_blank_line, line_payload,
    reply_payload, server_descriptor, socket_file_name, temp_file_name, RequestFate,
};

#[test]
fn advertised_file_names() {
    let id = instance_id_for(4242, 1700000000123456789);
    assert_eq!(id, "4242-1700000000123456789");
    assert_ne!(instance_id_for(1, 23), instance_id_for(12, 3));
    assert_eq!(socket_file_name(&id), "4242-1700000000123456789.sock");
    assert_eq!(descriptor_file_name(&id), "4242-1700000000123456789.json");
    assert_eq!(temp_file_name(&id, 77), "4242-1700000000123456789.tmp.77");
}

#[test]
fn server_descriptor_fields() {
    let d = server_descriptor(5, "5-6".to_string(), "/tmp/5-6.sock".to_string(), "blitz".to_string(), "0.1.0".to_string());
    assert_eq!(d.protocol_version, PROTOCOL_VERSION);
    assert_eq!(d.pid, 5);
    assert_eq!(d.socket_path, "/tmp/5-6.sock");
    assert_eq!(d.primary_window_id, None);
}

#[test]
fn framing_reads_back() {
    let msg = "{\"type\":\"settle\",\"frames\":2}".to_string();
    let framed = frame(msg.clone());
    assert_eq!(framed, format!("{msg}\n"));
    assert_eq!(line_payload(&framed), msg);
    assert!(is_blank_line(" \r\n"));
    assert!(!is_blank_line(" x\n"));
}

#[test]
fn server_replies_for_each_fate() {
    assert_eq!(
        connection_reply(RequestFate::Malformed("expected value at line 1 column 1".to_string())),
        ControlResponse::Error("Malformed request JSON: expected value at line 1 column 1".to_string())
    );
    assert_eq!(
        connection_reply(RequestFate::QueueFull),
        ControlResponse::Error("Host request queue is full".to_string())
    );
    assert_eq!(
        connection_reply(RequestFate::TimedOut),
        ControlResponse::Error("Host UI thread request timed out after 5s".to_string())
    );
    assert_eq!(
        connection_reply(RequestFate::Disconnected),
        ControlResponse::Error("Host UI thread bridge disconnected".to_string())
    );
    let settled = ControlResponse::SettleSuccess(SettleResponse { settled: true, frames_waited: 1, current_frame: 3 });
    assert_eq!(connection_reply(RequestFate::Answered(settled.clone())), settled);
}

#[test]
fn client_reads_replies() {
    let e = reply_payload(0, "").unwrap_err();
    assert_eq!(e.kind(), ErrorKind::UnexpectedEof);
    assert_eq!(e.to_string(), "Control server disconnected without responding");
    assert_eq!(reply_payload(5, " {} \n").unwrap(), "{}");
    let s = SettleResponse { settled: true, frames_waited: 2, current_frame: 9 };
    assert_eq!(expect_settle(ControlResponse::SettleSuccess(s.clone())).unwrap(), s);
    let e = expect_inspect(ControlResponse::Error("boom".to_string())).unwrap_err();
    assert_eq!(e.kind(), ErrorKind::Other);
    assert_eq!(e.to_string(), "boom");
    let e = expect_action(ControlResponse::SettleSuccess(s.clone())).unwrap_err();
    assert_eq!(e.kind(), ErrorKind::Other);
    assert!(e.to_string().starts_with("Unexpected response variant for act"));
    let e = expect_capture(ControlResponse::SettleSuccess(s)).unwrap_err();
    assert!(e.to_string().starts_with("Unexpected response variant for capture"));
}

fn capture(success: bool, message: Option<&str>) -> CaptureResponse {
    CaptureResponse {
        success,
        file_path: "/tmp/out.png".to_string(),
        width: 800,
        height: 600,
        format: "png".to_string(),
        node_id: None,
        bytes: 1234,
        message: message.map(|m| m.to_string()),
    }
}

#[test]
fn capture_results_for_files() {
    assert_eq!(
        capture_file_outcome(capture(true, None), None).unwrap(),
        (800, 600, "/tmp/out.png".to_string())
    );
    let e = capture_file_outcome(capture(false, Some("disk full")), None).unwrap_err();
    assert_eq!(e.to_string(), "disk full");
    let e = capture_file_outcome(capture(false, None), Some(12)).unwrap_err();
    assert_eq!(e.to_string(), "Capture of node #12 failed without message");
    let e = capture_file_outcome(capture(false, None), None).unwrap_err();
    assert_eq!(e.to_string(), "Capture failed without message");
}
