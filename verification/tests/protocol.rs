use blitz_host::protocol::{
    ActionRequest, CaptureRequest, ControlRequest, ElementTarget, InspectRequest, KeyModifiers,
    SettleRequest,
};

#[test]
fn element_target_reads_numbers_as_node_ids() {
    assert_eq!(ElementTarget::from_text("42"), ElementTarget::Id(42));
    assert_eq!(ElementTarget::from_text("  4294967402 \n"), ElementTarget::Id(4294967402));
    assert_eq!(ElementTarget::from_text("+7"), ElementTarget::Id(7));
    assert_eq!(
        ElementTarget::from_text("18446744073709551615"),
        ElementTarget::Id(u64::MAX)
    );
}

#[test]
fn element_target_reads_other_text_as_selectors() {
    assert_eq!(
        ElementTarget::from_text("  #test-input "),
        ElementTarget::Selector("#test-input".to_string())
    );
    assert_eq!(
        ElementTarget::from_text("18446744073709551616"),
        ElementTarget::Selector("18446744073709551616".to_string())
    );
    assert_eq!(ElementTarget::from_text("-3"), ElementTarget::Selector("-3".to_string()));
    assert_eq!(ElementTarget::from_text(""), ElementTarget::Selector(String::new()));
    assert_eq!(
        ElementTarget::from_text("button.primary"),
        ElementTarget::Selector("button.primary".to_string())
    );
}

#[test]
fn element_target_display_and_from_id() {
    assert_eq!(ElementTarget::Id(42).display(), "#42");
    assert_eq!(ElementTarget::Selector("div > p".to_string()).display(), "div > p");
    assert_eq!(ElementTarget::from(9u64), ElementTarget::Id(9));
    // The decimal text of an ID reads back as that ID.
    let id = 4294967410u64;
    assert_eq!(ElementTarget::from_text(&id.to_string()), ElementTarget::Id(id));
}

#[test]
fn inspect_request_target_precedence() {
    let mut req = InspectRequest::default();
    assert_eq!(req.target(), None);
    req.root_node_id = Some(5);
    assert_eq!(req.target(), Some(ElementTarget::Id(5)));
    req.selector = Some(" 12 ".to_string());
    assert_eq!(req.target(), Some(ElementTarget::Id(12)));
    req.selector = Some("#app".to_string());
    assert_eq!(req.target(), Some(ElementTarget::Selector("#app".to_string())));
    req.target = Some(ElementTarget::Id(99));
    assert_eq!(req.target(), Some(ElementTarget::Id(99)));
}

#[test]
fn capture_and_control_request_targets() {
    let cap = CaptureRequest {
        window_id: None,
        node_id: Some(3),
        selector: None,
        target: None,
        output_path: "out.png".to_string(),
    };
    assert_eq!(cap.target(), Some(ElementTarget::Id(3)));
    let cap2 = CaptureRequest { selector: Some(".card".to_string()), ..cap.clone() };
    assert_eq!(cap2.target(), Some(ElementTarget::Selector(".card".to_string())));
    assert_eq!(ControlRequest::Capture(cap2).target(), Some(ElementTarget::Selector(".card".to_string())));
    assert_eq!(ControlRequest::Settle(SettleRequest { window_id: None, frames: 2 }).target(), None);
}

#[test]
fn action_request_addressing() {
    let act = ActionRequest::Click {
        window_id: Some(1),
        node_id: Some(7),
        selector: Some("#btn".to_string()),
        target: None,
    };
    assert_eq!(act.target(), Some(ElementTarget::Selector("#btn".to_string())));
    assert_eq!(act.raw_node_id(), Some(7));
    assert_eq!(act.raw_selector(), Some("#btn"));
    let key = ActionRequest::Key {
        window_id: None,
        node_id: Some(8),
        selector: None,
        target: None,
        key: "Tab".to_string(),
        modifiers: None,
    };
    assert_eq!(key.target(), Some(ElementTarget::Id(8)));
    assert_eq!(key.raw_selector(), None);
    assert_eq!(ControlRequest::Act(key).target(), Some(ElementTarget::Id(8)));
}

#[test]
fn key_modifiers_constants() {
    let mac = KeyModifiers::action_modifier(true);
    assert!(mac.meta && !mac.ctrl && !mac.shift && !mac.alt);
    let other = KeyModifiers::action_modifier(false);
    assert!(other.ctrl && !other.meta && !other.shift && !other.alt);
    assert!(!mac.is_empty());
    assert!(KeyModifiers::none().is_empty());
    assert!(KeyModifiers::default().is_empty());
    assert!(!KeyModifiers::shift_only().is_empty());
    assert!(KeyModifiers::alt_only().alt);
}

#[test]
fn drag_is_move_press_move_release() {
    let steps = ActionRequest::drag_sequence(
        ElementTarget::Selector("#mouse-test-card".to_string()),
        ElementTarget::Id(4294967410),
    );
    assert_eq!(steps.len(), 4);
    assert_eq!(
        steps[0],
        ActionRequest::MouseMove {
            window_id: None,
            node_id: None,
            selector: None,
            target: Some(ElementTarget::Selector("#mouse-test-card".to_string())),
            x: None,
            y: None,
            modifiers: None,
        }
    );
    assert_eq!(
        steps[1],
        ActionRequest::MouseDown {
            window_id: None,
            node_id: None,
            selector: None,
            target: Some(ElementTarget::Selector("#mouse-test-card".to_string())),
            x: None,
            y: None,
            button: Some("left".to_string()),
            modifiers: None,
        }
    );
    assert!(matches!(&steps[2], ActionRequest::MouseMove { target: Some(ElementTarget::Id(4294967410)), .. }));
    assert!(matches!(&steps[3], ActionRequest::MouseUp { target: Some(ElementTarget::Id(4294967410)), button: Some(b), .. } if b == "left"));
}
