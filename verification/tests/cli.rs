use blitz_host::cli::{
    args_from, determine_selector, parse_button_arg, parse_compound_key, parse_node_arg,
    parse_output_arg, parse_pid_arg, parse_target_flag, parse_window_arg, plan_capture, plan_click,
    plan_drag, plan_focus, plan_inspect, plan_key, plan_move, plan_set_value, plan_wheel,
    plan_button, positional_args, route_command, snapshot_saved, wants_help, Command, Pointer,
};
use blitz_host::discovery::TargetSelector;
use blitz_host::protocol::{ElementTarget, KeyModifiers};

fn args(list: &[&str]) -> Vec<String> {
    list.iter().map(|s| s.to_string()).collect()
}

#[test]
fn pid_flag_forms() {
    assert_eq!(parse_pid_arg(&args(&["--pid", "123"])), Some(123));
    assert_eq!(parse_pid_arg(&args(&["inspect", "--pid=45"])), Some(45));
    assert_eq!(parse_pid_arg(&args(&["--pid", "x"])), None);
    assert_eq!(parse_pid_arg(&args(&["--pid"])), None);
    // The first occurrence decides, even when it does not parse.
    assert_eq!(parse_pid_arg(&args(&["--pid", "x", "--pid=5"])), None);
    assert_eq!(parse_pid_arg(&args(&["--pid", "4294967296"])), None);
}

#[test]
fn button_window_output_flags() {
    assert_eq!(parse_button_arg(&args(&["--button", "right"])), Some("right".to_string()));
    assert_eq!(parse_button_arg(&args(&["--button=middle"])), Some("middle".to_string()));
    assert_eq!(parse_button_arg(&args(&["--button"])), None);
    assert_eq!(parse_window_arg(&args(&["--window-id", "7"])), Some(7));
    assert_eq!(parse_window_arg(&args(&["--window=8"])), Some(8));
    assert_eq!(parse_window_arg(&args(&["--window-id=9"])), Some(9));
    assert_eq!(parse_window_arg(&args(&["--window", "no"])), None);
    assert_eq!(parse_output_arg(&args(&["-o", "shot.png"])), Some("shot.png".to_string()));
    assert_eq!(parse_output_arg(&args(&["--output=a/b.png"])), Some("a/b.png".to_string()));
    assert_eq!(parse_output_arg(&args(&["-o=c.png"])), Some("c.png".to_string()));
    assert_eq!(parse_output_arg(&args(&["x.png"])), None);
}

#[test]
fn target_and_node_flags() {
    assert_eq!(
        parse_target_flag(&args(&["-s", " #app "])),
        Some(ElementTarget::Selector("#app".to_string()))
    );
    assert_eq!(parse_target_flag(&args(&["--node=42"])), Some(ElementTarget::Id(42)));
    assert_eq!(parse_target_flag(&args(&["-n", "x"])), Some(ElementTarget::Selector("x".to_string())));
    assert_eq!(parse_target_flag(&args(&["--selector=.card"])), Some(ElementTarget::Selector(".card".to_string())));
    assert_eq!(parse_target_flag(&args(&["#app"])), None);
    assert_eq!(parse_node_arg(&args(&["--node", "42"])), Some(42));
    assert_eq!(parse_node_arg(&args(&["--selector", "#a"])), None);
}

#[test]
fn host_selection_from_arguments() {
    assert_eq!(determine_selector(&args(&["--pid", "9"])), TargetSelector::Pid(9));
    assert_eq!(
        determine_selector(&args(&["#btn", "/tmp/blitz-host/1-2.json"])),
        TargetSelector::ExplicitPath("/tmp/blitz-host/1-2.json".to_string())
    );
    assert_eq!(
        determine_selector(&args(&["--pid", "abc", "x.sock"])),
        TargetSelector::ExplicitPath("x.sock".to_string())
    );
    assert_eq!(determine_selector(&args(&["--config=a.json"])), TargetSelector::Auto);
    // Flag values are never taken for descriptor paths.
    assert_eq!(determine_selector(&args(&["-o", "dom.json"])), TargetSelector::Auto);
    assert_eq!(
        determine_selector(&args(&["--selector", "a.json", "h.sock"])),
        TargetSelector::ExplicitPath("h.sock".to_string())
    );
    assert_eq!(determine_selector(&args(&[])), TargetSelector::Auto);
}

#[test]
fn named_pipes_select_hosts_and_are_not_targets() {
    assert_eq!(
        determine_selector(&args(&[r"\\.\pipe\blitz-host-1"])),
        TargetSelector::ExplicitPath(r"\\.\pipe\blitz-host-1".to_string())
    );
    let pos = positional_args(&args(&[r"\\.\pipe\blitz-host-1", "#btn"]), &["--pid"]);
    assert_eq!(pos, args(&["#btn"]));
    let p = plan_click(&args(&[r"\\.\pipe\blitz-host-1", "#btn"])).unwrap();
    assert_eq!(p.target, Some(ElementTarget::Selector("#btn".to_string())));
    assert_eq!(p.selector, TargetSelector::ExplicitPath(r"\\.\pipe\blitz-host-1".to_string()));
}

#[test]
fn compound_keys() {
    let meta = KeyModifiers { shift: false, ctrl: false, alt: false, meta: true };
    assert_eq!(parse_compound_key("cmd+a"), ("a".to_string(), Some(meta)));
    assert_eq!(
        parse_compound_key("command+shift+z"),
        ("z".to_string(), Some(KeyModifiers { shift: true, ctrl: false, alt: false, meta: true }))
    );
    assert_eq!(
        parse_compound_key("shift+tab"),
        ("tab".to_string(), Some(KeyModifiers { shift: true, ctrl: false, alt: false, meta: false }))
    );
    assert_eq!(parse_compound_key(" Enter "), ("Enter".to_string(), None));
    assert_eq!(
        parse_compound_key("CTRL + Alt + Delete"),
        ("Delete".to_string(), Some(KeyModifiers { shift: false, ctrl: true, alt: true, meta: false }))
    );
    assert_eq!(parse_compound_key("foo+x"), ("x".to_string(), None));
    assert_eq!(parse_compound_key("a+"), (String::new(), None));
    assert_eq!(parse_compound_key("Option+Super+k").1, Some(KeyModifiers { shift: false, ctrl: false, alt: true, meta: true }));
}

#[test]
fn help_and_positional_arguments() {
    assert!(wants_help(&args(&["#a", "-h"])));
    assert!(!wants_help(&args(&["--helpful"])));
    let pos = positional_args(
        &args(&["--pid", "5", "#btn", "--window=3", "x.json", "-v", "second"]),
        &["--pid", "--window"],
    );
    assert_eq!(pos, args(&["#btn", "second"]));
    assert_eq!(args_from(&args(&["a", "b", "c"]), 1), args(&["b", "c"]));
}

#[test]
fn click_and_focus_plans() {
    let p = plan_click(&args(&["#btn", "--pid", "5", "--window", "2"])).unwrap();
    assert_eq!(p.target, Some(ElementTarget::Selector("#btn".to_string())));
    assert_eq!(p.selector, TargetSelector::Pid(5));
    assert_eq!(p.window_id, Some(2));
    let e = plan_click(&args(&["--pid", "5"])).unwrap_err();
    assert_eq!(
        e,
        "Error: 'click' requires a target <TARGET> argument (node ID or CSS selector).\nRun 'blitz-host mouse click --help' for usage."
    );
    let f = plan_focus(&args(&["--node", "12"])).unwrap();
    assert_eq!(f.target, Some(ElementTarget::Id(12)));
    assert_eq!(f.selector, TargetSelector::Auto);
    let e = plan_focus(&args(&[])).unwrap_err();
    assert_eq!(
        e,
        "Error: 'focus' requires a target <TARGET> argument (node ID or CSS selector).\nRun 'blitz-host focus --help' for usage."
    );
}

#[test]
fn pointer_plans() {
    let m = plan_move(&args(&["--x", "10", "--y", "20"]), true).unwrap();
    assert_eq!(m.target, None);
    let e = plan_move(&args(&["--x", "10"]), false).unwrap_err();
    assert_eq!(
        e,
        "Error: 'move' requires either a target <TARGET> (node ID or CSS selector) or coordinates (--x and --y).\nRun 'blitz-host mouse move --help' for usage."
    );
    let (p, button) = plan_button(&args(&["7", "--button", "right"]));
    assert_eq!(p.target, Some(ElementTarget::Id(7)));
    assert_eq!(button, Some("right".to_string()));
    let w = plan_wheel(&args(&["--dy", "120", ".list"]));
    assert_eq!(w.target, Some(ElementTarget::Selector(".list".to_string())));
    let d = plan_drag(&args(&["#mouse-test-card", "#test-input", "--window-id", "4"])).unwrap();
    assert_eq!(d.from, ElementTarget::Selector("#mouse-test-card".to_string()));
    assert_eq!(d.to, ElementTarget::Selector("#test-input".to_string()));
    assert_eq!(d.window_id, Some(4));
    let e = plan_drag(&args(&["4294967402"])).unwrap_err();
    assert_eq!(
        e,
        "Error: 'drag' requires <FROM_TARGET> and <TO_TARGET> positional arguments (node IDs or CSS selectors).\nRun 'blitz-host mouse drag --help' for usage."
    );
}

#[test]
fn set_value_and_key_plans() {
    let p = plan_set_value(&args(&["#test-input", "hello"])).unwrap();
    assert_eq!(p.target, ElementTarget::Selector("#test-input".to_string()));
    assert_eq!(p.value, "hello");
    let p = plan_set_value(&args(&["--selector", "#in", "hi"])).unwrap();
    assert_eq!(p.target, ElementTarget::Selector("#in".to_string()));
    assert_eq!(p.value, "hi");
    let p = plan_set_value(&args(&["--node", "5"])).unwrap();
    assert_eq!(p.target, ElementTarget::Id(5));
    assert_eq!(p.value, "");
    let e = plan_set_value(&args(&["--pid", "3"])).unwrap_err();
    assert_eq!(
        e,
        "Error: 'set-value' requires target <TARGET> and <VALUE> arguments (e.g. '#test-input' 'hello').\nRun 'blitz-host set-value --help' for usage."
    );
    let k = plan_key(&args(&["cmd+a", "--node", "3"])).unwrap();
    assert_eq!(k.key, "a");
    assert_eq!(k.modifiers, Some(KeyModifiers { shift: false, ctrl: false, alt: false, meta: true }));
    assert_eq!(k.target, Some(ElementTarget::Id(3)));
    let e = plan_key(&args(&["--node", "3"])).unwrap_err();
    assert_eq!(
        e,
        "Error: 'key' requires a <KEY_SPEC> argument (e.g. cmd+a, shift+tab, enter, escape).\nRun 'blitz-host key --help' for usage."
    );
}

#[test]
fn inspect_and_capture_plans() {
    let plan = plan_inspect(&args(&["42", "--window", "1"]));
    assert_eq!(plan.request.root_node_id, Some(42));
    assert_eq!(plan.request.selector, None);
    assert_eq!(plan.request.window_id, Some(1));
    assert_eq!(plan.selector, TargetSelector::Auto);
    assert_eq!(plan.output_path, None);
    let plan = plan_inspect(&args(&["-s", "#root-app"]));
    assert_eq!(plan.request.selector, Some("#root-app".to_string()));
    assert_eq!(plan.request.root_node_id, None);
    // The output file is neither a target nor a host descriptor.
    let plan = plan_inspect(&args(&["body", "-o", "target/body_dom.json"]));
    assert_eq!(plan.request.selector, Some("body".to_string()));
    assert_eq!(plan.output_path, Some("target/body_dom.json".to_string()));
    assert_eq!(plan.selector, TargetSelector::Auto);
    let plan = plan_inspect(&args(&["-o", "dom.txt"]));
    assert_eq!(plan.request.selector, None);
    assert_eq!(plan.request.root_node_id, None);
    assert_eq!(plan.output_path, Some("dom.txt".to_string()));
    let c = plan_capture(&args(&["#card", "-o", "target/card.png", "--pid", "8"])).unwrap();
    assert_eq!(c.output_path, "target/card.png");
    assert_eq!(c.target, Some(ElementTarget::Selector("#card".to_string())));
    assert_eq!(c.selector, TargetSelector::Pid(8));
    let e = plan_capture(&args(&["#card"])).unwrap_err();
    assert_eq!(
        e,
        "Error: Output path is required. Use '-o <PATH>' or '--output <PATH>' to specify where to save the screenshot.\nRun 'blitz-host capture --help' for usage."
    );
}

#[test]
fn command_routing() {
    assert_eq!(route_command(&args(&["blitz-host"])), Command::MainHelp);
    assert_eq!(route_command(&args(&["blitz-host", "--help"])), Command::MainHelp);
    assert_eq!(route_command(&args(&["blitz-host", "list", "-V"])), Command::Version);
    assert_eq!(route_command(&args(&["blitz-host", "list"])), Command::List);
    assert_eq!(route_command(&args(&["blitz-host", "set-value", "#a", "b"])), Command::SetValue);
    assert_eq!(route_command(&args(&["blitz-host", "mouse"])), Command::MouseHelp);
    assert_eq!(route_command(&args(&["blitz-host", "mouse", "drag", "-h"])), Command::MouseHelp);
    assert_eq!(route_command(&args(&["blitz-host", "mouse", "wheel", "--dy", "3"])), Command::Mouse(Pointer::Wheel));
    assert_eq!(
        route_command(&args(&["blitz-host", "mouse", "fly"])),
        Command::Refused("Unknown mouse subcommand: 'fly'. Use 'blitz-host mouse --help' for available subcommands.".to_string())
    );
    assert_eq!(
        route_command(&args(&["blitz-host", "click", "#a"])),
        Command::Refused("Error: 'click' is a pointer command and belongs under the 'mouse' namespace. Run 'blitz-host mouse click ...' instead.".to_string())
    );
    assert_eq!(
        route_command(&args(&["blitz-host", "paint"])),
        Command::Refused("Unknown subcommand: 'paint'. Use 'blitz-host --help' for available subcommands.".to_string())
    );
}

#[test]
fn saved_snapshot_summary() {
    let s = snapshot_saved("/abs/target/full_dom.json".to_string(), 4294967297, 105, 20994);
    assert!(s.success);
    assert_eq!(s.root_id, 4294967297);
    assert_eq!(s.node_count, 105);
    assert_eq!(s.bytes, 20994);
    assert_eq!(s.message, "Saved DOM inspection snapshot (105 nodes) to /abs/target/full_dom.json");
}
