use blitz_host::tools::{plan_inspector_cli, plan_transport_cli, InspectorPlan, TransportPlan};

fn args(list: &[&str]) -> Vec<String> {
    list.iter().map(|s| s.to_string()).collect()
}

#[test]
fn transport_tool_inspects_by_default() {
    assert_eq!(
        plan_transport_cli(&args(&[])),
        TransportPlan { help: false, version: false, json: false, click: None, settle: None, descriptor: None }
    );
    let p = plan_transport_cli(&args(&["--json"]));
    assert!(p.json);
    let p = plan_transport_cli(&args(&["inspect", "--json", "/tmp/blitz-host/1-2.json"]));
    assert!(p.json);
    assert_eq!(p.descriptor, Some("/tmp/blitz-host/1-2.json".to_string()));
    let p = plan_transport_cli(&args(&["/tmp/blitz-host/1-2.json"]));
    assert_eq!(p.descriptor, Some("/tmp/blitz-host/1-2.json".to_string()));
    assert!(plan_transport_cli(&args(&["-h"])).help);
    assert!(plan_transport_cli(&args(&["--version"])).version);
}

#[test]
fn transport_tool_clicks_then_settles_two_frames() {
    let p = plan_transport_cli(&args(&["click", "4294967402"]));
    assert_eq!(p.click, Some(4294967402));
    assert_eq!(p.settle, Some(2));
    let p = plan_transport_cli(&args(&["--click", "7", "-s", "5"]));
    assert_eq!((p.click, p.settle), (Some(7), Some(5)));
    let p = plan_transport_cli(&args(&["settle", "5"]));
    assert_eq!((p.click, p.settle), (None, Some(5)));
    // The flag overrides the subcommand, even with a value that does not parse.
    let p = plan_transport_cli(&args(&["click", "3", "-c", "x"]));
    assert_eq!((p.click, p.settle), (None, None));
    let p = plan_transport_cli(&args(&["click", "3", "h.json"]));
    assert_eq!(p.descriptor, Some("h.json".to_string()));
}

#[test]
fn inspector_tool_plans() {
    assert_eq!(
        plan_inspector_cli(&args(&["--click", "4294967402"])),
        InspectorPlan { help: false, json: false, click: Some(4294967402), settle: Some(2), descriptor: None }
    );
    let p = plan_inspector_cli(&args(&["--json", "-s", "0", "/tmp/blitz-host/15365-1.json"]));
    assert!(p.json);
    assert_eq!(p.settle, Some(0));
    assert_eq!(p.descriptor, Some("/tmp/blitz-host/15365-1.json".to_string()));
    assert_eq!(plan_inspector_cli(&args(&["-c", "x"])).click, None);
    assert!(plan_inspector_cli(&args(&["--help"])).help);
}
