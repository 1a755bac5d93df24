use blitz_host::dom::{
    inspect_document, pending_selector, resolve_target_in_doc, selector_lookup_keys, Attribute,
    DocumentModel, NodeFacts, NodeKind, SelectorLookup,
};
use blitz_host::protocol::{ElementTarget, InspectRequest};

fn node(id: u64, parent: Option<u64>, kind: NodeKind, children: Vec<u64>) -> NodeFacts {
    NodeFacts {
        id,
        parent,
        kind,
        position: [10.0f32.to_bits(), 20.0f32.to_bits()],
        size: [100.0f32.to_bits(), 40.0f32.to_bits()],
        scroll_offset: [0, 0],
        hovered: false,
        active: false,
        children,
    }
}

fn element(tag: &str, dom_id: Option<&str>, attrs: &[(&str, &str)]) -> NodeKind {
    NodeKind::Element {
        tag: tag.to_string(),
        dom_id: dom_id.map(|s| s.to_string()),
        attrs: attrs
            .iter()
            .map(|(n, v)| Attribute { name: n.to_string(), value: v.to_string() })
            .collect(),
        input_text: None,
    }
}

/// A document: #document(1) > div#root-app(2) > [button#submit-btn(3) > "Submit"(5), input(4)].
fn sample() -> DocumentModel {
    DocumentModel {
        document_id: 7,
        root_id: 1,
        focused: Some(3),
        hovered: None,
        viewport_scroll: [0, (-0.0f64).to_bits()],
        nodes: vec![
            node(1, None, NodeKind::Document, vec![2]),
            node(2, Some(1), element("div", Some("root-app"), &[("id", "root-app"), ("role", "main")]), vec![3, 4]),
            node(3, Some(2), element("button", Some("submit-btn"), &[("role", "button"), ("role", "second")]), vec![5]),
            node(4, Some(2), element("input", None, &[("value", "hello")]), vec![]),
            node(5, Some(3), NodeKind::Text("Submit".to_string()), vec![]),
        ],
    }
}

fn no_lookup() -> SelectorLookup {
    SelectorLookup { query: Ok(None), by_id: None }
}

/// The default document: a lone #document node.
fn empty_document() -> DocumentModel {
    DocumentModel {
        document_id: 0,
        root_id: 0,
        focused: None,
        hovered: None,
        viewport_scroll: [0, 0],
        nodes: vec![node(0, None, NodeKind::Document, vec![])],
    }
}

#[test]
fn test_resolve_target_by_node_id() {
    let doc = empty_document();
    let root_id = doc.root_id;
    let res = resolve_target_in_doc(&doc, Some(&ElementTarget::Id(root_id)), None, None, &no_lookup());
    assert_eq!(res, Ok(Some(root_id)));
    let res = resolve_target_in_doc(&doc, Some(&ElementTarget::Id(9999999)), None, None, &no_lookup());
    assert!(res.is_err());
    assert!(res.unwrap_err().contains("not found in document"));
}

#[test]
fn test_resolve_target_none() {
    let doc = empty_document();
    let res = resolve_target_in_doc(&doc, None, None, None, &no_lookup());
    assert_eq!(res, Ok(None));
}

#[test]
fn test_inspect_document_minimal() {
    let doc = empty_document();
    let response = inspect_document(&doc, &InspectRequest::default(), &no_lookup());
    assert_eq!(response.document_id, doc.document_id);
    assert_eq!(response.root_id, doc.root_id);
    assert!(response.node_count >= 1);
    assert_eq!(response.nodes[0].tag, "#document");
}

#[test]
fn inspection_walks_in_pre_order() {
    let doc = sample();
    let resp = inspect_document(&doc, &InspectRequest::default(), &no_lookup());
    let ids: Vec<u64> = resp.nodes.iter().map(|n| n.id).collect();
    assert_eq!(ids, vec![1, 2, 3, 5, 4]);
    assert_eq!(resp.node_count, 5);
    assert_eq!(resp.root_id, 1);
    assert_eq!(resp.focused_node_id, Some(3));
    assert_eq!(resp.viewport_scroll, None);
    assert_eq!(resp.message, None);
    let button = &resp.nodes[2];
    assert_eq!(button.tag, "button");
    assert_eq!(button.dom_id.as_deref(), Some("submit-btn"));
    assert_eq!(button.role.as_deref(), Some("button"));
    assert_eq!(button.focused, Some(true));
    assert_eq!(button.children, vec![5]);
    assert_eq!(
        button.bounds,
        Some([10.0f32.to_bits(), 20.0f32.to_bits(), 100.0f32.to_bits(), 40.0f32.to_bits()])
    );
    assert_eq!(resp.nodes[3].tag, "#text");
    assert_eq!(resp.nodes[3].text.as_deref(), Some("Submit"));
    assert_eq!(resp.nodes[3].bounds, None);
    assert_eq!(resp.nodes[4].tag, "input");
    assert_eq!(resp.nodes[4].text.as_deref(), Some("hello"));
    assert_eq!(resp.nodes[0].focused, None);
}

#[test]
fn inspection_skips_missing_children() {
    let mut doc = sample();
    // Node 2 lists a child that is not in the document.
    doc.nodes[1].children = vec![3, 42, 4];
    let resp = inspect_document(&doc, &InspectRequest::default(), &no_lookup());
    let ids: Vec<u64> = resp.nodes.iter().map(|n| n.id).collect();
    assert_eq!(ids, vec![1, 2, 3, 5, 4]);
}

#[test]
fn inspection_respects_depth_and_root() {
    let doc = sample();
    let req = InspectRequest { max_depth: Some(1), ..InspectRequest::default() };
    let resp = inspect_document(&doc, &req, &no_lookup());
    let ids: Vec<u64> = resp.nodes.iter().map(|n| n.id).collect();
    assert_eq!(ids, vec![1, 2]);
    let req = InspectRequest { root_node_id: Some(3), ..InspectRequest::default() };
    let resp = inspect_document(&doc, &req, &no_lookup());
    let ids: Vec<u64> = resp.nodes.iter().map(|n| n.id).collect();
    assert_eq!(ids, vec![3, 5]);
    assert_eq!(resp.root_id, 3);
    let req = InspectRequest { root_node_id: Some(3), max_depth: Some(0), ..InspectRequest::default() };
    assert_eq!(inspect_document(&doc, &req, &no_lookup()).node_count, 1);
}

#[test]
fn inspection_of_missing_targets_reports_why() {
    let doc = sample();
    let req = InspectRequest { root_node_id: Some(99), ..InspectRequest::default() };
    let resp = inspect_document(&doc, &req, &no_lookup());
    assert_eq!(resp.node_count, 0);
    assert_eq!(resp.root_id, 0);
    assert!(resp.nodes.is_empty());
    assert_eq!(resp.message.as_deref(), Some("Node #99 not found in document"));
    let req = InspectRequest { selector: Some("   ".to_string()), ..InspectRequest::default() };
    let resp = inspect_document(&doc, &req, &no_lookup());
    assert_eq!(resp.message.as_deref(), Some("Empty selector provided"));
    let req = InspectRequest { selector: Some(" .missing ".to_string()), ..InspectRequest::default() };
    let resp = inspect_document(&doc, &req, &no_lookup());
    assert_eq!(resp.message.as_deref(), Some("Element matching selector '.missing' not found in document"));
    let bad = SelectorLookup { query: Err("ParseError".to_string()), by_id: None };
    let req = InspectRequest { selector: Some("div[".to_string()), ..InspectRequest::default() };
    let resp = inspect_document(&doc, &req, &bad);
    assert_eq!(resp.message.as_deref(), Some("Invalid CSS selector 'div[': ParseError"));
}

#[test]
fn selectors_resolve_from_the_lookup() {
    let doc = sample();
    let found = SelectorLookup { query: Ok(Some(3)), by_id: None };
    let req = InspectRequest { selector: Some("#submit-btn".to_string()), ..InspectRequest::default() };
    let resp = inspect_document(&doc, &req, &found);
    assert_eq!(resp.root_id, 3);
    let fallback = SelectorLookup { query: Err("bad".to_string()), by_id: Some(2) };
    let res = resolve_target_in_doc(&doc, None, None, Some("root-app"), &fallback);
    assert_eq!(res, Ok(Some(2)));
    // An explicit target comes before the selector and the node id.
    let res = resolve_target_in_doc(&doc, Some(&ElementTarget::Id(4)), Some(3), Some("x"), &found);
    assert_eq!(res, Ok(Some(4)));
    let res = resolve_target_in_doc(&doc, None, Some(4), None, &no_lookup());
    assert_eq!(res, Ok(Some(4)));
}

#[test]
fn selector_lookup_keys_and_pending_selector() {
    assert_eq!(selector_lookup_keys("  #app "), ("#app".to_string(), "app".to_string()));
    assert_eq!(selector_lookup_keys("div.card"), ("div.card".to_string(), "div.card".to_string()));
    assert_eq!(pending_selector(Some(&ElementTarget::Id(3)), Some("#a")), None);
    assert_eq!(
        pending_selector(Some(&ElementTarget::Selector(".x".to_string())), Some("#a")),
        Some(".x".to_string())
    );
    assert_eq!(pending_selector(None, Some("#a")), Some("#a".to_string()));
    assert_eq!(pending_selector(None, None), None);
}

#[test]
fn viewport_scroll_is_reported_when_non_zero() {
    let mut doc = sample();
    doc.viewport_scroll = [0, 5.0f64.to_bits()];
    let resp = inspect_document(&doc, &InspectRequest::default(), &no_lookup());
    assert_eq!(resp.viewport_scroll, Some([0, 5.0f64.to_bits()]));
}
