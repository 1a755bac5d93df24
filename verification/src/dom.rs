//! A plain model of a live document and the inspection that walks it.
//!
//! The host copies what inspection reads of each node into [`NodeFacts`];
//! layout positions, sizes and scroll offsets are kept as the bit patterns of
//! their floating-point values.

use vstd::prelude::*;

use crate::protocol::{ElementTarget, InspectRequest, InspectResponse, SemanticNode, picks_target};
use crate::text::{
    append_decimal, append_str, chars_of, decimal, owned, str_is, string_from_chars, trim_chars,
    trimmed,
};

verus! {

/// An attribute of an element.
#[derive(Debug, Clone, PartialEq, Eq)]
pub struct Attribute {
    pub name: String,
    pub value: String,
}

/// What kind of node, with what inspection reads of it.
#[derive(Debug, Clone, PartialEq, Eq)]
pub enum NodeKind {
    Document,
    Element {
        /// Local tag name.
        tag: String,
        /// The `id` attribute.
        dom_id: Option<String>,
        /// All attributes, in document order.
        attrs: Vec<Attribute>,
        /// The raw text of the element's text-input editor, when it has one.
        input_text: Option<String>,
    },
    AnonymousBlock,
    Text(String),
    Comment(String),
}

/// What inspection reads of one node.
#[derive(Debug, Clone, PartialEq, Eq)]
pub struct NodeFacts {
    pub id: u64,
    pub parent: Option<u64>,
    pub kind: NodeKind,
    /// Absolute `[x, y]` of the border box, as `f32` bits.
    pub position: [u32; 2],
    /// Final layout `[width, height]`, as `f32` bits.
    pub size: [u32; 2],
    /// Scroll offset `[x, y]`, as `f64` bits.
    pub scroll_offset: [u64; 2],
    pub hovered: bool,
    pub active: bool,
    /// Child node IDs in order.
    pub children: Vec<u64>,
}

/// A document as inspection sees it.
#[derive(Debug, Clone, PartialEq, Eq)]
pub struct DocumentModel {
    pub document_id: usize,
    /// The document root node.
    pub root_id: u64,
    pub focused: Option<u64>,
    pub hovered: Option<u64>,
    /// Viewport scroll `[x, y]`, as `f64` bits.
    pub viewport_scroll: [u64; 2],
    pub nodes: Vec<NodeFacts>,
}

/// Whether an `f64` bit pattern is something other than `+0.0` or `-0.0`
/// (what `value != 0.0` decides; NaN counts as non-zero).
pub open spec fn nonzero_f64(bits: u64) -> bool {
    bits & 0x7fff_ffff_ffff_ffff != 0
}

pub fn is_nonzero_f64(bits: u64) -> (r: bool)
    ensures
        r == nonzero_f64(bits),
{
    bits & 0x7fff_ffff_ffff_ffff != 0
}

/// The index of the first node with ID `id`.
pub open spec fn node_index(nodes: Seq<NodeFacts>, id: u64) -> Option<int> {
    if exists|i: int| 0 <= i < nodes.len() && nodes[i].id == id {
        Some(
            choose|i: int|
                0 <= i < nodes.len() && nodes[i].id == id && forall|k: int|
                    0 <= k < i ==> nodes[k].id != id,
        )
    } else {
        None
    }
}

proof fn lemma_node_index(nodes: Seq<NodeFacts>, id: u64, i: int)
    requires
        0 <= i < nodes.len(),
        nodes[i].id == id,
        forall|k: int| 0 <= k < i ==> nodes[k].id != id,
    ensures
        node_index(nodes, id) == Some(i),
{
    assert(exists|m: int|
        0 <= m < nodes.len() && nodes[m].id == id && forall|k: int| 0 <= k < m ==> nodes[k].id != id);
    let m = choose|m: int|
        0 <= m < nodes.len() && nodes[m].id == id && forall|k: int| 0 <= k < m ==> nodes[k].id != id;
    if m < i {
        assert(nodes[m].id != id);
    } else if m > i {
        assert(nodes[i].id != id);
    }
}

/// Finds the first node with ID `id`.
pub fn find_node(model: &DocumentModel, id: u64) -> (r: Option<usize>)
    ensures
        match node_index(model.nodes@, id) {
            Some(i) => r == Some(i as usize),
            None => r is None,
        },
        r matches Some(i) ==> i < model.nodes@.len() && model.nodes@[i as int].id == id
            && node_index(model.nodes@, id) == Some(i as int),
{
    let mut i: usize = 0;
    while i < model.nodes.len()
        invariant
            i <= model.nodes@.len(),
            forall|k: int| 0 <= k < i ==> model.nodes@[k].id != id,
        decreases model.nodes@.len() - i,
    {
        if model.nodes[i].id == id {
            proof {
                lemma_node_index(model.nodes@, id, i as int);
            }
            return Some(i);
        }
        i = i + 1;
    }
    None
}

/// Whether the document has a node with ID `id`.
pub open spec fn has_node(model: DocumentModel, id: u64) -> bool {
    node_index(model.nodes@, id) is Some
}

} // verus!

verus! {

/// What the live document answered for a selector: `query` is the outcome of
/// the CSS query on the trimmed selector (a debug rendering of the parse error
/// when it failed), `by_id` the element whose `id` is the trimmed selector
/// without one leading `#`.
#[derive(Debug, PartialEq, Eq)]
pub struct SelectorLookup {
    pub query: Result<Option<u64>, String>,
    pub by_id: Option<u64>,
}

/// The trimmed selector without one leading `#`: the element ID tried when the
/// CSS query finds nothing.
pub open spec fn bare_id(sel: Seq<char>) -> Seq<char> {
    if sel.len() > 0 && sel[0] == '#' {
        sel.drop_first()
    } else {
        sel
    }
}

/// The keys a caller looks a raw selector up by: the trimmed selector for the
/// CSS query, and its bare ID for the fallback.
pub fn selector_lookup_keys(raw: &str) -> (r: (String, String))
    ensures
        r.0@ == trimmed(raw@),
        r.1@ == bare_id(trimmed(raw@)),
{
    let chars = chars_of(raw);
    let t = trim_chars(chars.as_slice());
    let bare = if t.len() > 0 && t[0] == '#' {
        crate::text::chars_from(t.as_slice(), 1)
    } else {
        crate::text::chars_from(t.as_slice(), 0)
    };
    proof {
        assert(t@.skip(1) =~= t@.drop_first());
        assert(t@.skip(0) =~= t@);
    }
    (string_from_chars(t.as_slice()), string_from_chars(bare.as_slice()))
}

/// The selector text a resolution consults, if any: the explicit target's
/// selector, or the selector field when no explicit target is given.
pub open spec fn consulted_selector(
    target: Option<ElementTarget>,
    selector: Option<Seq<char>>,
) -> Option<Seq<char>> {
    match target {
        Some(ElementTarget::Selector(s)) => Some(s@),
        Some(ElementTarget::Id(_)) => None,
        None => selector,
    }
}

/// Which selector, if any, a caller must look up before resolving.
pub fn pending_selector(target: Option<&ElementTarget>, selector: Option<&str>) -> (r: Option<String>)
    ensures
        match consulted_selector(
            match target {
                Some(t) => Some(*t),
                None => None,
            },
            match selector {
                Some(s) => Some(s@),
                None => None,
            },
        ) {
            Some(s) => r matches Some(q) && q@ == s,
            None => r is None,
        },
{
    match target {
        Some(ElementTarget::Selector(s)) => Some(s.clone()),
        Some(ElementTarget::Id(_)) => None,
        None => match selector {
            Some(s) => Some(owned(s)),
            None => None,
        },
    }
}

/// What resolving the raw selector `raw` with `lookup` gives.
pub open spec fn selector_outcome(
    raw: Seq<char>,
    lookup: SelectorLookup,
    r: Result<Option<u64>, String>,
) -> bool {
    let t = trimmed(raw);
    if t.len() == 0 {
        r matches Err(e) && e@ == "Empty selector provided"@
    } else {
        match lookup.query {
            Ok(Some(n)) => r == Ok::<Option<u64>, String>(Some(n)),
            Ok(None) => match lookup.by_id {
                Some(n) => r == Ok::<Option<u64>, String>(Some(n)),
                None => r matches Err(e) && e@ == "Element matching selector '"@ + t
                    + "' not found in document"@,
            },
            Err(q) => match lookup.by_id {
                Some(n) => r == Ok::<Option<u64>, String>(Some(n)),
                None => r matches Err(e) && e@ == "Invalid CSS selector '"@ + t + "': "@ + q@,
            },
        }
    }
}

fn resolve_selector(raw: &str, lookup: &SelectorLookup) -> (r: Result<Option<u64>, String>)
    ensures
        selector_outcome(raw@, *lookup, r),
{
    let chars = chars_of(raw);
    let t = trim_chars(chars.as_slice());
    if t.len() == 0 {
        return Err(owned("Empty selector provided"));
    }
    match &lookup.query {
        Ok(Some(n)) => Ok(Some(*n)),
        Ok(None) => match lookup.by_id {
            Some(n) => Ok(Some(n)),
            None => {
                let mut e = owned("Element matching selector '");
                crate::text::append_chars(&mut e, t.as_slice());
                append_str(&mut e, "' not found in document");
                Err(e)
            },
        },
        Err(q) => match lookup.by_id {
            Some(n) => Ok(Some(n)),
            None => {
                let mut e = owned("Invalid CSS selector '");
                crate::text::append_chars(&mut e, t.as_slice());
                append_str(&mut e, "': ");
                append_str(&mut e, q.as_str());
                Err(e)
            },
        },
    }
}

/// What resolving the node ID `id` gives: the ID when the node exists.
pub open spec fn node_outcome(model: DocumentModel, id: u64, r: Result<Option<u64>, String>) -> bool {
    if has_node(model, id) {
        r == Ok::<Option<u64>, String>(Some(id))
    } else {
        r matches Err(e) && e@ == "Node #"@ + decimal(id as nat) + " not found in document"@
    }
}

fn resolve_node(model: &DocumentModel, id: u64) -> (r: Result<Option<u64>, String>)
    ensures
        node_outcome(*model, id, r),
{
    match find_node(model, id) {
        Some(_) => Ok(Some(id)),
        None => {
            let mut e = owned("Node #");
            append_decimal(&mut e, id);
            append_str(&mut e, " not found in document");
            Err(e)
        },
    }
}

/// What resolving a target given by its three fields gives.
pub open spec fn target_outcome(
    model: DocumentModel,
    target: Option<ElementTarget>,
    node_id: Option<u64>,
    selector: Option<Seq<char>>,
    lookup: SelectorLookup,
    r: Result<Option<u64>, String>,
) -> bool {
    match target {
        Some(ElementTarget::Id(id)) => node_outcome(model, id, r),
        Some(ElementTarget::Selector(s)) => selector_outcome(s@, lookup, r),
        None => match selector {
            Some(s) => selector_outcome(s, lookup, r),
            None => match node_id {
                Some(id) => node_outcome(model, id, r),
                None => r == Ok::<Option<u64>, String>(None),
            },
        },
    }
}

/// Resolves an element target against the document.
///
/// The explicit target comes first, then the selector, then the node ID; a
/// node ID must name a node of the document; a selector is resolved from
/// `lookup`, the document's answer for [`pending_selector`].
pub fn resolve_target_in_doc(
    model: &DocumentModel,
    target: Option<&ElementTarget>,
    node_id: Option<u64>,
    selector: Option<&str>,
    lookup: &SelectorLookup,
) -> (r: Result<Option<u64>, String>)
    ensures
        target_outcome(
            *model,
            match target {
                Some(t) => Some(*t),
                None => None,
            },
            node_id,
            match selector {
                Some(s) => Some(s@),
                None => None,
            },
            *lookup,
            r,
        ),
{
    if let Some(t) = target {
        return match t {
            ElementTarget::Id(id) => resolve_node(model, *id),
            ElementTarget::Selector(sel) => resolve_selector(sel.as_str(), lookup),
        };
    }
    if let Some(sel) = selector {
        return resolve_selector(sel, lookup);
    }
    match node_id {
        Some(id) => resolve_node(model, id),
        None => Ok(None),
    }
}

} // verus!

verus! {

/// The facts of the first node with ID `id` (meaningful when it exists).
pub open spec fn facts_of(model: DocumentModel, id: u64) -> NodeFacts {
    model.nodes@[node_index(model.nodes@, id)->Some_0]
}

/// The children of node `id`, none when the node does not exist.
pub open spec fn children_of(model: DocumentModel, id: u64) -> Seq<u64> {
    if has_node(model, id) {
        facts_of(model, id).children@
    } else {
        Seq::empty()
    }
}

/// The existing nodes of the subtrees under `ids`, whose roots lie `d` levels
/// below the walk's start, down to `max` levels, in pre-order: each node
/// before its children, children in order, one subtree after the other.
#[verifier::opaque]
pub open spec fn preorder_all(model: DocumentModel, ids: Seq<u64>, d: nat, max: nat) -> Seq<u64>
    decreases max + 1 - d, ids.len(),
{
    if ids.len() == 0 {
        Seq::empty()
    } else {
        let id = ids[0];
        (if d > max || !has_node(model, id) {
            Seq::empty()
        } else {
            seq![id] + preorder_all(model, children_of(model, id), d + 1, max)
        }) + preorder_all(model, ids.drop_first(), d, max)
    }
}

/// The existing nodes of the subtree under `id`, which lies `d` levels below
/// the walk's start, down to `max` levels, in pre-order.
pub open spec fn preorder(model: DocumentModel, id: u64, d: nat, max: nat) -> Seq<u64> {
    preorder_all(model, seq![id], d, max)
}

/// The nodes a walk from `root` reports within `max` levels, in pre-order.
pub open spec fn visited(model: DocumentModel, root: u64, max: nat) -> Seq<u64> {
    preorder(model, root, 0, max)
}

/// How many entries a pre-order walk of the subtrees under `ids` takes off
/// its stack: every node it meets, also those it then skips.
#[verifier::opaque]
spec fn work_all(model: DocumentModel, ids: Seq<u64>, d: nat, max: nat) -> nat
    decreases max + 1 - d, ids.len(),
{
    if ids.len() == 0 {
        0
    } else {
        let id = ids[0];
        (if d > max || !has_node(model, id) {
            1
        } else {
            1 + work_all(model, children_of(model, id), d + 1, max)
        }) + work_all(model, ids.drop_first(), d, max)
    }
}

spec fn work(model: DocumentModel, id: u64, d: nat, max: nat) -> nat {
    work_all(model, seq![id], d, max)
}

/// What is left to report of a walk whose stack is `stack` (top last).
#[verifier::opaque]
spec fn pending(model: DocumentModel, stack: Seq<(u64, u64)>, max: nat) -> Seq<u64>
    decreases stack.len(),
{
    if stack.len() == 0 {
        Seq::empty()
    } else {
        preorder(model, stack.last().0, stack.last().1 as nat, max) + pending(
            model,
            stack.drop_last(),
            max,
        )
    }
}

#[verifier::opaque]
spec fn pending_work(model: DocumentModel, stack: Seq<(u64, u64)>, max: nat) -> nat
    decreases stack.len(),
{
    if stack.len() == 0 {
        0
    } else {
        work(model, stack.last().0, stack.last().1 as nat, max) + pending_work(
            model,
            stack.drop_last(),
            max,
        )
    }
}

/// `ids` with depth `d`, last first: the stack entries that put `ids[0]` on top.
spec fn reversed_entries(ids: Seq<u64>, d: u64) -> Seq<(u64, u64)>
    decreases ids.len(),
{
    if ids.len() == 0 {
        Seq::empty()
    } else {
        reversed_entries(ids.drop_first(), d).push((ids[0], d))
    }
}

proof fn lemma_all_unfold(model: DocumentModel, ids: Seq<u64>, d: nat, max: nat)
    ensures
        ids.len() == 0 ==> preorder_all(model, ids, d, max) == Seq::<u64>::empty() && work_all(
            model,
            ids,
            d,
            max,
        ) == 0,
        ids.len() > 0 ==> preorder_all(model, ids, d, max) == preorder(model, ids[0], d, max)
            + preorder_all(model, ids.drop_first(), d, max) && work_all(model, ids, d, max) == work(
            model,
            ids[0],
            d,
            max,
        ) + work_all(model, ids.drop_first(), d, max),
{
    reveal_with_fuel(preorder_all, 2);
    reveal_with_fuel(work_all, 2);
    if ids.len() > 0 {
        let one = seq![ids[0]];
        assert(one.drop_first() =~= Seq::<u64>::empty());
        assert(one[0] == ids[0]);
        let x = preorder_all(model, one, d, max);
        assert(x =~= x + Seq::<u64>::empty());
    }
}

proof fn lemma_preorder_unfold(model: DocumentModel, id: u64, d: nat, max: nat)
    ensures
        preorder(model, id, d, max) == if d > max || !has_node(model, id) {
            Seq::<u64>::empty()
        } else {
            seq![id] + preorder_all(model, children_of(model, id), d + 1, max)
        },
        work(model, id, d, max) == if d > max || !has_node(model, id) {
            1nat
        } else {
            1 + work_all(model, children_of(model, id), d + 1, max)
        },
{
    reveal_with_fuel(preorder_all, 2);
    reveal_with_fuel(work_all, 2);
    let one = seq![id];
    assert(one.drop_first() =~= Seq::<u64>::empty());
    assert(one[0] == id);
    let body = if d > max || !has_node(model, id) {
        Seq::<u64>::empty()
    } else {
        seq![id] + preorder_all(model, children_of(model, id), d + 1, max)
    };
    assert(preorder_all(model, one, d, max) == body + Seq::<u64>::empty());
    assert(body + Seq::<u64>::empty() =~= body);
}

proof fn lemma_pending_unfold(model: DocumentModel, stack: Seq<(u64, u64)>, max: nat)
    ensures
        stack.len() == 0 ==> pending(model, stack, max) == Seq::<u64>::empty() && pending_work(
            model,
            stack,
            max,
        ) == 0,
        stack.len() > 0 ==> pending(model, stack, max) == preorder(
            model,
            stack.last().0,
            stack.last().1 as nat,
            max,
        ) + pending(model, stack.drop_last(), max) && pending_work(model, stack, max) == work(
            model,
            stack.last().0,
            stack.last().1 as nat,
            max,
        ) + pending_work(model, stack.drop_last(), max),
{
    reveal(pending);
    reveal(pending_work);
}

proof fn lemma_push_children(model: DocumentModel, rest: Seq<(u64, u64)>, ids: Seq<u64>, d: u64, max: nat)
    ensures
        pending(model, rest + reversed_entries(ids, d), max) == preorder_all(model, ids, d as nat, max)
            + pending(model, rest, max),
        pending_work(model, rest + reversed_entries(ids, d), max) == work_all(model, ids, d as nat, max)
            + pending_work(model, rest, max),
    decreases ids.len(),
{
    lemma_all_unfold(model, ids, d as nat, max);
    if ids.len() == 0 {
        assert(rest + reversed_entries(ids, d) =~= rest);
        assert(preorder_all(model, ids, d as nat, max) + pending(model, rest, max) =~= pending(model, rest, max));
    } else {
        lemma_push_children(model, rest, ids.drop_first(), d, max);
        let inner = rest + reversed_entries(ids.drop_first(), d);
        let s = rest + reversed_entries(ids, d);
        assert(reversed_entries(ids, d) == reversed_entries(ids.drop_first(), d).push((ids[0], d)));
        assert(s =~= inner.push((ids[0], d)));
        assert(s.drop_last() =~= inner);
        assert(s.last() == (ids[0], d));
        lemma_pending_unfold(model, s, max);
        let head = preorder(model, ids[0], d as nat, max);
        let more = preorder_all(model, ids.drop_first(), d as nat, max);
        assert(head + (more + pending(model, rest, max)) =~= (head + more) + pending(model, rest, max));
    }
}

/// The value of the first attribute named `name`.
pub open spec fn attr_value(attrs: Seq<Attribute>, name: Seq<char>) -> Option<Seq<char>> {
    if exists|i: int| 0 <= i < attrs.len() && attrs[i].name@ == name {
        Some(
            attrs[choose|i: int|
                0 <= i < attrs.len() && attrs[i].name@ == name && forall|k: int|
                    0 <= k < i ==> attrs[k].name@ != name].value@,
        )
    } else {
        None
    }
}

fn find_attr(attrs: &Vec<Attribute>, name: &str) -> (r: Option<String>)
    ensures
        match attr_value(attrs@, name@) {
            Some(v) => r matches Some(s) && s@ == v,
            None => r is None,
        },
{
    let mut i: usize = 0;
    while i < attrs.len()
        invariant
            i <= attrs@.len(),
            forall|k: int| 0 <= k < i ==> attrs@[k].name@ != name@,
        decreases attrs@.len() - i,
    {
        if str_is(attrs[i].name.as_str(), name) {
            proof {
                let a = attrs@;
                assert(exists|m: int|
                    0 <= m < a.len() && a[m].name@ == name@ && forall|k: int|
                        0 <= k < m ==> a[k].name@ != name@);
                let m = choose|m: int|
                    0 <= m < a.len() && a[m].name@ == name@ && forall|k: int|
                        0 <= k < m ==> a[k].name@ != name@;
                if m < i {
                    assert(a[m].name@ != name@);
                } else if m > i {
                    assert(a[i as int].name@ != name@);
                }
            }
            return Some(attrs[i].value.clone());
        }
        i = i + 1;
    }
    None
}

/// The text of an optional string.
pub open spec fn opt_text(s: Option<String>) -> Option<Seq<char>> {
    match s {
        Some(t) => Some(t@),
        None => None,
    }
}

/// The tag (or node kind) reported for a node.
pub open spec fn tag_text(kind: NodeKind) -> Seq<char> {
    match kind {
        NodeKind::Document => "#document"@,
        NodeKind::Element { tag, .. } => tag@,
        NodeKind::AnonymousBlock => "anonymous-block"@,
        NodeKind::Text(_) => "#text"@,
        NodeKind::Comment(_) => "#comment"@,
    }
}

/// The text reported for a node: an element's editor text or `value`
/// attribute, a text node's content, a comment's contents.
pub open spec fn node_text(kind: NodeKind) -> Option<Seq<char>> {
    match kind {
        NodeKind::Element { attrs, input_text, .. } => match input_text {
            Some(t) => Some(t@),
            None => attr_value(attrs@, "value"@),
        },
        NodeKind::Text(t) => Some(t@),
        NodeKind::Comment(c) => Some(c@),
        _ => None,
    }
}

/// Whether a node has a layout box (documents, elements and anonymous blocks).
pub open spec fn boxed(kind: NodeKind) -> bool {
    kind is Document || kind is Element || kind is AnonymousBlock
}

/// `sn` is the semantic node reported for the node `f` of a document whose
/// focused node is `focused`.
pub open spec fn describes(sn: SemanticNode, f: NodeFacts, focused: Option<u64>) -> bool {
    &&& sn.id == f.id
    &&& sn.parent_id == f.parent
    &&& sn.tag@ == tag_text(f.kind)
    &&& opt_text(sn.dom_id) == match f.kind {
        NodeKind::Element { dom_id, .. } => opt_text(dom_id),
        _ => None,
    }
    &&& opt_text(sn.role) == match f.kind {
        NodeKind::Element { attrs, .. } => attr_value(attrs@, "role"@),
        _ => None,
    }
    &&& opt_text(sn.text) == node_text(f.kind)
    &&& sn.bounds == if boxed(f.kind) {
        Some([f.position[0], f.position[1], f.size[0], f.size[1]])
    } else {
        None
    }
    &&& sn.focused == if focused == Some(f.id) {
        Some(true)
    } else {
        None
    }
    &&& sn.hovered == if f.hovered {
        Some(true)
    } else {
        None
    }
    &&& sn.active == if f.active {
        Some(true)
    } else {
        None
    }
    &&& sn.scroll_offset == if boxed(f.kind) && (nonzero_f64(f.scroll_offset[0]) || nonzero_f64(
        f.scroll_offset[1],
    )) {
        Some(f.scroll_offset)
    } else {
        None
    }
    &&& sn.children@ == f.children@
}

fn copy_ids(src: &Vec<u64>) -> (r: Vec<u64>)
    ensures
        r@ == src@,
{
    let mut r: Vec<u64> = Vec::new();
    let mut i: usize = 0;
    while i < src.len()
        invariant
            i <= src@.len(),
            r@ == src@.take(i as int),
        decreases src@.len() - i,
    {
        r.push(src[i]);
        i = i + 1;
        assert(r@ =~= src@.take(i as int));
    }
    assert(src@.take(src@.len() as int) =~= src@);
    r
}

fn opt_string(s: &Option<String>) -> (r: Option<String>)
    ensures
        opt_text(r) == opt_text(*s),
{
    match s {
        Some(t) => Some(t.clone()),
        None => None,
    }
}

/// The semantic node reported for the `k`-th node of the document.
pub fn describe_node(model: &DocumentModel, k: usize) -> (sn: SemanticNode)
    requires
        k < model.nodes@.len(),
    ensures
        describes(sn, model.nodes@[k as int], model.focused),
{
    let f = &model.nodes[k];
    let (tag, dom_id, role, text) = match &f.kind {
        NodeKind::Document => (owned("#document"), None, None, None),
        NodeKind::Element { tag, dom_id, attrs, input_text } => {
            let text = match input_text {
                Some(t) => Some(t.clone()),
                None => find_attr(attrs, "value"),
            };
            (tag.clone(), opt_string(dom_id), find_attr(attrs, "role"), text)
        },
        NodeKind::AnonymousBlock => (owned("anonymous-block"), None, None, None),
        NodeKind::Text(t) => (owned("#text"), None, None, Some(t.clone())),
        NodeKind::Comment(c) => (owned("#comment"), None, None, Some(c.clone())),
    };
    let is_boxed = match &f.kind {
        NodeKind::Document | NodeKind::Element { .. } | NodeKind::AnonymousBlock => true,
        _ => false,
    };
    let bounds = if is_boxed {
        Some([f.position[0], f.position[1], f.size[0], f.size[1]])
    } else {
        None
    };
    let scroll_offset = if is_boxed && (is_nonzero_f64(f.scroll_offset[0]) || is_nonzero_f64(
        f.scroll_offset[1],
    )) {
        Some(f.scroll_offset)
    } else {
        None
    };
    let focused = match model.focused {
        Some(fid) => if fid == f.id {
            Some(true)
        } else {
            None
        },
        None => None,
    };
    SemanticNode {
        id: f.id,
        parent_id: f.parent,
        tag,
        dom_id,
        role,
        text,
        bounds,
        focused,
        hovered: if f.hovered {
            Some(true)
        } else {
            None
        },
        active: if f.active {
            Some(true)
        } else {
            None
        },
        scroll_offset,
        children: copy_ids(&f.children),
    }
}

} // verus!

verus! {

/// `nodes` reports, in order, the document nodes named by `ids`.
#[verifier::opaque]
pub open spec fn reports(model: DocumentModel, nodes: Seq<SemanticNode>, ids: Seq<u64>) -> bool {
    &&& nodes.len() == ids.len()
    &&& forall|i: int|
        0 <= i < ids.len() ==> has_node(model, #[trigger] ids[i]) && describes(
            nodes[i],
            facts_of(model, ids[i]),
            model.focused,
        )
}

proof fn lemma_reports_push(
    model: DocumentModel,
    out: Seq<SemanticNode>,
    ids: Seq<u64>,
    sn: SemanticNode,
    id: u64,
)
    requires
        reports(model, out, ids),
        has_node(model, id),
        describes(sn, facts_of(model, id), model.focused),
    ensures
        reports(model, out.push(sn), ids.push(id)),
{
    reveal(reports);
    let o = out.push(sn);
    let d = ids.push(id);
    assert forall|i: int| 0 <= i < d.len() implies has_node(model, #[trigger] d[i]) && describes(
        o[i],
        facts_of(model, d[i]),
        model.focused,
    ) by {
        if i < d.len() - 1 {
            assert(o[i] == out[i]);
            assert(d[i] == ids[i]);
        }
    }
}


/// A walk reports the node it starts from first, when that node exists.
pub proof fn law_walk_starts_at_root(model: DocumentModel, root: u64, max: nat)
    requires
        has_node(model, root),
    ensures
        visited(model, root, max).len() >= 1,
        visited(model, root, max)[0] == root,
{
    lemma_preorder_unfold(model, root, 0, max);
}

proof fn lemma_past_depth(model: DocumentModel, ids: Seq<u64>, d: nat, max: nat)
    requires
        d > max,
    ensures
        preorder_all(model, ids, d, max) == Seq::<u64>::empty(),
    decreases ids.len(),
{
    lemma_all_unfold(model, ids, d, max);
    if ids.len() > 0 {
        lemma_past_depth(model, ids.drop_first(), d, max);
        lemma_preorder_unfold(model, ids[0], d, max);
        assert(Seq::<u64>::empty() + Seq::<u64>::empty() =~= Seq::<u64>::empty());
    }
}

/// A walk limited to depth zero reports the start node alone (nothing when
/// it does not exist).
pub proof fn law_depth_zero_walk(model: DocumentModel, root: u64)
    ensures
        visited(model, root, 0) == if has_node(model, root) {
            seq![root]
        } else {
            Seq::<u64>::empty()
        },
{
    lemma_preorder_unfold(model, root, 0, 0);
    lemma_past_depth(model, children_of(model, root), 1, 0);
    assert(seq![root] + Seq::<u64>::empty() =~= seq![root]);
}

/// Pushes the children `ids`, at depth `d`, so that the first child is on top.
fn push_children(stack: &mut Vec<(u64, u64)>, ids: &Vec<u64>, d: u64)
    ensures
        final(stack)@ == old(stack)@ + reversed_entries(ids@, d),
{
    let ghost rest = stack@;
    let ghost kids = ids@;
    let mut j: usize = ids.len();
    assert(kids.skip(j as int) =~= Seq::<u64>::empty());
    assert(rest + reversed_entries(kids.skip(j as int), d) =~= rest);
    while j > 0
        invariant
            j <= kids.len(),
            kids == ids@,
            stack@ == rest + reversed_entries(kids.skip(j as int), d),
        decreases j,
    {
        j = j - 1;
        stack.push((ids[j], d));
        proof {
            let tail = kids.skip(j as int);
            assert(tail.drop_first() =~= kids.skip(j + 1));
            assert(tail[0] == kids[j as int]);
            assert(reversed_entries(tail, d) == reversed_entries(tail.drop_first(), d).push(
                (kids[j as int], d),
            ));
            assert(stack@ =~= rest + reversed_entries(tail, d));
        }
    }
    assert(kids.skip(0) =~= kids);
}

proof fn lemma_pop(model: DocumentModel, stack: Seq<(u64, u64)>, max: nat)
    requires
        stack.len() > 0,
    ensures
        pending(model, stack, max) == preorder(model, stack.last().0, stack.last().1 as nat, max)
            + pending(model, stack.drop_last(), max),
        pending_work(model, stack, max) == work(model, stack.last().0, stack.last().1 as nat, max)
            + pending_work(model, stack.drop_last(), max),
{
    lemma_pending_unfold(model, stack, max);
}

/// Taking an entry off the stack that reports nothing (too deep, or not a
/// node) leaves what is left to report as it was, with less work left.
proof fn lemma_skip_step(m: DocumentModel, root: u64, ids: Seq<u64>, before: Seq<(u64, u64)>, max: nat)
    requires
        before.len() > 0,
        before.last().1 > max || !has_node(m, before.last().0),
        visited(m, root, max) == ids + pending(m, before, max),
    ensures
        visited(m, root, max) == ids + pending(m, before.drop_last(), max),
        pending_work(m, before.drop_last(), max) < pending_work(m, before, max),
{
    lemma_pop(m, before, max);
    lemma_preorder_unfold(m, before.last().0, before.last().1 as nat, max);
    assert(Seq::<u64>::empty() + pending(m, before.drop_last(), max) =~= pending(m, before.drop_last(), max));
}

/// Reporting a node and stacking its children keeps the walk on course.
proof fn lemma_visit_step(
    m: DocumentModel,
    root: u64,
    ids: Seq<u64>,
    before: Seq<(u64, u64)>,
    after: Seq<(u64, u64)>,
    max: nat,
)
    requires
        before.len() > 0,
        visited(m, root, max) == ids + pending(m, before, max),
        seq![before.last().0] + pending(m, after, max) == preorder(
            m,
            before.last().0,
            before.last().1 as nat,
            max,
        ) + pending(m, before.drop_last(), max),
        pending_work(m, after, max) + 1 == work(m, before.last().0, before.last().1 as nat, max)
            + pending_work(m, before.drop_last(), max),
    ensures
        visited(m, root, max) == ids.push(before.last().0) + pending(m, after, max),
        pending_work(m, after, max) < pending_work(m, before, max),
{
    lemma_pop(m, before, max);
    let id = before.last().0;
    let p = preorder(m, id, before.last().1 as nat, max);
    let r = pending(m, before.drop_last(), max);
    assert(ids + (p + r) =~= (ids + p) + r);
    assert(ids + (seq![id] + pending(m, after, max)) =~= ids.push(id) + pending(m, after, max));
}

/// Walks the document in pre-order from `root`, down to `max_depth` levels,
/// reporting every node that exists.
#[verifier::spinoff_prover]
pub fn walk(model: &DocumentModel, root: u64, max_depth: u32) -> (nodes: Vec<SemanticNode>)
    ensures
        reports(*model, nodes@, visited(*model, root, max_depth as nat)),
{
    let ghost m = *model;
    let ghost max = max_depth as nat;
    let mut stack: Vec<(u64, u64)> = Vec::new();
    stack.push((root, 0));
    let mut out: Vec<SemanticNode> = Vec::new();
    let ghost mut ids: Seq<u64> = Seq::empty();
    proof {
        reveal(reports);
        lemma_pop(m, stack@, max);
        assert(stack@.drop_last() =~= Seq::<(u64, u64)>::empty());
        assert(stack@.last() == (root, 0u64));
        lemma_pending_unfold(m, Seq::<(u64, u64)>::empty(), max);
        assert(pending(m, stack@, max) =~= preorder(m, root, 0, max));
        assert(visited(m, root, max) =~= ids + pending(m, stack@, max));
    }
    while stack.len() > 0
        invariant
            m == *model,
            max == max_depth as nat,
            visited(m, root, max) == ids + pending(m, stack@, max),
            reports(m, out@, ids),
        decreases pending_work(m, stack@, max),
    {
        let ghost before = stack@;
        let (id, depth) = stack.pop().unwrap();
        let ghost rest = stack@;
        proof {
            assert(before.drop_last() =~= rest);
            assert(before.last() == (id, depth));
        }
        if depth > max_depth as u64 {
            proof {
                lemma_skip_step(m, root, ids, before, max);
            }
        } else {
            match find_node(model, id) {
                None => {
                    proof {
                        lemma_skip_step(m, root, ids, before, max);
                    }
                },
                Some(k) => {
                    visit_found(model, k, depth, max_depth, &mut stack, &mut out, Ghost(ids));
                    proof {
                        lemma_visit_step(m, root, ids, before, stack@, max);
                        ids = ids.push(id);
                    }
                },
            }
        }
    }
    proof {
        lemma_pending_unfold(m, stack@, max);
        assert(ids + Seq::<u64>::empty() =~= ids);
    }
    out
}

/// Reports the `k`-th node, met at depth `depth`, and stacks its children.
fn visit_found(
    model: &DocumentModel,
    k: usize,
    depth: u64,
    max_depth: u32,
    stack: &mut Vec<(u64, u64)>,
    out: &mut Vec<SemanticNode>,
    Ghost(ids): Ghost<Seq<u64>>,
)
    requires
        k < model.nodes@.len(),
        node_index(model.nodes@, model.nodes@[k as int].id) == Some(k as int),
        depth <= max_depth,
        reports(*model, old(out)@, ids),
    ensures
        reports(*model, final(out)@, ids.push(model.nodes@[k as int].id)),
        seq![model.nodes@[k as int].id] + pending(*model, final(stack)@, max_depth as nat)
            == preorder(*model, model.nodes@[k as int].id, depth as nat, max_depth as nat)
            + pending(*model, old(stack)@, max_depth as nat),
        pending_work(*model, final(stack)@, max_depth as nat) + 1 == work(
            *model,
            model.nodes@[k as int].id,
            depth as nat,
            max_depth as nat,
        ) + pending_work(*model, old(stack)@, max_depth as nat),
{
    let ghost m = *model;
    let ghost max = max_depth as nat;
    let ghost id = model.nodes@[k as int].id;
    let ghost rest = stack@;
    assert(has_node(m, id));
    assert(facts_of(m, id) == m.nodes@[k as int]);
    let sn = describe_node(model, k);
    proof {
        lemma_reports_push(m, out@, ids, sn, id);
    }
    out.push(sn);
    let ghost kids = model.nodes@[k as int].children@;
    assert(children_of(m, id) == kids);
    push_children(stack, &model.nodes[k].children, depth + 1);
    proof {
        lemma_push_children(m, rest, kids, (depth + 1) as u64, max);
        lemma_preorder_unfold(m, id, depth as nat, max);
        let below = preorder_all(m, kids, (depth + 1) as nat, max);
        assert(preorder(m, id, depth as nat, max) == seq![id] + below);
        assert(seq![id] + (below + pending(m, rest, max)) =~= (seq![id] + below) + pending(m, rest, max));
    }
}

proof fn lemma_entries_depth(ids: Seq<u64>, d: u64, rest: Seq<(u64, u64)>, max: nat)
    requires
        d <= max + 1,
        forall|k: int| 0 <= k < rest.len() ==> #[trigger] rest[k].1 <= max + 1,
    ensures
        forall|k: int|
            0 <= k < (rest + reversed_entries(ids, d)).len() ==> #[trigger] (rest + reversed_entries(
                ids,
                d,
            ))[k].1 <= max + 1,
    decreases ids.len(),
{
    if ids.len() > 0 {
        lemma_entries_depth(ids.drop_first(), d, rest, max);
        let inner = rest + reversed_entries(ids.drop_first(), d);
        assert(rest + reversed_entries(ids, d) =~= inner.push((ids[0], d)));
    }
}

} // verus!

verus! {

/// The outcome of resolving the node ID `id`: the ID, or the refusal text.
pub open spec fn node_resolution(model: DocumentModel, id: u64) -> Result<Option<u64>, Seq<char>> {
    if has_node(model, id) {
        Ok(Some(id))
    } else {
        Err("Node #"@ + decimal(id as nat) + " not found in document"@)
    }
}

/// The outcome of resolving the selector text `raw` from `lookup`.
pub open spec fn selector_resolution(raw: Seq<char>, lookup: SelectorLookup) -> Result<
    Option<u64>,
    Seq<char>,
> {
    let t = trimmed(raw);
    if t.len() == 0 {
        Err("Empty selector provided"@)
    } else {
        match lookup.query {
            Ok(Some(n)) => Ok(Some(n)),
            Ok(None) => match lookup.by_id {
                Some(n) => Ok(Some(n)),
                None => Err("Element matching selector '"@ + t + "' not found in document"@),
            },
            Err(q) => match lookup.by_id {
                Some(n) => Ok(Some(n)),
                None => Err("Invalid CSS selector '"@ + t + "': "@ + q@),
            },
        }
    }
}

/// Where an inspection starts, or why it cannot: the request's explicit
/// target, else its selector text (a number there is a node ID), else its root
/// node ID, else the document root (`Ok(None)`).
pub open spec fn inspect_resolution(
    model: DocumentModel,
    request: InspectRequest,
    lookup: SelectorLookup,
) -> Result<Option<u64>, Seq<char>> {
    match request.target {
        Some(ElementTarget::Id(id)) => node_resolution(model, id),
        Some(ElementTarget::Selector(s)) => selector_resolution(s@, lookup),
        None => match request.selector {
            Some(s) => match crate::text::spec_parse_u64(trimmed(s@)) {
                Some(id) => node_resolution(model, id),
                None => selector_resolution(trimmed(s@), lookup),
            },
            None => match request.root_node_id {
                Some(id) => node_resolution(model, id),
                None => Ok(None),
            },
        },
    }
}

/// The viewport scroll reported when it is not zero.
pub open spec fn reported_scroll(v: [u64; 2]) -> Option<[u64; 2]> {
    if nonzero_f64(v[0]) || nonzero_f64(v[1]) {
        Some(v)
    } else {
        None
    }
}

proof fn lemma_outcome_matches(
    model: DocumentModel,
    request: InspectRequest,
    lookup: SelectorLookup,
    t: Option<ElementTarget>,
    r: Result<Option<u64>, String>,
)
    requires
        picks_target(request.target, request.selector, request.root_node_id, t),
        target_outcome(model, t, request.root_node_id, opt_text(request.selector), lookup, r),
    ensures
        match inspect_resolution(model, request, lookup) {
            Ok(x) => r == Ok::<Option<u64>, String>(x),
            Err(m) => r matches Err(e) && e@ == m,
        },
{
    if request.target is None {
        if let Some(s) = request.selector {
            crate::text::lemma_trimmed_idempotent(s@);
        }
    }
}

/// What an inspection of `model` for `request`, with `lookup` as the
/// document's answer for its selector, reports: `resp`.
pub open spec fn inspects(
    model: DocumentModel,
    request: InspectRequest,
    lookup: SelectorLookup,
    resp: InspectResponse,
) -> bool {
    &&& resp.document_id == model.document_id
    &&& resp.current_frame is None
    &&& resp.focused_node_id == model.focused
    &&& resp.hover_node_id == model.hovered
    &&& match inspect_resolution(model, request, lookup) {
        Err(msg) => {
            &&& resp.root_id == 0
            &&& resp.node_count == 0
            &&& resp.nodes@.len() == 0
            &&& resp.viewport_scroll is None
            &&& opt_text(resp.message) == Some(msg)
        },
        Ok(found) => {
            let root = match found {
                Some(id) => id,
                None => model.root_id,
            };
            let max = match request.max_depth {
                Some(d) => d,
                None => u32::MAX,
            };
            &&& resp.root_id == root
            &&& reports(model, resp.nodes@, visited(model, root, max as nat))
            &&& resp.node_count == resp.nodes@.len()
            &&& resp.viewport_scroll == reported_scroll(model.viewport_scroll)
            &&& resp.message is None
        },
    }
}

/// Inspects the document: resolves where to start, then reports, in
/// pre-order, the nodes within `max_depth` levels below it (all levels when
/// none is given). A target that cannot be resolved gives an empty snapshot with
/// the reason as its message.
pub fn inspect_document(
    model: &DocumentModel,
    request: &InspectRequest,
    lookup: &SelectorLookup,
) -> (resp: InspectResponse)
    ensures
        inspects(*model, *request, *lookup, resp),
{
    let target = request.target();
    let resolved = resolve_target_in_doc(
        model,
        match &target {
            Some(t) => Some(t),
            None => None,
        },
        request.root_node_id,
        match &request.selector {
            Some(s) => Some(s.as_str()),
            None => None,
        },
        lookup,
    );
    proof {
        lemma_outcome_matches(*model, *request, *lookup, target, resolved);
    }
    let root = match resolved {
        Ok(Some(id)) => id,
        Ok(None) => model.root_id,
        Err(err) => {
            return InspectResponse {
                document_id: model.document_id,
                root_id: 0,
                node_count: 0,
                current_frame: None,
                focused_node_id: model.focused,
                hover_node_id: model.hovered,
                viewport_scroll: None,
                nodes: Vec::new(),
                message: Some(err),
            };
        },
    };
    let max_depth = match request.max_depth {
        Some(d) => d,
        None => u32::MAX,
    };
    let nodes = walk(model, root, max_depth);
    let viewport_scroll = if is_nonzero_f64(model.viewport_scroll[0]) || is_nonzero_f64(
        model.viewport_scroll[1],
    ) {
        Some(model.viewport_scroll)
    } else {
        None
    };
    InspectResponse {
        document_id: model.document_id,
        root_id: root,
        node_count: nodes.len(),
        current_frame: None,
        focused_node_id: model.focused,
        hover_node_id: model.hovered,
        viewport_scroll,
        nodes,
        message: None,
    }
}

} // verus!
