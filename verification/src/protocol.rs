//! The typed control vocabulary shared by hosts and agents.
//!
//! Coordinates, deltas, layout bounds and scroll offsets travel as the IEEE-754
//! bit patterns of their floating-point values (`f32::to_bits` / `f64::to_bits`),
//! so that the library itself never computes with floating point.

use vstd::prelude::*;

use crate::text::{
    chars_of, decimal, decimal_chars, parse_u64_chars, spec_parse_u64, string_from_chars, trim_chars, trimmed,
};

verus! {

/// Current protocol wire version.
pub const PROTOCOL_VERSION: u32 = 1;

/// Ephemeral discovery descriptor published by a running host.
#[derive(Debug, Clone, PartialEq, Eq)]
pub struct HostDescriptor {
    /// Protocol version spoken by the host.
    pub protocol_version: u32,
    /// Operating system process ID of the running host.
    pub pid: u32,
    /// Unique instance identifier for this session.
    pub instance_id: String,
    /// Path to the local control socket.
    pub socket_path: String,
    /// Host renderer identifier (e.g. "blitz").
    pub renderer: String,
    /// Host renderer version or build revision.
    pub renderer_version: String,
    /// Primary window handle if exposed by the host.
    pub primary_window_id: Option<u64>,
    /// Primary document identifier.
    pub primary_document_id: Option<usize>,
}

/// Target specifier for an element: either a direct ephemeral node ID or a CSS selector string.
#[derive(Debug, Clone, PartialEq, Eq)]
pub enum ElementTarget {
    /// Ephemeral Blitz node ID.
    Id(u64),
    /// CSS selector string (e.g. "#test-input", "button.primary").
    Selector(String),
}

/// `t` is what the text `text` names: the trimmed text read as a node ID when
/// it is a decimal number, and as a selector otherwise.
pub open spec fn names_target(text: Seq<char>, t: ElementTarget) -> bool {
    match spec_parse_u64(trimmed(text)) {
        Some(id) => t == ElementTarget::Id(id),
        None => t matches ElementTarget::Selector(sel) && sel@ == trimmed(text),
    }
}

impl ElementTarget {
    /// Reads a target from text: a trimmed decimal number is a node ID,
    /// anything else is a selector (trimmed).
    pub fn from_text(s: &str) -> (t: ElementTarget)
        ensures
            names_target(s@, t),
    {
        let chars = chars_of(s);
        let trim = trim_chars(chars.as_slice());
        match parse_u64_chars(trim.as_slice()) {
            Some(id) => ElementTarget::Id(id),
            None => ElementTarget::Selector(string_from_chars(trim.as_slice())),
        }
    }

    /// A copy of this target.
    pub fn duplicate(&self) -> (t: ElementTarget)
        ensures
            t == *self,
    {
        match self {
            ElementTarget::Id(id) => ElementTarget::Id(*id),
            ElementTarget::Selector(s) => ElementTarget::Selector(s.clone()),
        }
    }

    /// The display form of the target: `#<id>` for a node ID, the selector itself otherwise.
    pub fn display(&self) -> (s: String)
        ensures
            s@ == match self {
                ElementTarget::Id(id) => seq!['#'] + decimal(*id as nat),
                ElementTarget::Selector(sel) => sel@,
            },
    {
        match self {
            ElementTarget::Id(id) => {
                let mut s = String::new();
                s.push('#');
                let digits = decimal_chars(*id);
                let mut i: usize = 0;
                while i < digits.len()
                    invariant
                        i <= digits@.len(),
                        s@ == seq!['#'] + digits@.take(i as int),
                    decreases digits@.len() - i,
                {
                    s.push(digits[i]);
                    i = i + 1;
                    assert(digits@.take(i as int) =~= digits@.take((i - 1) as int).push(
                        digits@[i - 1],
                    ));
                }
                assert(digits@.take(digits@.len() as int) =~= digits@);
                s
            },
            ElementTarget::Selector(sel) => sel.clone(),
        }
    }
}

impl From<u64> for ElementTarget {
    fn from(id: u64) -> (t: ElementTarget) {
        ElementTarget::Id(id)
    }
}

impl vstd::std_specs::convert::FromSpecImpl<u64> for ElementTarget {
    open spec fn obeys_from_spec() -> bool {
        true
    }

    open spec fn from_spec(id: u64) -> ElementTarget {
        ElementTarget::Id(id)
    }
}

/// `r` is the target a request names through its three fields: the explicit
/// target first, then the selector text, then the bare node ID.
pub open spec fn picks_target(
    target: Option<ElementTarget>,
    selector: Option<String>,
    node_id: Option<u64>,
    r: Option<ElementTarget>,
) -> bool {
    match target {
        Some(t) => r == Some(t),
        None => match selector {
            Some(s) => r matches Some(t) && names_target(s@, t),
            None => r == match node_id {
                Some(id) => Some(ElementTarget::Id(id)),
                None => None::<ElementTarget>,
            },
        },
    }
}

fn pick_target(
    target: &Option<ElementTarget>,
    selector: &Option<String>,
    node_id: Option<u64>,
) -> (r: Option<ElementTarget>)
    ensures
        picks_target(*target, *selector, node_id, r),
{
    if let Some(t) = target {
        Some(t.duplicate())
    } else if let Some(s) = selector {
        Some(ElementTarget::from_text(s.as_str()))
    } else {
        match node_id {
            Some(id) => Some(ElementTarget::Id(id)),
            None => None,
        }
    }
}

/// Request to inspect the running host's DOM / semantic tree.
#[derive(Debug, Clone, PartialEq, Eq)]
pub struct InspectRequest {
    /// Optional target window handle (falls back to primary window if None).
    pub window_id: Option<u64>,
    /// Optional starting root node id. If `None`, inspection starts at document root.
    pub root_node_id: Option<u64>,
    /// Optional CSS selector to target the root node of the inspection subtree.
    pub selector: Option<String>,
    /// Optional polymorphic element target (node ID or CSS selector).
    pub target: Option<ElementTarget>,
    /// Optional maximum traversal depth.
    pub max_depth: Option<u32>,
}

impl Default for InspectRequest {
    fn default() -> (r: InspectRequest)
        ensures
            r.window_id is None,
            r.root_node_id is None,
            r.selector is None,
            r.target is None,
            r.max_depth is None,
    {
        InspectRequest {
            window_id: None,
            root_node_id: None,
            selector: None,
            target: None,
            max_depth: None,
        }
    }
}

impl InspectRequest {
    /// Resolves the intended target if specified either via `target`, `selector`, or `root_node_id`.
    pub fn target(&self) -> (r: Option<ElementTarget>)
        ensures
            picks_target(self.target, self.selector, self.root_node_id, r),
    {
        pick_target(&self.target, &self.selector, self.root_node_id)
    }
}

/// Modifier keys held during a key action.
#[derive(Debug, Clone, Copy, PartialEq, Eq, Structural)]
pub struct KeyModifiers {
    pub shift: bool,
    pub ctrl: bool,
    pub alt: bool,
    pub meta: bool,
}

impl Default for KeyModifiers {
    fn default() -> (r: KeyModifiers)
        ensures
            r == KeyModifiers::spec_none(),
    {
        KeyModifiers::none()
    }
}

impl KeyModifiers {
    pub open spec fn spec_none() -> KeyModifiers {
        KeyModifiers { shift: false, ctrl: false, alt: false, meta: false }
    }

    /// No modifier held.
    pub fn none() -> (r: KeyModifiers)
        ensures
            r == KeyModifiers::spec_none(),
    {
        KeyModifiers { shift: false, ctrl: false, alt: false, meta: false }
    }

    /// Shift alone.
    pub fn shift_only() -> (r: KeyModifiers)
        ensures
            r == (KeyModifiers { shift: true, ctrl: false, alt: false, meta: false }),
    {
        KeyModifiers { shift: true, ctrl: false, alt: false, meta: false }
    }

    /// Control alone.
    pub fn ctrl_only() -> (r: KeyModifiers)
        ensures
            r == (KeyModifiers { shift: false, ctrl: true, alt: false, meta: false }),
    {
        KeyModifiers { shift: false, ctrl: true, alt: false, meta: false }
    }

    /// Alt alone.
    pub fn alt_only() -> (r: KeyModifiers)
        ensures
            r == (KeyModifiers { shift: false, ctrl: false, alt: true, meta: false }),
    {
        KeyModifiers { shift: false, ctrl: false, alt: true, meta: false }
    }

    /// Meta (Cmd / Super) alone.
    pub fn meta_only() -> (r: KeyModifiers)
        ensures
            r == (KeyModifiers { shift: false, ctrl: false, alt: false, meta: true }),
    {
        KeyModifiers { shift: false, ctrl: false, alt: false, meta: true }
    }

    /// Platform-appropriate action modifier: Cmd (meta) on macOS, Ctrl elsewhere.
    pub fn action_modifier(on_macos: bool) -> (r: KeyModifiers)
        ensures
            r == (if on_macos {
                KeyModifiers { shift: false, ctrl: false, alt: false, meta: true }
            } else {
                KeyModifiers { shift: false, ctrl: true, alt: false, meta: false }
            }),
    {
        if on_macos {
            KeyModifiers::meta_only()
        } else {
            KeyModifiers::ctrl_only()
        }
    }

    /// Whether no modifier is held.
    pub fn is_empty(&self) -> (r: bool)
        ensures
            r == (!self.shift && !self.ctrl && !self.alt && !self.meta),
    {
        !self.shift && !self.ctrl && !self.alt && !self.meta
    }
}

} // verus!

verus! {

/// Request to perform an action on a target node in the host.
///
/// `x` / `y` are `f32` bit patterns; `delta_x` / `delta_y` are `f64` bit patterns.
#[derive(Debug, Clone, PartialEq, Eq)]
pub enum ActionRequest {
    /// Synthetic click on a node or selector.
    Click {
        window_id: Option<u64>,
        node_id: Option<u64>,
        selector: Option<String>,
        target: Option<ElementTarget>,
    },
    /// Focus a target node or selector.
    Focus {
        window_id: Option<u64>,
        node_id: Option<u64>,
        selector: Option<String>,
        target: Option<ElementTarget>,
    },
    /// Set the text/input value of an editable node or selector.
    SetValue {
        window_id: Option<u64>,
        node_id: Option<u64>,
        selector: Option<String>,
        target: Option<ElementTarget>,
        value: String,
    },
    /// Inject a keypress action.
    Key {
        window_id: Option<u64>,
        node_id: Option<u64>,
        selector: Option<String>,
        target: Option<ElementTarget>,
        /// Key name or character to inject (e.g. "Tab", "Enter", "a").
        key: String,
        modifiers: Option<KeyModifiers>,
    },
    /// Pointer / mouse move (hover).
    MouseMove {
        window_id: Option<u64>,
        node_id: Option<u64>,
        selector: Option<String>,
        target: Option<ElementTarget>,
        x: Option<u32>,
        y: Option<u32>,
        modifiers: Option<KeyModifiers>,
    },
    /// Pointer / mouse button press.
    MouseDown {
        window_id: Option<u64>,
        node_id: Option<u64>,
        selector: Option<String>,
        target: Option<ElementTarget>,
        x: Option<u32>,
        y: Option<u32>,
        /// Button: "left", "right", "middle" (defaults to "left").
        button: Option<String>,
        modifiers: Option<KeyModifiers>,
    },
    /// Pointer / mouse button release.
    MouseUp {
        window_id: Option<u64>,
        node_id: Option<u64>,
        selector: Option<String>,
        target: Option<ElementTarget>,
        x: Option<u32>,
        y: Option<u32>,
        button: Option<String>,
        modifiers: Option<KeyModifiers>,
    },
    /// Mouse wheel / scroll.
    Wheel {
        window_id: Option<u64>,
        node_id: Option<u64>,
        selector: Option<String>,
        target: Option<ElementTarget>,
        x: Option<u32>,
        y: Option<u32>,
        delta_x: u64,
        delta_y: u64,
        modifiers: Option<KeyModifiers>,
    },
}

impl ActionRequest {
    /// The `(target, selector, node_id)` fields shared by every action.
    pub open spec fn addressing(self) -> (Option<ElementTarget>, Option<String>, Option<u64>) {
        match self {
            ActionRequest::Click { target, selector, node_id, .. } => (target, selector, node_id),
            ActionRequest::Focus { target, selector, node_id, .. } => (target, selector, node_id),
            ActionRequest::SetValue { target, selector, node_id, .. } => (
                target,
                selector,
                node_id,
            ),
            ActionRequest::Key { target, selector, node_id, .. } => (target, selector, node_id),
            ActionRequest::MouseMove { target, selector, node_id, .. } => (
                target,
                selector,
                node_id,
            ),
            ActionRequest::MouseDown { target, selector, node_id, .. } => (
                target,
                selector,
                node_id,
            ),
            ActionRequest::MouseUp { target, selector, node_id, .. } => (
                target,
                selector,
                node_id,
            ),
            ActionRequest::Wheel { target, selector, node_id, .. } => (target, selector, node_id),
        }
    }

    /// Resolves the intended target if specified either via `target`, `selector`, or `node_id`.
    pub fn target(&self) -> (r: Option<ElementTarget>)
        ensures
            picks_target(self.addressing().0, self.addressing().1, self.addressing().2, r),
    {
        match self {
            ActionRequest::Click { target, selector, node_id, .. }
            | ActionRequest::Focus { target, selector, node_id, .. }
            | ActionRequest::SetValue { target, selector, node_id, .. }
            | ActionRequest::Key { target, selector, node_id, .. }
            | ActionRequest::MouseMove { target, selector, node_id, .. }
            | ActionRequest::MouseDown { target, selector, node_id, .. }
            | ActionRequest::MouseUp { target, selector, node_id, .. }
            | ActionRequest::Wheel { target, selector, node_id, .. } => pick_target(
                target,
                selector,
                *node_id,
            ),
        }
    }

    /// Access raw `node_id` field if directly specified.
    pub fn raw_node_id(&self) -> (r: Option<u64>)
        ensures
            r == self.addressing().2,
    {
        match self {
            ActionRequest::Click { node_id, .. }
            | ActionRequest::Focus { node_id, .. }
            | ActionRequest::SetValue { node_id, .. }
            | ActionRequest::Key { node_id, .. }
            | ActionRequest::MouseMove { node_id, .. }
            | ActionRequest::MouseDown { node_id, .. }
            | ActionRequest::MouseUp { node_id, .. }
            | ActionRequest::Wheel { node_id, .. } => *node_id,
        }
    }

    /// The pointer actions of a left-button drag from `from` to `to`: move to
    /// the start, press, move to the end, release.
    pub fn drag_sequence(from: ElementTarget, to: ElementTarget) -> (r: Vec<ActionRequest>)
        ensures
            r@.len() == 4,
            r@[0] == (ActionRequest::MouseMove {
                window_id: None,
                node_id: None,
                selector: None,
                target: Some(from),
                x: None,
                y: None,
                modifiers: None,
            }),
            r@[1] matches ActionRequest::MouseDown {
                window_id: None,
                node_id: None,
                selector: None,
                target: Some(t),
                x: None,
                y: None,
                button: Some(b),
                modifiers: None,
            } && t == from && b@ == "left"@,
            r@[2] == (ActionRequest::MouseMove {
                window_id: None,
                node_id: None,
                selector: None,
                target: Some(to),
                x: None,
                y: None,
                modifiers: None,
            }),
            r@[3] matches ActionRequest::MouseUp {
                window_id: None,
                node_id: None,
                selector: None,
                target: Some(t),
                x: None,
                y: None,
                button: Some(b),
                modifiers: None,
            } && t == to && b@ == "left"@,
    {
        let mut r: Vec<ActionRequest> = Vec::new();
        r.push(
            ActionRequest::MouseMove {
                window_id: None,
                node_id: None,
                selector: None,
                target: Some(from.duplicate()),
                x: None,
                y: None,
                modifiers: None,
            },
        );
        r.push(
            ActionRequest::MouseDown {
                window_id: None,
                node_id: None,
                selector: None,
                target: Some(from),
                x: None,
                y: None,
                button: Some(crate::text::owned("left")),
                modifiers: None,
            },
        );
        r.push(
            ActionRequest::MouseMove {
                window_id: None,
                node_id: None,
                selector: None,
                target: Some(to.duplicate()),
                x: None,
                y: None,
                modifiers: None,
            },
        );
        r.push(
            ActionRequest::MouseUp {
                window_id: None,
                node_id: None,
                selector: None,
                target: Some(to),
                x: None,
                y: None,
                button: Some(crate::text::owned("left")),
                modifiers: None,
            },
        );
        r
    }

    /// Access raw `selector` field if directly specified.
    pub fn raw_selector(&self) -> (r: Option<&str>)
        ensures
            match self.addressing().1 {
                Some(s) => r matches Some(t) && t@ == s@,
                None => r is None,
            },
    {
        match self {
            ActionRequest::Click { selector, .. }
            | ActionRequest::Focus { selector, .. }
            | ActionRequest::SetValue { selector, .. }
            | ActionRequest::Key { selector, .. }
            | ActionRequest::MouseMove { selector, .. }
            | ActionRequest::MouseDown { selector, .. }
            | ActionRequest::MouseUp { selector, .. }
            | ActionRequest::Wheel { selector, .. } => match selector {
                Some(s) => Some(s.as_str()),
                None => None,
            },
        }
    }
}

/// Result of executing an action.
#[derive(Debug, Clone, PartialEq, Eq)]
pub struct ActionResponse {
    /// Whether the action was successfully dispatched.
    pub success: bool,
    /// Target node ID that received the action.
    pub node_id: u64,
    /// Whether an active event listener intercepted and handled this action.
    pub handled: Option<bool>,
    /// Optional status or failure message.
    pub message: Option<String>,
}

/// Request to wait for a number of host frames to settle.
#[derive(Debug, Clone, PartialEq, Eq, Structural)]
pub struct SettleRequest {
    /// Optional target window handle (falls back to primary window if None).
    pub window_id: Option<u64>,
    /// Number of render/animation frames to wait.
    pub frames: u32,
}

/// Result of settling for requested frames.
#[derive(Debug, Clone, PartialEq, Eq, Structural)]
pub struct SettleResponse {
    /// Whether the requested frames were successfully observed.
    pub settled: bool,
    /// Number of frames actually waited.
    pub frames_waited: u32,
    /// Current frame counter upon completion.
    pub current_frame: u64,
}

/// Request to capture a visual screenshot and write the artifact to disk.
#[derive(Debug, Clone, PartialEq, Eq)]
pub struct CaptureRequest {
    pub window_id: Option<u64>,
    /// Optional target node handle (crops the capture to this node's visual bounds).
    pub node_id: Option<u64>,
    /// Optional CSS selector to crop the capture to the matching element's visual bounds.
    pub selector: Option<String>,
    /// Optional polymorphic element target (node ID or CSS selector).
    pub target: Option<ElementTarget>,
    /// Target file path where the captured image artifact must be written.
    pub output_path: String,
}

impl CaptureRequest {
    /// Resolves the intended target if specified either via `target`, `selector`, or `node_id`.
    pub fn target(&self) -> (r: Option<ElementTarget>)
        ensures
            picks_target(self.target, self.selector, self.node_id, r),
    {
        pick_target(&self.target, &self.selector, self.node_id)
    }
}

/// Metadata result of capturing a visual screenshot to a file.
#[derive(Debug, Clone, PartialEq, Eq)]
pub struct CaptureResponse {
    pub success: bool,
    /// Path to the saved PNG file on disk.
    pub file_path: String,
    /// Rendered image width in physical pixels.
    pub width: u32,
    /// Rendered image height in physical pixels.
    pub height: u32,
    /// Image format (e.g. "png").
    pub format: String,
    /// Target node ID that was cropped, if requested.
    pub node_id: Option<u64>,
    /// Number of PNG bytes written to disk.
    pub bytes: usize,
    pub message: Option<String>,
}

/// A node in the inspected semantic tree.
///
/// `bounds` holds `f32` bit patterns of `[x, y, width, height]`;
/// `scroll_offset` holds `f64` bit patterns of `[x, y]`.
#[derive(Debug, Clone, PartialEq, Eq)]
pub struct SemanticNode {
    pub id: u64,
    pub parent_id: Option<u64>,
    /// HTML tag name or node kind ("#text", "#document").
    pub tag: String,
    pub dom_id: Option<String>,
    pub role: Option<String>,
    pub text: Option<String>,
    pub bounds: Option<[u32; 4]>,
    pub focused: Option<bool>,
    pub hovered: Option<bool>,
    pub active: Option<bool>,
    pub scroll_offset: Option<[u64; 2]>,
    pub children: Vec<u64>,
}

/// Response returned from an inspect query.
#[derive(Debug, Clone, PartialEq, Eq)]
pub struct InspectResponse {
    pub document_id: usize,
    pub root_id: u64,
    pub node_count: usize,
    pub current_frame: Option<u64>,
    pub focused_node_id: Option<u64>,
    pub hover_node_id: Option<u64>,
    /// Document viewport scroll offset as `f64` bit patterns, if non-zero.
    pub viewport_scroll: Option<[u64; 2]>,
    /// Flattened pre-order list of semantic nodes.
    pub nodes: Vec<SemanticNode>,
    pub message: Option<String>,
}

/// Top-level control request envelope forwarded across the transport.
#[derive(Debug, Clone, PartialEq, Eq)]
pub enum ControlRequest {
    Inspect(InspectRequest),
    Act(ActionRequest),
    Settle(SettleRequest),
    Capture(CaptureRequest),
}

impl ControlRequest {
    /// Resolves the intended target if specified in the payload.
    pub fn target(&self) -> (r: Option<ElementTarget>)
        ensures
            match self {
                ControlRequest::Inspect(q) => picks_target(q.target, q.selector, q.root_node_id, r),
                ControlRequest::Act(a) => picks_target(
                    a.addressing().0,
                    a.addressing().1,
                    a.addressing().2,
                    r,
                ),
                ControlRequest::Capture(c) => picks_target(c.target, c.selector, c.node_id, r),
                ControlRequest::Settle(_) => r is None,
            },
    {
        match self {
            ControlRequest::Inspect(req) => req.target(),
            ControlRequest::Act(req) => req.target(),
            ControlRequest::Capture(req) => req.target(),
            ControlRequest::Settle(_) => None,
        }
    }
}

/// Top-level control response envelope sent back across the transport.
#[derive(Debug, Clone, PartialEq, Eq)]
pub enum ControlResponse {
    InspectSuccess(InspectResponse),
    ActionSuccess(ActionResponse),
    SettleSuccess(SettleResponse),
    CaptureSuccess(CaptureResponse),
    Error(String),
}

} // verus!
