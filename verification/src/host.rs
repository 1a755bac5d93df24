//! Host-side policy: whether debug control is on, how a click is answered,
//! and how serviced requests are answered.

use vstd::prelude::*;

use crate::cli::texts;
use crate::protocol::{ActionResponse, ControlResponse, InspectResponse};
use crate::text::{append_decimal, append_str, chars_eq_ignore_ascii_case, chars_of, decimal, eq_ascii_ci, owned, str_is};

verus! {

/// Whether an environment value switches debug control off: `0` or `false`
/// (any ASCII case) for `BLITZ_DEBUG_CONTROL`.
pub open spec fn control_var_disables(v: Option<Seq<char>>) -> bool {
    match v {
        Some(t) => t == "0"@ || eq_ascii_ci(t, "false"@),
        None => false,
    }
}

/// Whether an environment value switches debug control off: `1` or `true`
/// (any ASCII case) for `BLITZ_HOST_DISABLED`.
pub open spec fn disabled_var_disables(v: Option<Seq<char>>) -> bool {
    match v {
        Some(t) => t == "1"@ || eq_ascii_ci(t, "true"@),
        None => false,
    }
}

/// Debug control is on unless the process was started with
/// `--no-debug-control`, or `BLITZ_DEBUG_CONTROL` is `0`/`false`, or
/// `BLITZ_HOST_DISABLED` is `1`/`true`. The caller passes the process
/// arguments and the two variables (when set and valid Unicode).
pub fn debug_control_enabled(
    args: &[String],
    debug_control: Option<&str>,
    host_disabled: Option<&str>,
) -> (r: bool)
    ensures
        r == !((exists|i: int|
            0 <= i < args@.len() && #[trigger] texts(args@)[i] == "--no-debug-control"@)
            || control_var_disables(
            match debug_control {
                Some(v) => Some(v@),
                None => None,
            },
        ) || disabled_var_disables(
            match host_disabled {
                Some(v) => Some(v@),
                None => None,
            },
        )),
{
    let mut i: usize = 0;
    while i < args.len()
        invariant
            i <= args@.len(),
            forall|k: int| 0 <= k < i ==> texts(args@)[k] != "--no-debug-control"@,
        decreases args@.len() - i,
    {
        if str_is(args[i].as_str(), "--no-debug-control") {
            assert(texts(args@)[i as int] == args@[i as int]@);
            return false;
        }
        i = i + 1;
    }
    if let Some(v) = debug_control {
        let chars = chars_of(v);
        let f = chars_of("false");
        if str_is(v, "0") || chars_eq_ignore_ascii_case(chars.as_slice(), f.as_slice()) {
            return false;
        }
    }
    if let Some(v) = host_disabled {
        let chars = chars_of(v);
        let t = chars_of("true");
        if str_is(v, "1") || chars_eq_ignore_ascii_case(chars.as_slice(), t.as_slice()) {
            return false;
        }
    }
    true
}

/// The refusal for a click on a node that does not exist.
pub open spec fn missing_node_text(node_id: u64) -> Seq<char> {
    "Node #"@ + decimal(node_id as nat) + " not found in document"@
}

/// The answer to a click dispatched to an existing node.
pub open spec fn click_answer(r: ActionResponse, node_id: u64, handled: bool) -> bool {
    &&& r.success
    &&& r.node_id == node_id
    &&& r.handled == Some(handled)
    &&& r.message matches Some(m) && m@ == "Dispatched synthetic click to node #"@ + decimal(
        node_id as nat,
    ) + if handled {
        " (handled by listener)"@
    } else {
        " (unhandled, background click)"@
    }
}

/// How a synthetic click is answered: a node that does not exist is refused;
/// a click on an existing node succeeds whether or not a listener handled it,
/// and `handled` tells which. (`handled` is only read when the node exists:
/// the click is dispatched only then.)
pub fn click_outcome(node_id: u64, exists: bool, handled: bool) -> (r: Result<ActionResponse, String>)
    ensures
        !exists ==> (r matches Err(e) && e@ == missing_node_text(node_id)),
        exists ==> (r matches Ok(a) && click_answer(a, node_id, handled)),
{
    if !exists {
        let mut e = owned("Node #");
        append_decimal(&mut e, node_id);
        append_str(&mut e, " not found in document");
        return Err(e);
    }
    let mut m = owned("Dispatched synthetic click to node #");
    append_decimal(&mut m, node_id);
    if handled {
        append_str(&mut m, " (handled by listener)");
    } else {
        append_str(&mut m, " (unhandled, background click)");
    }
    Ok(ActionResponse { success: true, node_id, handled: Some(handled), message: Some(m) })
}

/// The reply to an action: its response, or its refusal as an error.
pub fn action_reply(result: Result<ActionResponse, String>) -> (r: ControlResponse)
    ensures
        match result {
            Ok(a) => r == ControlResponse::ActionSuccess(a),
            Err(e) => r == ControlResponse::Error(e),
        },
{
    match result {
        Ok(a) => ControlResponse::ActionSuccess(a),
        Err(e) => ControlResponse::Error(e),
    }
}

/// The reply to an inspection serviced at frame `current_frame`.
pub fn inspect_reply(resp: InspectResponse, current_frame: u64) -> (r: ControlResponse)
    ensures
        r matches ControlResponse::InspectSuccess(i) && i == (InspectResponse {
            current_frame: Some(current_frame),
            ..resp
        }),
{
    let mut resp = resp;
    resp.current_frame = Some(current_frame);
    ControlResponse::InspectSuccess(resp)
}

/// What initializing the process-wide debug control does.
#[derive(Debug, Clone, Copy, PartialEq, Eq, Structural)]
pub enum InitStep {
    /// Debug control is switched off: nothing is started (the answer is `false`).
    Disabled,
    /// A control server is already running (the answer is `true`).
    AlreadyActive,
    /// Start a server; the answer is whether it started.
    Start,
}

/// Decides the process-wide initialization from whether debug control is
/// enabled and whether a server is already active.
pub fn init_step(enabled: bool, active: bool) -> (s: InitStep)
    ensures
        s == (if !enabled {
            InitStep::Disabled
        } else if active {
            InitStep::AlreadyActive
        } else {
            InitStep::Start
        }),
{
    if !enabled {
        InitStep::Disabled
    } else if active {
        InitStep::AlreadyActive
    } else {
        InitStep::Start
    }
}

} // verus!
