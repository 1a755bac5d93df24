//! The host-side bridge: requests that arrive from the transport are serviced
//! on the UI thread against the live document, once per frame.
//!
//! Inspections, actions and captures are answered in the poll that receives
//! them; settle requests wait until the host has drawn the frames they ask for.

use std::sync::mpsc::{Receiver, SyncSender};

use vstd::prelude::*;

use crate::capture::{capture_refused, capture_report, refuses_capture, reports_capture, CaptureAttempt};
use crate::dom::{bare_id, consulted_selector, inspect_document, inspects, target_outcome, pending_selector, resolve_target_in_doc, selector_lookup_keys, DocumentModel, SelectorLookup};
use crate::host::{action_reply, inspect_reply};
use crate::protocol::{picks_target, ActionRequest, ActionResponse, CaptureRequest, ControlRequest, ControlResponse, ElementTarget, InspectRequest, InspectResponse, SettleResponse};
use crate::settle::{answers_settles, due_part, frames_to_wait, waiting_part, PendingSettle, SettleQueue};
use crate::live::Dispatching;
use crate::text::{owned, trimmed};

verus! {

#[verifier::external_type_specification]
#[verifier::external_body]
#[verifier::reject_recursive_types(T)]
pub struct ExReceiver<T>(Receiver<T>);

#[verifier::external_type_specification]
#[verifier::external_body]
#[verifier::reject_recursive_types(T)]
pub struct ExSyncSender<T>(SyncSender<T>);

/// Calls `Receiver::try_recv` and keeps the received item: `None` when nothing
/// is queued or every sender is gone. What arrives depends on other threads,
/// so nothing is claimed of it.
#[verifier::external_body]
fn next_queued<T>(receiver: &Receiver<T>) -> Option<T> {
    receiver.try_recv().ok()
}

/// Calls `SyncSender::send` with the response. A reply whose receiver has gone
/// away is dropped (the error is ignored); nothing is claimed.
#[verifier::external_body]
fn send_response(reply: &SyncSender<ControlResponse>, response: ControlResponse) {
    let _ = reply.send(response);
}

/// A request received over the transport that must be serviced by the host/UI thread.
#[derive(Debug)]
pub struct ControlBridgeRequest {
    pub request: ControlRequest,
    pub reply: SyncSender<ControlResponse>,
}

impl ControlBridgeRequest {
    /// Sends the response back to the client that asked.
    pub fn respond(self, response: ControlResponse) {
        send_response(&self.reply, response);
    }
}

/// The live document a bridge services requests against, as the host
/// provides it together with its action dispatcher.
pub trait LiveDocument {
    /// What inspection reads of the document now.
    fn model(&self) -> &DocumentModel;

    /// What the document answers for a selector: its CSS query on `query`,
    /// and the element whose `id` is `bare_id`.
    fn lookup_selector(&self, query: &str, bare_id: &str) -> SelectorLookup;

    /// Carries out a UI action.
    fn dispatch(&mut self, action: &ActionRequest) -> Result<ActionResponse, String>;

    /// Renders the viewport (cropped to `node_id` when given) and stores the
    /// PNG at `output_path`.
    fn capture(&mut self, node_id: Option<u64>, output_path: &str) -> CaptureAttempt;
}

/// The running-host bridge: the receiving end of the transport's request
/// queue, and the settle requests waiting for their frame.
pub struct HostBridge {
    receiver: Receiver<ControlBridgeRequest>,
    settles: SettleQueue<SyncSender<ControlResponse>>,
    /// Every request received so far, in arrival order.
    log: Ghost<Seq<ControlRequest>>,
    /// What the document showed or did for each request answered on
    /// arrival, in arrival order.
    seen: Ghost<Seq<Consulted>>,
}

/// How many of `reqs` are answered in the poll that receives them: all but
/// the settle requests.
pub open spec fn answered_on_arrival(reqs: Seq<ControlRequest>) -> nat
    decreases reqs.len(),
{
    if reqs.len() == 0 {
        0
    } else {
        answered_on_arrival(reqs.drop_last()) + if reqs.last() is Settle {
            0nat
        } else {
            1nat
        }
    }
}

/// The requests of `arrivals`, in order.
pub open spec fn requests_of(arrivals: Seq<ControlBridgeRequest>) -> Seq<ControlRequest> {
    arrivals.map_values(|a: ControlBridgeRequest| a.request)
}

/// The settles of `arrivals`, received at frame `current`, as they wait:
/// each on its reply channel, for its frames (at least one), in arrival order.
pub open spec fn queued_settles(arrivals: Seq<ControlBridgeRequest>, current: u64) -> Seq<
    PendingSettle<SyncSender<ControlResponse>>,
>
    decreases arrivals.len(),
{
    if arrivals.len() == 0 {
        Seq::empty()
    } else {
        queued_settles(arrivals.drop_last(), current) + match arrivals.last().request {
            ControlRequest::Settle(q) => seq![
                PendingSettle {
                    reply: arrivals.last().reply,
                    target_frame: (current + frames_to_wait(q.frames)) as u64,
                    requested_frames: frames_to_wait(q.frames),
                },
            ],
            _ => Seq::empty(),
        }
    }
}

/// The actions among `reqs`, in order.
pub open spec fn actions_of(reqs: Seq<ControlRequest>) -> Seq<ActionRequest>
    decreases reqs.len(),
{
    if reqs.len() == 0 {
        Seq::empty()
    } else {
        actions_of(reqs.drop_last()) + match reqs.last() {
            ControlRequest::Act(a) => seq![a],
            _ => Seq::empty(),
        }
    }
}

/// Every settle among `arrivals`, received at frame `current`, has a target
/// frame that fits in a `u64`.
pub open spec fn settles_fit(arrivals: Seq<ControlBridgeRequest>, current: u64) -> bool {
    forall|i: int|
        0 <= i < arrivals.len() ==> ((#[trigger] arrivals[i]).request matches ControlRequest::Settle(q)
            ==> current + frames_to_wait(q.frames) <= u64::MAX)
}

/// The message an action is refused with when the host gave no dispatcher.
pub open spec fn no_dispatcher() -> Seq<char> {
    "Action dispatcher not configured"@
}

/// The reply to a settle that waited for its frame, answered at frame `current`.
pub open spec fn settle_reply<T>(p: PendingSettle<T>, current: u64) -> ControlResponse {
    ControlResponse::SettleSuccess(
        SettleResponse { settled: true, frames_waited: p.requested_frames, current_frame: current },
    )
}

/// What the document showed, answered or did while one request was serviced.
pub enum Consulted {
    /// An inspection aimed at `target` read `model`, with `lookup` as the
    /// document's answer for the keys `asked` (none when no selector is
    /// consulted).
    Read {
        model: DocumentModel,
        lookup: SelectorLookup,
        target: Option<ElementTarget>,
        asked: Option<(Seq<char>, Seq<char>)>,
    },
    /// `action` was carried out once, with this outcome.
    Dispatched { action: ActionRequest, outcome: Result<ActionResponse, String> },
    /// A capture resolved `target` against `model` and `lookup` (the
    /// document's answer for the keys `asked`) to `resolved`; when it
    /// resolved, the host reported `attempt`.
    Captured {
        model: DocumentModel,
        lookup: SelectorLookup,
        asked: Option<(Seq<char>, Seq<char>)>,
        target: Option<ElementTarget>,
        resolved: Result<Option<u64>, String>,
        attempt: Option<CaptureAttempt>,
    },
}

/// A selector as plain text.
pub open spec fn selector_text(selector: Option<String>) -> Option<Seq<char>> {
    match selector {
        Some(s) => Some(s@),
        None => None,
    }
}

/// The keys a selector is looked up by: the trimmed selector for the CSS
/// query, and the trimmed selector without one leading `#` for the element
/// ID fallback.
pub open spec fn lookup_keys(sel: Seq<char>) -> (Seq<char>, Seq<char>) {
    (trimmed(sel), bare_id(trimmed(sel)))
}

/// The keys the document is asked for when resolving `target` or, without
/// one, `selector`: none when no selector is consulted.
pub open spec fn keys_asked(target: Option<ElementTarget>, selector: Option<Seq<char>>) -> Option<
    (Seq<char>, Seq<char>),
> {
    match consulted_selector(target, selector) {
        Some(sel) => Some(lookup_keys(sel)),
        None => None,
    }
}

/// Whether `reply` answers `req` at frame `current`, given what the document
/// showed or did (`seen`): an inspection's snapshot of the model it read,
/// stamped with the frame; an action's response, or its refusal as an error;
/// a capture's report, or its refusal when the target did not resolve.
pub open spec fn answers_request(
    req: ControlRequest,
    seen: Consulted,
    reply: ControlResponse,
    current: u64,
) -> bool {
    match (req, seen) {
        (ControlRequest::Inspect(q), Consulted::Read { model, lookup, target, asked }) => {
            &&& picks_target(q.target, q.selector, q.root_node_id, target)
            &&& asked == keys_asked(target, selector_text(q.selector))
            &&& match reply {
                ControlResponse::InspectSuccess(i) => i.current_frame == Some(current) && inspects(
                    model,
                    q,
                    lookup,
                    InspectResponse { current_frame: None, ..i },
                ),
                _ => false,
            }
        },
        (ControlRequest::Act(a), Consulted::Dispatched { action, outcome }) => action == a
            && reply == match outcome {
            Ok(r) => ControlResponse::ActionSuccess(r),
            Err(e) => ControlResponse::Error(e),
        },
        (
            ControlRequest::Capture(c),
            Consulted::Captured { model, lookup, asked, target, resolved, attempt },
        ) => {
            &&& picks_target(c.target, c.selector, c.node_id, target)
            &&& asked == keys_asked(target, selector_text(c.selector))
            &&& target_outcome(model, target, c.node_id, selector_text(c.selector), lookup, resolved)
            &&& match reply {
                ControlResponse::CaptureSuccess(r) => match resolved {
                    Err(reason) => refuses_capture(r, c.output_path, reason),
                    Ok(node) => attempt matches Some(at) && reports_capture(
                        r,
                        c.output_path,
                        node,
                        at,
                    ),
                },
                _ => false,
            }
        },
        _ => false,
    }
}

/// `replies` answers, one for one and in order, the requests of `arrivals`
/// that are answered on arrival (all but the settles): each on the request's
/// own reply channel, given what the document showed or did for it, in `seen`.
pub open spec fn answers_arrivals(
    arrivals: Seq<ControlBridgeRequest>,
    seen: Seq<Consulted>,
    replies: Seq<(SyncSender<ControlResponse>, ControlResponse)>,
    current: u64,
) -> bool
    decreases arrivals.len(),
{
    if arrivals.len() == 0 {
        replies.len() == 0 && seen.len() == 0
    } else if arrivals.last().request is Settle {
        answers_arrivals(arrivals.drop_last(), seen, replies, current)
    } else {
        &&& replies.len() > 0
        &&& seen.len() > 0
        &&& replies.last().0 == arrivals.last().reply
        &&& answers_request(arrivals.last().request, seen.last(), replies.last().1, current)
        &&& answers_arrivals(arrivals.drop_last(), seen.drop_last(), replies.drop_last(), current)
    }
}

/// The lookup to resolve a target with: the document's answer for the keys of
/// the selector the resolution consults, or nothing when it consults none;
/// also gives the keys the document was asked for.
fn lookup_for<D: LiveDocument>(doc: &Dispatching<D>, target: Option<&ElementTarget>, selector: Option<&str>) -> (r: (
    SelectorLookup,
    Ghost<Option<(Seq<char>, Seq<char>)>>,
))
    ensures
        ({
            let t = match target {
                Some(t) => Some(*t),
                None => None,
            };
            let s = match selector {
                Some(s) => Some(s@),
                None => None,
            };
            &&& r.1@ == keys_asked(t, s)
            &&& r.1@ is None ==> r.0 == (SelectorLookup { query: Ok(None), by_id: None })
        }),
{
    match pending_selector(target, selector) {
        Some(sel) => {
            let (query, bare) = selector_lookup_keys(sel.as_str());
            let (answer, asked) = doc.lookup_selector(query.as_str(), bare.as_str());
            (answer, Ghost(Some(asked@)))
        },
        None => (SelectorLookup { query: Ok(None), by_id: None }, Ghost(None)),
    }
}

fn answer_inspect<D: LiveDocument>(doc: &Dispatching<D>, request: &InspectRequest, current_frame: u64) -> (r: (
    ControlResponse,
    Ghost<Consulted>,
))
    ensures
        answers_request(ControlRequest::Inspect(*request), r.1@, r.0, current_frame),
{
    let target = request.target();
    let (lookup, asked) = lookup_for(
        doc,
        match &target {
            Some(t) => Some(t),
            None => None,
        },
        match &request.selector {
            Some(s) => Some(s.as_str()),
            None => None,
        },
    );
    let model = doc.model();
    let resp = inspect_document(model, request, &lookup);
    let ghost seen = Consulted::Read { model: *model, lookup, target, asked: asked@ };
    (inspect_reply(resp, current_frame), Ghost(seen))
}

fn answer_capture<D: LiveDocument>(doc: &mut Dispatching<D>, request: CaptureRequest) -> (r: (
    ControlResponse,
    Ghost<Consulted>,
))
    ensures
        forall|current: u64| answers_request(ControlRequest::Capture(request), r.1@, r.0, current),
        final(doc).dispatched() == old(doc).dispatched(),
{
    let ghost req = request;
    let target = request.target();
    let (lookup, asked) = lookup_for(
        doc,
        match &target {
            Some(t) => Some(t),
            None => None,
        },
        match &request.selector {
            Some(s) => Some(s.as_str()),
            None => None,
        },
    );
    let shown = doc.model();
    let ghost model = *shown;
    let resolved = resolve_target_in_doc(
        shown,
        match &target {
            Some(t) => Some(t),
            None => None,
        },
        request.node_id,
        match &request.selector {
            Some(s) => Some(s.as_str()),
            None => None,
        },
        &lookup,
    );
    let ghost outcome = resolved;
    match resolved {
        Err(reason) => {
            let reply = ControlResponse::CaptureSuccess(capture_refused(request.output_path, reason));
            let ghost seen = Consulted::Captured {
                model,
                lookup,
                asked: asked@,
                target,
                resolved: outcome,
                attempt: None,
            };
            (reply, Ghost(seen))
        },
        Ok(node) => {
            let attempt = doc.capture(node, request.output_path.as_str());
            let ghost at = attempt;
            let reply = ControlResponse::CaptureSuccess(capture_report(request.output_path, node, attempt));
            let ghost seen = Consulted::Captured {
                model,
                lookup,
                asked: asked@,
                target,
                resolved: outcome,
                attempt: Some(at),
            };
            (reply, Ghost(seen))
        },
    }
}

/// The action `req` asks for, if any.
pub open spec fn action_list(req: ControlRequest) -> Seq<ActionRequest> {
    match req {
        ControlRequest::Act(a) => seq![a],
        _ => Seq::empty(),
    }
}

/// Answers a request that is not a settle, dispatching an action to the
/// document once (or refusing it when `with_actions` is false).
fn answer_arrival<D: LiveDocument>(
    doc: &mut Dispatching<D>,
    request: ControlRequest,
    current_frame: u64,
    with_actions: bool,
) -> (r: (ControlResponse, Ghost<Consulted>))
    requires
        !(request is Settle),
    ensures
        answers_request(request, r.1@, r.0, current_frame),
        final(doc).dispatched() == old(doc).dispatched() + if with_actions {
            action_list(request)
        } else {
            Seq::empty()
        },
        !with_actions ==> (r.1@ matches Consulted::Dispatched { outcome, .. } ==> outcome matches Err(
            m,
        ) && m@ == no_dispatcher()),
{
    let ghost req = request;
    match request {
        ControlRequest::Inspect(q) => {
            let r = answer_inspect(&*doc, &q, current_frame);
            proof {
                assert(old(doc).dispatched() + Seq::<ActionRequest>::empty() =~= old(doc).dispatched());
            }
            r
        },
        ControlRequest::Act(action) => {
            if with_actions {
                let outcome = doc.dispatch(&action);
                let ghost noted_now = Consulted::Dispatched { action, outcome };
                proof {
                    assert(old(doc).dispatched().push(action) =~= old(doc).dispatched() + seq![action]);
                }
                (action_reply(outcome), Ghost(noted_now))
            } else {
                let outcome: Result<ActionResponse, String> = Err(owned("Action dispatcher not configured"));
                let ghost noted_now = Consulted::Dispatched { action, outcome };
                proof {
                    assert(old(doc).dispatched() + Seq::<ActionRequest>::empty() =~= old(doc).dispatched());
                }
                (action_reply(outcome), Ghost(noted_now))
            }
        },
        ControlRequest::Capture(q) => {
            let r = answer_capture(doc, q);
            proof {
                assert(old(doc).dispatched() + Seq::<ActionRequest>::empty() =~= old(doc).dispatched());
            }
            r
        },
        ControlRequest::Settle(_) => {
            proof {
                assert(false);
            }
            let r = answer_capture(doc, CaptureRequest {
                window_id: None,
                node_id: None,
                selector: None,
                target: None,
                output_path: owned(""),
            });
            r
        },
    }
}

proof fn lemma_noted(
    seen_before: Seq<Consulted>,
    seen: Consulted,
    noted: Seq<Consulted>,
    replies_before: Seq<(SyncSender<ControlResponse>, ControlResponse)>,
    reply: (SyncSender<ControlResponse>, ControlResponse),
    due: Seq<PendingSettle<SyncSender<ControlResponse>>>,
    current_frame: u64,
    with_actions: bool,
)
    requires
        seen_before.len() >= noted.len(),
        seen_before.take(noted.len() as int) == noted,
        replies_before.len() >= due.len(),
        forall|k: int|
            0 <= k < due.len() ==> replies_before[k] == (
                (#[trigger] due[k]).reply,
                settle_reply(due[k], current_frame),
            ),
        !with_actions ==> forall|k: int|
            0 <= k < seen_before.skip(noted.len() as int).len() ==> (
            #[trigger] seen_before.skip(noted.len() as int)[k] matches Consulted::Dispatched {
                outcome,
                ..
            } ==> outcome matches Err(m) && m@ == no_dispatcher()),
        !with_actions ==> (seen matches Consulted::Dispatched { outcome, .. } ==> outcome matches Err(
            m,
        ) && m@ == no_dispatcher()),
    ensures
        ({
            let seen_after = seen_before.push(seen);
            let replies_after = replies_before.push(reply);
            &&& seen_after.len() >= noted.len()
            &&& seen_after.take(noted.len() as int) == noted
            &&& seen_after.skip(noted.len() as int).drop_last() == seen_before.skip(noted.len() as int)
            &&& seen_after.skip(noted.len() as int).last() == seen
            &&& replies_after.skip(due.len() as int).drop_last() == replies_before.skip(due.len() as int)
            &&& replies_after.skip(due.len() as int).last() == reply
            &&& forall|k: int|
                0 <= k < due.len() ==> replies_after[k] == (
                    (#[trigger] due[k]).reply,
                    settle_reply(due[k], current_frame),
                )
            &&& !with_actions ==> forall|k: int|
                0 <= k < seen_after.skip(noted.len() as int).len() ==> (
                #[trigger] seen_after.skip(noted.len() as int)[k] matches Consulted::Dispatched {
                    outcome,
                    ..
                } ==> outcome matches Err(m) && m@ == no_dispatcher())
        }),
{
    let seen_after = seen_before.push(seen);
    let replies_after = replies_before.push(reply);
    assert(seen_after.take(noted.len() as int) =~= noted);
    assert(seen_after.skip(noted.len() as int) =~= seen_before.skip(noted.len() as int).push(seen));
    assert(seen_after.skip(noted.len() as int).drop_last() =~= seen_before.skip(noted.len() as int));
    assert(replies_after.skip(due.len() as int) =~= replies_before.skip(due.len() as int).push(reply));
    assert(replies_after.skip(due.len() as int).drop_last() =~= replies_before.skip(due.len() as int));
    assert forall|k: int| 0 <= k < due.len() implies replies_after[k] == (
        (#[trigger] due[k]).reply,
        settle_reply(due[k], current_frame),
    ) by {
        assert(replies_after[k] == replies_before[k]);
    }
    if !with_actions {
        let fresh = seen_after.skip(noted.len() as int);
        let old_fresh = seen_before.skip(noted.len() as int);
        assert forall|k: int| 0 <= k < fresh.len() implies (#[trigger] fresh[k] matches Consulted::Dispatched {
            outcome,
            ..
        } ==> outcome matches Err(m) && m@ == no_dispatcher()) by {
            if k < old_fresh.len() {
                assert(fresh[k] == old_fresh[k]);
            }
        }
    }
}

/// Takes what is queued on `receiver` now, in arrival order, until it
/// reports nothing more. What arrives depends on other threads.
fn take_queued(receiver: &Receiver<ControlBridgeRequest>) -> (arrivals: Vec<ControlBridgeRequest>) {
    let mut arrivals: Vec<ControlBridgeRequest> = Vec::new();
    loop
        decreases usize::MAX - arrivals@.len(),
    {
        if arrivals.len() == usize::MAX {
            break;
        }
        match next_queued(receiver) {
            Some(r) => arrivals.push(r),
            None => break,
        }
    }
    arrivals
}

proof fn lemma_arrival_step(all: Seq<ControlBridgeRequest>, i: int)
    requires
        0 <= i < all.len(),
    ensures
        all.take(i + 1).drop_last() == all.take(i),
        all.take(i + 1).last() == all[i],
        requests_of(all.take(i + 1)) == requests_of(all.take(i)).push(all[i].request),
        requests_of(all.take(i + 1)).drop_last() == requests_of(all.take(i)),
        requests_of(all.take(i + 1)).last() == all[i].request,
{
    assert(all.take(i + 1).drop_last() =~= all.take(i));
    assert(requests_of(all.take(i + 1)) =~= requests_of(all.take(i)).push(all[i].request));
    assert(requests_of(all.take(i + 1)).drop_last() =~= requests_of(all.take(i)));
}

impl HostBridge {
    /// The settle requests still waiting, oldest first.
    pub closed spec fn waiting(self) -> Seq<PendingSettle<SyncSender<ControlResponse>>> {
        self.settles.pending@
    }

    /// Every request received so far, in arrival order.
    pub closed spec fn received(self) -> Seq<ControlRequest> {
        self.log@
    }

    /// What the document showed or did for each request answered on arrival
    /// so far, in arrival order.
    pub closed spec fn consulted(self) -> Seq<Consulted> {
        self.seen@
    }

    /// `after` is `before` having serviced `arrivals` at frame `current`,
    /// with `replies` the replies owed, each with the channel to send it on:
    /// first the settles whose frame has come, in arrival order; then one for
    /// each request received that is not a settle, in arrival order. Received
    /// settles wait for their frames; the others keep waiting, in order.
    /// Without a dispatcher (`with_actions` false) actions are refused.
    pub open spec fn serves(
        before: HostBridge,
        after: HostBridge,
        current: u64,
        arrivals: Seq<ControlBridgeRequest>,
        with_actions: bool,
        replies: Seq<(SyncSender<ControlResponse>, ControlResponse)>,
    ) -> bool {
        let due = due_part(before.waiting(), current);
        let noted = before.consulted();
        let fresh = after.consulted().skip(noted.len() as int);
        &&& after.received() == before.received() + requests_of(arrivals)
        &&& after.waiting() == waiting_part(before.waiting(), current) + queued_settles(
            arrivals,
            current,
        )
        &&& replies.len() == due.len() + answered_on_arrival(requests_of(arrivals))
        &&& forall|i: int|
            0 <= i < due.len() ==> replies[i] == (
                (#[trigger] due[i]).reply,
                settle_reply(due[i], current),
            )
        &&& after.consulted().len() >= noted.len()
        &&& after.consulted().take(noted.len() as int) == noted
        &&& answers_arrivals(arrivals, fresh, replies.skip(due.len() as int), current)
        &&& !with_actions ==> forall|k: int|
            0 <= k < fresh.len() ==> (#[trigger] fresh[k] matches Consulted::Dispatched {
                outcome,
                ..
            } ==> outcome matches Err(m) && m@ == no_dispatcher())
    }

    /// A bridge over the transport's request queue, with nothing received and
    /// nothing waiting.
    pub fn new(receiver: Receiver<ControlBridgeRequest>) -> (b: HostBridge)
        ensures
            b.waiting().len() == 0,
            b.received().len() == 0,
            b.consulted().len() == 0,
    {
        HostBridge {
            receiver,
            settles: SettleQueue::new(),
            log: Ghost(Seq::empty()),
            seen: Ghost(Seq::empty()),
        }
    }

    /// Services, at frame `current_frame`, the settle requests whose frame has
    /// come and the requests `arrivals` just received, and gives the replies
    /// owed with the channels to send them on.
    ///
    /// Settles that have waited long enough are answered first, in arrival
    /// order, and the others keep waiting in order. Each request received is
    /// answered at once, except a settle, which is queued to wait its frames
    /// (at least one). Each action is dispatched to the document once, in
    /// arrival order; without a dispatcher (`with_actions` false) it is
    /// refused with "Action dispatcher not configured" and nothing is done.
    #[verifier::spinoff_prover]
    pub fn service_requests<D: LiveDocument>(
        &mut self,
        doc: &mut Dispatching<D>,
        current_frame: u64,
        arrivals: Vec<ControlBridgeRequest>,
        with_actions: bool,
    ) -> (replies: Vec<(SyncSender<ControlResponse>, ControlResponse)>)
        requires
            settles_fit(arrivals@, current_frame),
        ensures
            HostBridge::serves(*old(self), *final(self), current_frame, arrivals@, with_actions, replies@),
            final(doc).dispatched() == old(doc).dispatched() + if with_actions {
                actions_of(requests_of(arrivals@))
            } else {
                Seq::empty()
            },
    {
        let ghost all = arrivals@;
        let ghost before = self.log@;
        let ghost old_waiting = self.settles.pending@;
        let ghost noted = self.seen@;
        let ghost d0 = doc.dispatched();
        let ghost due = due_part(old_waiting, current_frame);
        let ghost kept = waiting_part(old_waiting, current_frame);
        let answers = self.settles.drain_due(current_frame);
        let mut replies: Vec<(SyncSender<ControlResponse>, ControlResponse)> = Vec::new();
        let mut answers = answers;
        let ghost all_answers = answers@;
        let ghost mut j: int = 0;
        while answers.len() > 0
            invariant
                0 <= j <= all_answers.len(),
                answers@ == all_answers.skip(j),
                answers_settles(all_answers, due, current_frame),
                replies@.len() == j,
                forall|k: int|
                    0 <= k < j ==> replies@[k] == (
                        (#[trigger] due[k]).reply,
                        settle_reply(due[k], current_frame),
                    ),
            decreases answers@.len(),
        {
            let (reply, done) = answers.remove(0);
            proof {
                assert(all_answers.skip(j).drop_first() =~= all_answers.skip(j + 1));
                assert(all_answers[j] == (reply, done));
            }
            let resp = SettleResponse {
                settled: done.settled,
                frames_waited: done.frames_waited,
                current_frame: done.current_frame,
            };
            let ghost before_replies = replies@;
            replies.push((reply, ControlResponse::SettleSuccess(resp)));
            proof {
                assert forall|k: int| 0 <= k < j + 1 implies replies@[k] == (
                    (#[trigger] due[k]).reply,
                    settle_reply(due[k], current_frame),
                ) by {
                    if k < j {
                        assert(replies@[k] == before_replies[k]);
                    }
                }
                j = j + 1;
            }
        }
        proof {
            assert(all.take(0) =~= Seq::<ControlBridgeRequest>::empty());
            assert(requests_of(all.take(0)) =~= Seq::<ControlRequest>::empty());
            assert(self.log@ =~= before + requests_of(all.take(0)));
            assert(self.settles.pending@ =~= kept + queued_settles(all.take(0), current_frame));
            assert(self.seen@.skip(noted.len() as int) =~= Seq::<Consulted>::empty());
            assert(self.seen@.take(noted.len() as int) =~= noted);
            assert(replies@.skip(due.len() as int) =~= Seq::<(SyncSender<ControlResponse>, ControlResponse)>::empty());
            assert(d0 + actions_of(requests_of(all.take(0))) =~= d0);
        }
        let mut rest = arrivals;
        let ghost mut i: int = 0;
        while rest.len() > 0
            invariant
                0 <= i <= all.len(),
                rest@ == all.skip(i),
                settles_fit(all, current_frame),
                due == due_part(old_waiting, current_frame),
                kept == waiting_part(old_waiting, current_frame),
                self.log@ == before + requests_of(all.take(i)),
                self.settles.pending@ == kept + queued_settles(all.take(i), current_frame),
                replies@.len() == due.len() + answered_on_arrival(requests_of(all.take(i))),
                forall|k: int|
                    0 <= k < due.len() ==> replies@[k] == (
                        (#[trigger] due[k]).reply,
                        settle_reply(due[k], current_frame),
                    ),
                self.seen@.len() >= noted.len(),
                self.seen@.take(noted.len() as int) == noted,
                answers_arrivals(
                    all.take(i),
                    self.seen@.skip(noted.len() as int),
                    replies@.skip(due.len() as int),
                    current_frame,
                ),
                !with_actions ==> forall|k: int|
                    0 <= k < self.seen@.skip(noted.len() as int).len() ==> (
                    #[trigger] self.seen@.skip(noted.len() as int)[k] matches Consulted::Dispatched {
                        outcome,
                        ..
                    } ==> outcome matches Err(m) && m@ == no_dispatcher()),
                doc.dispatched() == d0 + if with_actions {
                    actions_of(requests_of(all.take(i)))
                } else {
                    Seq::empty()
                },
            decreases rest@.len(),
        {
            let arrival = rest.remove(0);
            proof {
                assert(all.skip(i).drop_first() =~= all.skip(i + 1));
                assert(all[i] == arrival);
                lemma_arrival_step(all, i);
            }
            let ghost log_before = self.log@;
            let ghost pending_before = self.settles.pending@;
            let ghost seen_before = self.seen@;
            let ghost replies_before = replies@;
            let ghost d_before = doc.dispatched();
            let ControlBridgeRequest { request, reply } = arrival;
            proof {
                self.log@ = log_before.push(request);
                assert(self.log@ =~= before + requests_of(all.take(i + 1)));
            }
            match request {
                ControlRequest::Settle(req) => {
                    proof {
                        assert(all[i].request matches ControlRequest::Settle(q) ==> (current_frame
                            + frames_to_wait(q.frames) <= u64::MAX));
                    }
                    self.settles.enqueue(reply, current_frame, req.frames);
                    proof {
                        assert(self.settles.pending@ =~= kept + queued_settles(
                            all.take(i + 1),
                            current_frame,
                        ));
                        assert(actions_of(requests_of(all.take(i + 1))) =~= actions_of(
                            requests_of(all.take(i)),
                        ));
                    }
                },
                other => {
                    let (answer, seen) = answer_arrival(doc, other, current_frame, with_actions);
                    replies.push((reply, answer));
                    proof {
                        self.seen@ = seen_before.push(seen@);
                        lemma_noted(
                            seen_before,
                            seen@,
                            noted,
                            replies_before,
                            (reply, answer),
                            due,
                            current_frame,
                            with_actions,
                        );
                        assert(self.settles.pending@ =~= kept + queued_settles(
                            all.take(i + 1),
                            current_frame,
                        ));
                        assert(actions_of(requests_of(all.take(i + 1))) =~= actions_of(
                            requests_of(all.take(i)),
                        ) + action_list(other));
                    }
                },
            }
            proof {
                i = i + 1;
            }
        }
        proof {
            assert(all.take(i) =~= all);
        }
        replies
    }

    /// Services, at frame `current_frame`, the settle requests whose frame has
    /// come and every request queued since the last poll, as
    /// [`HostBridge::service_requests`] does for the requests taken from the
    /// queue; gives the replies owed with the channels to send them on.
    pub fn poll_and_service_with<D: LiveDocument>(&mut self, doc: &mut Dispatching<D>, current_frame: u64) -> (replies: Vec<
        (SyncSender<ControlResponse>, ControlResponse),
    >)
        requires
            current_frame + u32::MAX <= u64::MAX,
        ensures
            exists|arrivals: Seq<ControlBridgeRequest>|
                #[trigger] HostBridge::serves(*old(self), *final(self), current_frame, arrivals, true, replies@)
                    && final(doc).dispatched() == old(doc).dispatched() + actions_of(
                    requests_of(arrivals),
                ),
    {
        let arrivals = take_queued(&self.receiver);
        let ghost taken = arrivals@;
        let replies = self.service_requests(doc, current_frame, arrivals, true);
        proof {
            assert(HostBridge::serves(*old(self), *self, current_frame, taken, true, replies@));
        }
        replies
    }

    /// Services pending requests at frame 0 with no action dispatcher: actions
    /// are refused with "Action dispatcher not configured" and the document is
    /// left without any action carried out; otherwise as
    /// [`HostBridge::poll_and_service_with`].
    pub fn poll_and_service<D: LiveDocument>(&mut self, doc: &mut Dispatching<D>) -> (replies: Vec<
        (SyncSender<ControlResponse>, ControlResponse),
    >)
        ensures
            exists|arrivals: Seq<ControlBridgeRequest>|
                #[trigger] HostBridge::serves(*old(self), *final(self), 0, arrivals, false, replies@),
            final(doc).dispatched() == old(doc).dispatched(),
    {
        let arrivals = take_queued(&self.receiver);
        let ghost taken = arrivals@;
        let replies = self.service_requests(doc, 0, arrivals, false);
        proof {
            assert(HostBridge::serves(*old(self), *self, 0, taken, false, replies@));
            assert(doc.dispatched() =~= old(doc).dispatched());
        }
        replies
    }
}

} // verus!
