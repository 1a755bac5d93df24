//! Properties of the library that span its operations: what reading a target
//! gives back, what discovery may return, how a framed line reads back, how
//! settle requests are answered across polls, and how command lines are read.

use std::sync::mpsc::SyncSender;

use vstd::prelude::*;

use crate::discovery::{first_with_pid, pid_items_text, pid_list_text, pids_of, resolves_from_hosts, TargetSelector, HostError};
use crate::capture::visible_region;
use crate::bridge::{answered_on_arrival, answers_arrivals, queued_settles, requests_of, Consulted, ControlBridgeRequest};
use crate::cli::{asks_help, compound_key, flag_value_from, output_flag, pointer_named, routes_to, split_compound, Command, Pointer};
use crate::bridge::{keys_asked, lookup_keys};
use crate::tools::{click_flag, non_flags, settle_flag, subcommand_choice};
use crate::text::{ascii_lower, eq_ascii_ci, has_prefix, has_suffix, lemma_first_index_of, lemma_trimmed_after_clean, lemma_trimmed_trim_end, spec_parse_u32};
use crate::protocol::{names_target, ControlRequest, ControlResponse, ElementTarget, HostDescriptor, KeyModifiers};
use crate::settle::{due_part, frames_to_wait, is_due, waiting_part, PendingSettle};
use crate::text::{
    all_digits, decimal, is_white_space, lemma_decimal_facts, lemma_digit_not_space,
    lemma_parse_decimal, lemma_trimmed_clean, lemma_trimmed_idempotent, lemma_trimmed_shape,
    first_index_of, spec_parse_u64, trim_end, trim_start, trimmed,
};

verus! {

/// `needle` occurs in `hay` as a contiguous piece.
pub open spec fn occurs_in(needle: Seq<char>, hay: Seq<char>) -> bool {
    exists|k: int| 0 <= k && k + needle.len() <= hay.len() && #[trigger] hay.subrange(k, k + needle.len()) == needle
}

proof fn lemma_decimal_clean(n: nat)
    ensures
        trimmed(decimal(n)) == decimal(n),
        forall|i: int| 0 <= i < decimal(n).len() ==> decimal(n)[i] != '-',
{
    lemma_decimal_facts(n);
    let d = decimal(n);
    lemma_digit_not_space(d[0]);
    lemma_digit_not_space(d.last());
    lemma_trimmed_clean(d);
}

/// The decimal text of a node ID reads back as that node ID: a target written
/// as a number addresses the node, not a selector.
pub proof fn law_id_text_names_node(id: u64)
    ensures
        names_target(decimal(id as nat), ElementTarget::Id(id)),
{
    lemma_decimal_clean(id as nat);
    lemma_parse_decimal(id);
}

/// Surrounding white space does not change what a target text names.
pub proof fn law_target_text_ignores_padding(text: Seq<char>, t: ElementTarget)
    ensures
        names_target(text, t) == names_target(trimmed(text), t),
{
    lemma_trimmed_idempotent(text);
}

/// Whether two targets address the same element: the same node ID, or the
/// same selector text.
pub open spec fn same_target(t1: ElementTarget, t2: ElementTarget) -> bool {
    match (t1, t2) {
        (ElementTarget::Id(a), ElementTarget::Id(b)) => a == b,
        (ElementTarget::Selector(a), ElementTarget::Selector(b)) => a@ == b@,
        _ => false,
    }
}

/// A target text names exactly one target.
pub proof fn law_target_text_names_one_target(text: Seq<char>, t1: ElementTarget, t2: ElementTarget)
    requires
        names_target(text, t1),
        names_target(text, t2),
    ensures
        same_target(t1, t2),
{
}

proof fn lemma_some_first_with_pid(hosts: Seq<HostDescriptor>, pid: u32, w: int)
    requires
        0 <= w < hosts.len(),
        hosts[w].pid == pid,
    ensures
        exists|m: int|
            0 <= m < hosts.len() && hosts[m].pid == pid && forall|k: int|
                0 <= k < m ==> hosts[k].pid != pid,
    decreases w,
{
    if exists|k: int| 0 <= k < w && hosts[k].pid == pid {
        let k = choose|k: int| 0 <= k < w && hosts[k].pid == pid;
        lemma_some_first_with_pid(hosts, pid, k);
    } else {
        assert(forall|k: int| 0 <= k < w ==> hosts[k].pid != pid);
    }
}

/// Resolution from a host list only ever answers with a listed host: for a
/// process ID, a host with that ID; for automatic selection, the only host.
pub proof fn law_resolution_answers_listed_host(
    selector: TargetSelector,
    hosts: Seq<HostDescriptor>,
    r: Result<HostDescriptor, HostError>,
)
    requires
        resolves_from_hosts(selector, hosts, r),
        r is Ok,
    ensures
        exists|i: int| 0 <= i < hosts.len() && hosts[i] == r->Ok_0,
        selector matches TargetSelector::Pid(p) ==> r->Ok_0.pid == p,
        selector is Auto ==> hosts.len() == 1,
        !(selector is ExplicitPath),
{
    match selector {
        TargetSelector::Pid(p) => {
            if exists|i: int| 0 <= i < hosts.len() && hosts[i].pid == p {
                let w = choose|i: int| 0 <= i < hosts.len() && hosts[i].pid == p;
                lemma_some_first_with_pid(hosts, p, w);
                let i = first_with_pid(hosts, p)->Some_0;
                assert(0 <= i < hosts.len() && hosts[i] == r->Ok_0);
            }
        },
        TargetSelector::Auto => {
            assert(hosts[0] == r->Ok_0);
        },
        TargetSelector::ExplicitPath(_) => {},
    }
}

proof fn lemma_items_contain(pids: Seq<u32>, i: int)
    requires
        0 <= i < pids.len(),
    ensures
        occurs_in(decimal(pids[i] as nat), pid_items_text(pids)),
    decreases pids.len(),
{
    let d = decimal(pids[i] as nat);
    let t = pid_items_text(pids);
    if pids.len() == 1 {
        let k = 0int;
        assert(t.subrange(k, k + d.len()) =~= d);
    } else if i == pids.len() - 1 {
        let k = t.len() - d.len();
        assert(t == pid_items_text(pids.drop_last()) + seq![',', ' '] + d);
        assert(t.subrange(k, k + d.len()) =~= d);
    } else {
        let front = pids.drop_last();
        assert(front[i] == pids[i]);
        lemma_items_contain(front, i);
        let ft = pid_items_text(front);
        assert(t == ft + seq![',', ' '] + decimal(pids.last() as nat));
        let k = choose|k: int| 0 <= k && k + d.len() <= ft.len() && #[trigger] ft.subrange(k, k + d.len()) == d;
        assert(t.subrange(k, k + d.len()) =~= ft.subrange(k, k + d.len()));
    }
}

/// When automatic selection is ambiguous, the refusal names the process ID of
/// every competing host, so that one can be chosen with `--pid`.
pub proof fn law_ambiguity_names_every_host(hosts: Seq<HostDescriptor>, i: int)
    requires
        0 <= i < hosts.len(),
    ensures
        occurs_in(decimal(hosts[i].pid as nat), pid_list_text(pids_of(hosts))),
{
    let pids = pids_of(hosts);
    lemma_items_contain(pids, i);
    let d = decimal(pids[i] as nat);
    let t = pid_items_text(pids);
    let k = choose|k: int| 0 <= k && k + d.len() <= t.len() && #[trigger] t.subrange(k, k + d.len()) == d;
    let full = pid_list_text(pids);
    assert(full.subrange(k + 1, k + 1 + d.len()) =~= t.subrange(k, k + d.len()));
}

/// A framed message reads back as itself: a message without surrounding white
/// space (as encoded JSON is), followed by the frame's newline, trims to the
/// message.
pub proof fn law_framed_message_reads_back(message: Seq<char>)
    requires
        trimmed(message) == message,
    ensures
        trimmed(message.push('\n')) == message,
{
    lemma_trimmed_shape(message);
    let framed = message.push('\n');
    assert(is_white_space('\n'));
    assert(framed.drop_last() =~= message);
    if message.len() > 0 {
        assert(framed[0] == message[0]);
        assert(!is_white_space(framed[0]));
        assert(trim_start(framed) == framed);
        assert(trim_end(framed) == trim_end(message));
        assert(!is_white_space(message.last()));
        assert(trim_end(message) == message);
    } else {
        assert(framed.drop_first() =~= Seq::<char>::empty());
        assert(trim_start(framed) == trim_start(framed.drop_first()));
        assert(trim_start(Seq::<char>::empty()) == Seq::<char>::empty());
        assert(trim_end(Seq::<char>::empty()) == Seq::<char>::empty());
    }
}

/// Instance IDs tell servers apart: two servers started by different
/// processes, or at different instants, get different IDs.
pub proof fn law_instance_ids_distinct(pid1: u32, nanos1: u64, pid2: u32, nanos2: u64)
    requires
        pid1 != pid2 || nanos1 != nanos2,
    ensures
        decimal(pid1 as nat) + seq!['-'] + decimal(nanos1 as nat) != decimal(pid2 as nat)
            + seq!['-'] + decimal(nanos2 as nat),
{
    let a1 = decimal(pid1 as nat);
    let b1 = decimal(nanos1 as nat);
    let a2 = decimal(pid2 as nat);
    let b2 = decimal(nanos2 as nat);
    let s1 = a1 + seq!['-'] + b1;
    let s2 = a2 + seq!['-'] + b2;
    lemma_decimal_clean(pid1 as nat);
    lemma_decimal_clean(pid2 as nat);
    lemma_parse_decimal(pid1 as u64);
    lemma_parse_decimal(pid2 as u64);
    lemma_parse_decimal(nanos1);
    lemma_parse_decimal(nanos2);
    if s1 == s2 {
        if a1.len() < a2.len() {
            assert(s1[a1.len() as int] == '-');
            assert(s2[a1.len() as int] == a2[a1.len() as int]);
        } else if a2.len() < a1.len() {
            assert(s2[a2.len() as int] == '-');
            assert(s1[a2.len() as int] == a1[a2.len() as int]);
        } else {
            assert(s1.take(a1.len() as int) =~= a1);
            assert(s2.take(a2.len() as int) =~= a2);
            assert(a1 == a2);
            assert(s1.skip(a1.len() + 1int) =~= b1);
            assert(s2.skip(a2.len() + 1int) =~= b2);
            assert(b1 == b2);
            assert(pid1 as u64 == pid2 as u64);
        }
    }
}

/// A poll splits the pending settles: each one is either answered (its
/// target frame is reached) or kept waiting (it is not), never both.
pub proof fn law_poll_splits_pending<T>(s: Seq<PendingSettle<T>>, current: u64)
    ensures
        due_part(s, current).len() + waiting_part(s, current).len() == s.len(),
        forall|i: int|
            0 <= i < due_part(s, current).len() ==> is_due(#[trigger] due_part(s, current)[i], current),
        forall|i: int|
            0 <= i < waiting_part(s, current).len() ==> !is_due(
                #[trigger] waiting_part(s, current)[i],
                current,
            ),
    decreases s.len(),
{
    if s.len() > 0 {
        law_poll_splits_pending(s.drop_last(), current);
        let d0 = due_part(s.drop_last(), current);
        let w0 = waiting_part(s.drop_last(), current);
        if is_due(s.last(), current) {
            assert(due_part(s, current) == d0 + seq![s.last()]);
            assert(waiting_part(s, current) == w0 + Seq::<PendingSettle<T>>::empty());
            assert(waiting_part(s, current) =~= w0);
            assert forall|i: int| 0 <= i < due_part(s, current).len() implies is_due(
                #[trigger] due_part(s, current)[i],
                current,
            ) by {
                if i < d0.len() {
                    assert(due_part(s, current)[i] == d0[i]);
                }
            }
        } else {
            assert(waiting_part(s, current) == w0 + seq![s.last()]);
            assert(due_part(s, current) == d0 + Seq::<PendingSettle<T>>::empty());
            assert(due_part(s, current) =~= d0);
            assert forall|i: int| 0 <= i < waiting_part(s, current).len() implies !is_due(
                #[trigger] waiting_part(s, current)[i],
                current,
            ) by {
                if i < w0.len() {
                    assert(waiting_part(s, current)[i] == w0[i]);
                }
            }
        }
    }
}

proof fn lemma_none_due<T>(s: Seq<PendingSettle<T>>, current: u64)
    requires
        forall|i: int| 0 <= i < s.len() ==> !is_due(#[trigger] s[i], current),
    ensures
        due_part(s, current).len() == 0,
        waiting_part(s, current) == s,
    decreases s.len(),
{
    if s.len() > 0 {
        assert(!is_due(s[s.len() - 1], current));
        lemma_none_due(s.drop_last(), current);
        assert(waiting_part(s, current) =~= s.drop_last() + seq![s.last()]);
        assert(s.drop_last() + seq![s.last()] =~= s);
    }
}

/// Polling again at the same frame answers nothing more: everything left
/// waiting keeps waiting.
pub proof fn law_repoll_answers_nothing<T>(s: Seq<PendingSettle<T>>, current: u64)
    ensures
        due_part(waiting_part(s, current), current).len() == 0,
        waiting_part(waiting_part(s, current), current) == waiting_part(s, current),
{
    law_poll_splits_pending(s, current);
    lemma_none_due(waiting_part(s, current), current);
}

/// Once the frame reaches every pending target, a poll answers all of them,
/// in arrival order, and leaves none waiting.
pub proof fn law_poll_past_all_targets_answers_all<T>(s: Seq<PendingSettle<T>>, current: u64)
    requires
        forall|i: int| 0 <= i < s.len() ==> (#[trigger] s[i]).target_frame <= current,
    ensures
        due_part(s, current) == s,
        waiting_part(s, current).len() == 0,
    decreases s.len(),
{
    if s.len() > 0 {
        assert(s[s.len() - 1].target_frame <= current);
        law_poll_past_all_targets_answers_all(s.drop_last(), current);
        assert(due_part(s, current) =~= s.drop_last() + seq![s.last()]);
        assert(s.drop_last() + seq![s.last()] =~= s);
        assert(waiting_part(s, current) =~= Seq::<PendingSettle<T>>::empty());
    }
}

/// A settle registered at frame `f` for `n` frames (zero counts as one) is
/// answered by a poll at frame `current` exactly when `current` has reached
/// `f + max(n, 1)`; it then reports `max(n, 1)` frames waited, and the
/// settles registered before it are answered as they would have been.
pub proof fn law_settle_answered_when_due<T>(
    s: Seq<PendingSettle<T>>,
    reply: T,
    f: u64,
    n: u32,
    current: u64,
)
    requires
        f + frames_to_wait(n) <= u64::MAX,
    ensures
        ({
            let p = PendingSettle {
                reply,
                target_frame: (f + frames_to_wait(n)) as u64,
                requested_frames: frames_to_wait(n),
            };
            &&& p.requested_frames >= 1
            &&& due_part(s.push(p), current) == due_part(s, current) + if current >= f
                + frames_to_wait(n) {
                seq![p]
            } else {
                Seq::empty()
            }
            &&& waiting_part(s.push(p), current) == waiting_part(s, current) + if current >= f
                + frames_to_wait(n) {
                Seq::empty()
            } else {
                seq![p]
            }
        }),
{
    let p = PendingSettle {
        reply,
        target_frame: (f + frames_to_wait(n)) as u64,
        requested_frames: frames_to_wait(n),
    };
    assert(s.push(p).drop_last() =~= s);
}

/// Named modifiers are never empty: a key specifier yields modifiers only when
/// at least one of them is held.
pub proof fn law_named_modifiers_hold_a_key(raw: Seq<char>)
    ensures
        compound_key(raw).1 matches Some(m) ==> m.shift || m.ctrl || m.alt || m.meta,
{
}

/// A key specifier without `+` is a plain key: the trimmed text, with no
/// modifiers.
pub proof fn law_plain_key_has_no_modifiers(raw: Seq<char>)
    requires
        forall|i: int| 0 <= i < raw.len() ==> raw[i] != '+',
    ensures
        compound_key(raw).0 == trimmed(raw),
        compound_key(raw).1 is None,
{
    lemma_trimmed_shape(raw);
    let t = trimmed(raw);
    let (a, b) = choose|a: int, b: int| 0 <= a <= b <= raw.len() && trimmed(raw) == raw.subrange(a, b);
    assert forall|i: int| 0 <= i < t.len() implies t[i] != '+' by {
        assert(t[i] == raw[a + i]);
    }
    assert(first_index_of(t, '+') is None);
    assert(split_compound(t, KeyModifiers::spec_none()) == (t, KeyModifiers::spec_none()));
}

/// A settle request never completes in the poll that receives it: the frame
/// it waits for lies at least one frame ahead, and it waits at least one frame.
pub proof fn law_received_settles_wait(arrivals: Seq<ControlBridgeRequest>, current: u64)
    requires
        current + u32::MAX <= u64::MAX,
    ensures
        forall|i: int|
            0 <= i < queued_settles(arrivals, current).len() ==> (#[trigger] queued_settles(
                arrivals,
                current,
            )[i]).target_frame > current && queued_settles(arrivals, current)[i].requested_frames >= 1,
    decreases arrivals.len(),
{
    if arrivals.len() > 0 {
        law_received_settles_wait(arrivals.drop_last(), current);
        let front = queued_settles(arrivals.drop_last(), current);
        assert forall|i: int|
            0 <= i < queued_settles(arrivals, current).len() implies (#[trigger] queued_settles(
                arrivals,
                current,
            )[i]).target_frame > current && queued_settles(arrivals, current)[i].requested_frames
            >= 1 by {
            if i < front.len() {
                assert(queued_settles(arrivals, current)[i] == front[i]);
            }
        }
    }
}

/// The replies a poll owes for what it receives pair up one for one with the
/// requests that are not settles, each on that request's own channel, as do
/// the records of what the document showed or did for them; none of the
/// replies is a settle's reply.
pub proof fn law_arrivals_answered_once(
    arrivals: Seq<ControlBridgeRequest>,
    seen: Seq<Consulted>,
    replies: Seq<(SyncSender<ControlResponse>, ControlResponse)>,
    current: u64,
)
    requires
        answers_arrivals(arrivals, seen, replies, current),
    ensures
        replies.len() == answered_on_arrival(requests_of(arrivals)),
        seen.len() == answered_on_arrival(requests_of(arrivals)),
        forall|i: int| 0 <= i < replies.len() ==> !((#[trigger] replies[i]).1 is SettleSuccess),
    decreases arrivals.len(),
{
    if arrivals.len() > 0 {
        assert(requests_of(arrivals).drop_last() =~= requests_of(arrivals.drop_last()));
        if arrivals.last().request is Settle {
            law_arrivals_answered_once(arrivals.drop_last(), seen, replies, current);
        } else {
            let front = replies.drop_last();
            law_arrivals_answered_once(arrivals.drop_last(), seen.drop_last(), front, current);
            assert forall|i: int| 0 <= i < replies.len() implies !((#[trigger] replies[i]).1 is SettleSuccess) by {
                if i < front.len() {
                    assert(replies[i] == front[i]);
                }
            }
        }
    }
}

/// A node capture keeps a non-empty region that lies inside the viewport.
pub proof fn law_capture_region_within_viewport(
    x: i32,
    y: i32,
    w: i32,
    h: i32,
    width: u32,
    height: u32,
)
    requires
        i32::MIN <= x + w <= i32::MAX,
        i32::MIN <= y + h <= i32::MAX,
        width <= i32::MAX,
        height <= i32::MAX,
    ensures
        visible_region(x, y, w, h, width, height) matches Some((left, top, cw, ch)) ==> cw > 0 && ch
            > 0 && left + cw <= width && top + ch <= height,
{
}

proof fn lemma_push_contains<A>(s: Seq<A>, tail: Seq<A>, x: A)
    ensures
        (s + tail).contains(x) <==> (s.contains(x) || tail.contains(x)),
{
    if s.contains(x) {
        let i = choose|i: int| 0 <= i < s.len() && s[i] == x;
        assert((s + tail)[i] == x);
    }
    if tail.contains(x) {
        let i = choose|i: int| 0 <= i < tail.len() && tail[i] == x;
        assert((s + tail)[s.len() + i] == x);
    }
    if (s + tail).contains(x) {
        let i = choose|i: int| 0 <= i < (s + tail).len() && (s + tail)[i] == x;
        if i < s.len() {
            assert(s[i] == x);
        } else {
            assert(tail[i - s.len()] == x);
        }
    }
}

proof fn lemma_split_contains<T>(s: Seq<PendingSettle<T>>, current: u64, x: PendingSettle<T>)
    ensures
        due_part(s, current).contains(x) <==> (s.contains(x) && is_due(x, current)),
        waiting_part(s, current).contains(x) <==> (s.contains(x) && !is_due(x, current)),
    decreases s.len(),
{
    if s.len() == 0 {
        assert(!s.contains(x));
    } else {
        let front = s.drop_last();
        lemma_split_contains(front, current, x);
        assert(s == front + seq![s.last()]);
        lemma_push_contains(front, seq![s.last()], x);
        let one = seq![s.last()];
        assert(one.contains(x) <==> s.last() == x) by {
            if one.contains(x) {
                let i = choose|i: int| 0 <= i < one.len() && one[i] == x;
            }
            if s.last() == x {
                assert(one[0] == x);
            }
        }
        let none = Seq::<PendingSettle<T>>::empty();
        assert(!none.contains(x));
        lemma_push_contains(due_part(front, current), one, x);
        lemma_push_contains(due_part(front, current), none, x);
        lemma_push_contains(waiting_part(front, current), one, x);
        lemma_push_contains(waiting_part(front, current), none, x);
    }
}

/// The settles waiting after successive polls at `frames`, starting from
/// `queue`: each poll keeps those not yet due and then queues the settles it
/// received, `added[j]` at the poll at `frames[j]`.
pub open spec fn queue_after<T>(
    queue: Seq<PendingSettle<T>>,
    frames: Seq<u64>,
    added: Seq<Seq<PendingSettle<T>>>,
) -> Seq<PendingSettle<T>>
    decreases frames.len(),
{
    if frames.len() == 0 {
        queue
    } else {
        let j = frames.len() - 1;
        waiting_part(queue_after(queue, frames.drop_last(), added), frames[j]) + added[j]
    }
}

proof fn lemma_still_waiting<T>(
    queue: Seq<PendingSettle<T>>,
    p: PendingSettle<T>,
    frames: Seq<u64>,
    added: Seq<Seq<PendingSettle<T>>>,
)
    requires
        queue.contains(p),
        added.len() >= frames.len(),
        forall|i: int, j: int| 0 <= i <= j < frames.len() ==> frames[i] <= frames[j],
        forall|j: int, k: int|
            0 <= j < frames.len() && 0 <= k < added[j].len() ==> (#[trigger] added[j][k]).target_frame
                > frames[j],
    ensures
        queue_after(queue, frames, added).contains(p) <==> forall|k: int|
            0 <= k < frames.len() ==> frames[k] < p.target_frame,
    decreases frames.len(),
{
    if frames.len() > 0 {
        let j = frames.len() - 1;
        let front = frames.drop_last();
        lemma_still_waiting(queue, p, front, added);
        let q = queue_after(queue, front, added);
        lemma_split_contains(q, frames[j], p);
        lemma_push_contains(waiting_part(q, frames[j]), added[j], p);
        if added[j].contains(p) {
            let k = choose|k: int| 0 <= k < added[j].len() && added[j][k] == p;
            assert(added[j][k].target_frame > frames[j]);
            assert forall|i: int| 0 <= i < frames.len() implies frames[i] < p.target_frame by {
                assert(frames[i] <= frames[j]);
            }
        }
        assert((forall|k: int| 0 <= k < frames.len() ==> frames[k] < p.target_frame) <==> ((
        forall|k: int| 0 <= k < front.len() ==> front[k] < p.target_frame) && frames[j]
            < p.target_frame)) by {
            if forall|k: int| 0 <= k < front.len() ==> front[k] < p.target_frame {
                if frames[j] < p.target_frame {
                    assert forall|k: int| 0 <= k < frames.len() implies frames[k] < p.target_frame by {
                        if k < j {
                            assert(frames[k] == front[k]);
                        }
                    }
                }
            }
            if forall|k: int| 0 <= k < frames.len() ==> frames[k] < p.target_frame {
                assert forall|k: int| 0 <= k < front.len() implies front[k] < p.target_frame by {
                    assert(front[k] == frames[k]);
                }
            }
        }
    }
}

/// Across polls at nondecreasing frames `frames`, each of which queues only
/// settles whose target frame lies ahead of it (as every received settle's
/// does), a settle `p` waiting in `queue` is answered by exactly one poll:
/// the first at or past its target frame. Every poll before it keeps it
/// waiting, and no later poll answers it again.
pub proof fn law_settle_answered_once<T>(
    queue: Seq<PendingSettle<T>>,
    p: PendingSettle<T>,
    frames: Seq<u64>,
    added: Seq<Seq<PendingSettle<T>>>,
)
    requires
        queue.contains(p),
        added.len() == frames.len(),
        forall|i: int, j: int| 0 <= i <= j < frames.len() ==> frames[i] <= frames[j],
        forall|j: int, k: int|
            0 <= j < frames.len() && 0 <= k < added[j].len() ==> (#[trigger] added[j][k]).target_frame
                > frames[j],
    ensures
        forall|j: int|
            0 <= j < frames.len() ==> (#[trigger] due_part(
                queue_after(queue, frames.take(j), added),
                frames[j],
            ).contains(p) <==> (frames[j] >= p.target_frame && forall|k: int|
                0 <= k < j ==> frames[k] < p.target_frame)),
        forall|j1: int, j2: int|
            0 <= j1 < frames.len() && 0 <= j2 < frames.len() && #[trigger] due_part(
                queue_after(queue, frames.take(j1), added),
                frames[j1],
            ).contains(p) && #[trigger] due_part(
                queue_after(queue, frames.take(j2), added),
                frames[j2],
            ).contains(p) ==> j1 == j2,
{
    assert forall|j: int| 0 <= j < frames.len() implies (#[trigger] due_part(
        queue_after(queue, frames.take(j), added),
        frames[j],
    ).contains(p) <==> (frames[j] >= p.target_frame && forall|k: int|
        0 <= k < j ==> frames[k] < p.target_frame)) by {
        let before = frames.take(j);
        lemma_still_waiting(queue, p, before, added);
        lemma_split_contains(queue_after(queue, before, added), frames[j], p);
        assert((forall|k: int| 0 <= k < before.len() ==> before[k] < p.target_frame) <==> (forall|
            k: int,
        | 0 <= k < j ==> frames[k] < p.target_frame)) by {
            if forall|k: int| 0 <= k < before.len() ==> before[k] < p.target_frame {
                assert forall|k: int| 0 <= k < j implies frames[k] < p.target_frame by {
                    assert(before[k] == frames[k]);
                }
            }
            if forall|k: int| 0 <= k < j ==> frames[k] < p.target_frame {
                assert forall|k: int| 0 <= k < before.len() implies before[k] < p.target_frame by {
                    assert(before[k] == frames[k]);
                }
            }
        }
    }
    assert forall|j1: int, j2: int|
        0 <= j1 < frames.len() && 0 <= j2 < frames.len() && #[trigger] due_part(
            queue_after(queue, frames.take(j1), added),
            frames[j1],
        ).contains(p) && #[trigger] due_part(
            queue_after(queue, frames.take(j2), added),
            frames[j2],
        ).contains(p) implies j1 == j2 by {
        if j1 < j2 {
            assert(frames[j1] < p.target_frame);
        }
        if j2 < j1 {
            assert(frames[j2] < p.target_frame);
        }
    }
}

/// The word a pointer command is named by on the command line.
pub open spec fn pointer_word(p: Pointer) -> Seq<char> {
    match p {
        Pointer::Click => "click"@,
        Pointer::Move => "move"@,
        Pointer::Down => "down"@,
        Pointer::Up => "up"@,
        Pointer::Wheel => "wheel"@,
        Pointer::Drag => "drag"@,
    }
}

/// Each pointer command is named by its own word, and no two words name the
/// same pointer command.
pub proof fn law_pointer_words(p: Pointer, a: Seq<char>, b: Seq<char>)
    ensures
        pointer_named(pointer_word(p)) == Some(p),
        (pointer_named(a) is Some && pointer_named(a) == pointer_named(b)) ==> a == b,
{
    reveal_strlit("click");
    reveal_strlit("move");
    reveal_strlit("down");
    reveal_strlit("up");
    reveal_strlit("wheel");
    reveal_strlit("drag");
    assert("click"@[0] == 'c' && "move"@[0] == 'm' && "down"@[0] == 'd' && "up"@[0] == 'u'
        && "wheel"@[0] == 'w' && "drag"@[0] == 'd');
    assert("down"@[1] == 'o' && "drag"@[1] == 'r');
    assert("click"@.len() == 5 && "move"@.len() == 4 && "down"@.len() == 4 && "up"@.len() == 2
        && "wheel"@.len() == 5 && "drag"@.len() == 4);
}

/// `blitz-host mouse <WORD> ...` runs the pointer command named by that word,
/// when neither help nor the version is asked for.
pub proof fn law_mouse_routes_by_word(args: Seq<Seq<char>>, p: Pointer, r: Command)
    requires
        args.len() >= 3,
        args[1] == "mouse"@,
        args[2] == pointer_word(p),
        forall|i: int|
            0 <= i < args.len() ==> args[i] != "-V"@ && args[i] != "--version"@ && args[i] != "-h"@
                && args[i] != "--help"@,
        routes_to(args, r),
    ensures
        r == Command::Mouse(p),
{
    law_pointer_words(p, pointer_word(p), pointer_word(p));
    let sub = args.skip(2);
    assert(sub[0] == args[2]);
    assert(!asks_help(sub)) by {
        if asks_help(sub) {
            let i = choose|i: int| 0 <= i < sub.len() && (sub[i] == "-h"@ || sub[i] == "--help"@);
            assert(sub[i] == args[i + 2]);
        }
    }
    assert(!exists|i: int| 0 <= i < args.len() && (args[i] == "-V"@ || args[i] == "--version"@));
}

/// `-o <PATH>` and `--output <PATH>` both name the output file: the first of
/// them that has a value after it decides, when no `--output=` or `-o=`
/// argument comes before it.
pub proof fn law_output_flag_names_file(args: Seq<Seq<char>>, i: int)
    requires
        0 <= i,
        i + 1 < args.len(),
        args[i] == "-o"@ || args[i] == "--output"@,
        forall|j: int|
            0 <= j < i ==> args[j] != "-o"@ && args[j] != "--output"@ && !has_prefix(
                args[j],
                "--output="@,
            ) && !has_prefix(args[j], "-o="@),
    ensures
        output_flag(args) == Some(args[i + 1]),
{
    let names = seq!["-o"@, "--output"@];
    let prefixes = seq!["--output="@, "-o="@];
    assert(names[0] == "-o"@ && names[1] == "--output"@);
    assert forall|k: int, m: int| 0 <= k < i && 0 <= m < names.len() implies args[k] != names[m] by {
        assert(m == 0 || m == 1);
    }
    assert forall|k: int, m: int| 0 <= k < i && 0 <= m < prefixes.len() implies !has_prefix(
        args[k],
        prefixes[m],
    ) by {
        assert(m == 0 || m == 1);
    }
    lemma_flag_skips(args, names, prefixes, 0, i);
    assert(exists|k: int| 0 <= k < names.len() && names[k] == args[i]);
}

proof fn lemma_flag_skips(
    args: Seq<Seq<char>>,
    names: Seq<Seq<char>>,
    prefixes: Seq<Seq<char>>,
    j: int,
    i: int,
)
    requires
        0 <= j <= i < args.len(),
        forall|k: int, m: int| 0 <= k < i && 0 <= m < names.len() ==> args[k] != names[m],
        forall|k: int, m: int|
            0 <= k < i && 0 <= m < prefixes.len() ==> !has_prefix(args[k], prefixes[m]),
    ensures
        flag_value_from(args, names, prefixes, j) == flag_value_from(args, names, prefixes, i),
    decreases i - j,
{
    if j < i {
        lemma_flag_skips(args, names, prefixes, j + 1, i);
        assert(!exists|k: int| 0 <= k < names.len() && names[k] == args[j]);
        assert(!exists|k: int| 0 <= k < prefixes.len() && has_prefix(args[j], prefixes[k]));
    }
}

/// `-c <NODE_ID>` and `--click <NODE_ID>` both give the node to click, and
/// `-s <FRAMES>` and `--settle <FRAMES>` both give the frames to settle: the
/// first such flag with a value after it decides.
pub proof fn law_click_and_settle_flags(args: Seq<Seq<char>>, i: int)
    requires
        0 <= i,
        i + 1 < args.len(),
    ensures
        (args[i] == "-c"@ || args[i] == "--click"@) && (forall|j: int|
            0 <= j < i ==> args[j] != "-c"@ && args[j] != "--click"@) ==> click_flag(args) == Some(
            args[i + 1],
        ),
        (args[i] == "-s"@ || args[i] == "--settle"@) && (forall|j: int|
            0 <= j < i ==> args[j] != "-s"@ && args[j] != "--settle"@) ==> settle_flag(args)
            == Some(args[i + 1]),
{
    let none = Seq::<Seq<char>>::empty();
    let c = seq!["-c"@, "--click"@];
    let st = seq!["-s"@, "--settle"@];
    if (args[i] == "-c"@ || args[i] == "--click"@) && (forall|j: int|
        0 <= j < i ==> args[j] != "-c"@ && args[j] != "--click"@) {
        assert forall|k: int, m: int| 0 <= k < i && 0 <= m < c.len() implies args[k] != c[m] by {
            assert(m == 0 || m == 1);
        }
        lemma_flag_skips(args, c, none, 0, i);
        assert(c[0] == args[i] || c[1] == args[i]);
    }
    if (args[i] == "-s"@ || args[i] == "--settle"@) && (forall|j: int|
        0 <= j < i ==> args[j] != "-s"@ && args[j] != "--settle"@) {
        assert forall|k: int, m: int| 0 <= k < i && 0 <= m < st.len() implies args[k] != st[m] by {
            assert(m == 0 || m == 1);
        }
        lemma_flag_skips(args, st, none, 0, i);
        assert(st[0] == args[i] || st[1] == args[i]);
    }
}

/// The transport tool's `click <NODE_ID>` and `settle <FRAMES>` subcommands
/// take the descriptor path as their next non-flag argument, as `inspect`
/// takes it as its first; the node ID and the frame count are the decimal
/// numbers given.
pub proof fn law_transport_subcommands(args: Seq<Seq<char>>)
    ensures
        ({
            let nf = non_flags(args);
            let (click, settle, descriptor) = subcommand_choice(nf);
            &&& (nf.len() > 2 && (nf[0] == "click"@ || nf[0] == "settle"@)) ==> descriptor == Some(
                nf[2],
            )
            &&& (nf.len() > 1 && nf[0] == "inspect"@) ==> descriptor == Some(nf[1])
            &&& (nf.len() > 1 && nf[0] == "click"@) ==> click == spec_parse_u64(nf[1]) && settle
                is None
            &&& (nf.len() > 1 && nf[0] == "settle"@) ==> settle == spec_parse_u32(nf[1]) && click
                is None
            &&& (nf.len() > 0 && has_suffix(nf[0], ".json"@)) ==> descriptor == Some(nf[0])
                && click is None && settle is None
        }),
{
    reveal_strlit("click");
    reveal_strlit("settle");
    reveal_strlit("inspect");
    reveal_strlit(".json");
    assert("click"@.len() == 5 && "settle"@.len() == 6 && "inspect"@.len() == 7);
    let nf = non_flags(args);
    if nf.len() > 0 && has_suffix(nf[0], ".json"@) {
        let w = nf[0];
        assert(w.subrange(w.len() - 5, w.len() as int)[0] == '.');
        assert(w[w.len() - 5] == '.');
        assert("click"@[0] == 'c' && "settle"@[1] == 'e' && "inspect"@[2] == 's');
        if w == "click"@ {
            assert(w[0] == 'c');
        }
        if w == "settle"@ {
            assert(w[1] == 'e');
        }
        if w == "inspect"@ {
            assert(w[2] == 's');
        }
    }
}

/// A selector is looked up by the trimmed selector for the CSS query and, for
/// the element ID fallback, the trimmed selector without one leading `#`: the
/// trimmed selector itself when it has none. Whenever a request consults a
/// selector, these are the keys the document is asked for.
pub proof fn law_lookup_keys(sel: Seq<char>, target: Option<ElementTarget>, selector: Option<Seq<char>>)
    ensures
        lookup_keys(sel).0 == trimmed(sel),
        (trimmed(sel).len() > 0 && trimmed(sel)[0] == '#') ==> lookup_keys(sel).1 == trimmed(
            sel,
        ).skip(1),
        !(trimmed(sel).len() > 0 && trimmed(sel)[0] == '#') ==> lookup_keys(sel).1 == trimmed(sel),
        target is None && selector == Some(sel) ==> keys_asked(target, selector) == Some(
            (trimmed(sel), lookup_keys(sel).1),
        ),
        target matches Some(ElementTarget::Selector(t)) ==> keys_asked(target, selector) == Some(
            lookup_keys(t@),
        ),
{
    assert(trimmed(sel).skip(1) =~= trimmed(sel).drop_first());
}

/// A word spelled in lower-case ASCII letters.
pub open spec fn lower_word(w: Seq<char>) -> bool {
    w.len() > 0 && forall|i: int| 0 <= i < w.len() ==> 'a' <= #[trigger] w[i] <= 'z'
}

proof fn lemma_word_clean(name: Seq<char>, word: Seq<char>)
    requires
        lower_word(word),
        eq_ascii_ci(name, word),
    ensures
        name.len() > 0,
        !is_white_space(name[0]),
        !is_white_space(name.last()),
        forall|i: int| 0 <= i < name.len() ==> #[trigger] name[i] != '+',
{
    assert(ascii_lower(name[0]) == ascii_lower(word[0]));
    assert(ascii_lower(name[name.len() - 1]) == ascii_lower(word[name.len() - 1]));
    assert forall|i: int| 0 <= i < name.len() implies #[trigger] name[i] != '+' by {
        assert(ascii_lower(name[i]) == ascii_lower(word[i]));
    }
}

proof fn lemma_modifier_then_key(name: Seq<char>, word: Seq<char>, key: Seq<char>)
    requires
        lower_word(word),
        eq_ascii_ci(name, word),
        forall|i: int| 0 <= i < key.len() ==> key[i] != '+',
    ensures
        compound_key(name + seq!['+'] + key).0 == trimmed(key),
        split_compound(trimmed(name + seq!['+'] + key), KeyModifiers::spec_none()).1 == crate::cli::with_token(
            KeyModifiers::spec_none(),
            name,
        ),
{
    lemma_word_clean(name, word);
    let x = name + seq!['+'];
    assert(x[0] == name[0]);
    assert(x.last() == '+');
    lemma_trimmed_after_clean(x, key);
    assert(name + seq!['+'] + key =~= x + key);
    let t = x + trim_end(key);
    assert forall|k: int| 0 <= k < name.len() implies t[k] != '+' by {
        assert(t[k] == name[k]);
    }
    assert(t[name.len() as int] == '+');
    lemma_first_index_of(t, '+', name.len() as int);
    assert(t.take(name.len() as int) =~= name);
    assert(t.skip(name.len() + 1 as int) =~= trim_end(key));
    crate::text::lemma_trimmed_clean(name);
    lemma_trimmed_trim_end(key);
    crate::text::lemma_trimmed_shape(key);
    let (a, b) = choose|a: int, b: int| 0 <= a <= b <= key.len() && trimmed(key) == key.subrange(a, b);
    assert forall|i: int| 0 <= i < trimmed(key).len() implies trimmed(key)[i] != '+' by {
        assert(trimmed(key)[i] == key[a + i]);
    }
    assert(!exists|i: int| 0 <= i < trimmed(key).len() && trimmed(key)[i] == '+');
    assert(first_index_of(trimmed(key), '+') is None);
    let m = crate::cli::with_token(KeyModifiers::spec_none(), name);
    assert(split_compound(trimmed(key), m) == (trimmed(key), m));
    assert(trimmed(name + seq!['+'] + key) == t);
    assert(trimmed(t.skip(name.len() + 1 as int)) == trimmed(key));
    assert(split_compound(t, KeyModifiers::spec_none()) == split_compound(
        trimmed(t.skip(name.len() + 1 as int)),
        crate::cli::with_token(KeyModifiers::spec_none(), trimmed(t.take(name.len() as int))),
    ));
}

/// A key specifier `NAME+KEY`, where `KEY` holds no `+`, presses the trimmed
/// `KEY` with exactly the modifier `NAME` documents, whatever its ASCII case:
/// `shift`; `ctrl` or `control`; `cmd`, `command`, `meta` or `super`; `alt`,
/// `opt` or `option`.
pub proof fn law_modifier_names(name: Seq<char>, key: Seq<char>)
    requires
        forall|i: int| 0 <= i < key.len() ==> key[i] != '+',
    ensures
        ({
            let r = compound_key(name + seq!['+'] + key);
            &&& eq_ascii_ci(name, "shift"@) ==> r == (trimmed(key), Some(
                KeyModifiers { shift: true, ctrl: false, alt: false, meta: false },
            ))
            &&& (eq_ascii_ci(name, "ctrl"@) || eq_ascii_ci(name, "control"@)) ==> r == (
                trimmed(key),
                Some(KeyModifiers { shift: false, ctrl: true, alt: false, meta: false }),
            )
            &&& (eq_ascii_ci(name, "cmd"@) || eq_ascii_ci(name, "command"@) || eq_ascii_ci(
                name,
                "meta"@,
            ) || eq_ascii_ci(name, "super"@)) ==> r == (trimmed(key), Some(
                KeyModifiers { shift: false, ctrl: false, alt: false, meta: true },
            ))
            &&& (eq_ascii_ci(name, "alt"@) || eq_ascii_ci(name, "opt"@) || eq_ascii_ci(
                name,
                "option"@,
            )) ==> r == (trimmed(key), Some(
                KeyModifiers { shift: false, ctrl: false, alt: true, meta: false },
            ))
        }),
{
    reveal_strlit("shift");
    reveal_strlit("ctrl");
    reveal_strlit("control");
    reveal_strlit("cmd");
    reveal_strlit("command");
    reveal_strlit("meta");
    reveal_strlit("super");
    reveal_strlit("alt");
    reveal_strlit("opt");
    reveal_strlit("option");
    if eq_ascii_ci(name, "shift"@) {
        assert(lower_word("shift"@));
        lemma_modifier_then_key(name, "shift"@, key);
    }
    if eq_ascii_ci(name, "ctrl"@) {
        assert(lower_word("ctrl"@));
        lemma_modifier_then_key(name, "ctrl"@, key);
    }
    if eq_ascii_ci(name, "control"@) {
        assert(lower_word("control"@));
        lemma_modifier_then_key(name, "control"@, key);
    }
    if eq_ascii_ci(name, "cmd"@) {
        assert(lower_word("cmd"@));
        lemma_modifier_then_key(name, "cmd"@, key);
    }
    if eq_ascii_ci(name, "command"@) {
        assert(lower_word("command"@));
        lemma_modifier_then_key(name, "command"@, key);
    }
    if eq_ascii_ci(name, "meta"@) {
        assert(lower_word("meta"@));
        lemma_modifier_then_key(name, "meta"@, key);
    }
    if eq_ascii_ci(name, "super"@) {
        assert(lower_word("super"@));
        lemma_modifier_then_key(name, "super"@, key);
    }
    if eq_ascii_ci(name, "alt"@) {
        assert(lower_word("alt"@));
        lemma_modifier_then_key(name, "alt"@, key);
    }
    if eq_ascii_ci(name, "opt"@) {
        assert(lower_word("opt"@));
        lemma_modifier_then_key(name, "opt"@, key);
    }
    if eq_ascii_ci(name, "option"@) {
        assert(lower_word("option"@));
        lemma_modifier_then_key(name, "option"@, key);
    }
    if eq_ascii_ci(name, "shift"@) {

        assert(crate::cli::with_token(KeyModifiers::spec_none(), name) == KeyModifiers { shift: true, ctrl: false, alt: false, meta: false });
    }
    if eq_ascii_ci(name, "ctrl"@) {
        assert(name.len() != "shift"@.len());
        assert(crate::cli::with_token(KeyModifiers::spec_none(), name) == KeyModifiers { shift: false, ctrl: true, alt: false, meta: false });
    }
    if eq_ascii_ci(name, "control"@) {
        assert(name.len() != "shift"@.len());
        assert(crate::cli::with_token(KeyModifiers::spec_none(), name) == KeyModifiers { shift: false, ctrl: true, alt: false, meta: false });
    }
    if eq_ascii_ci(name, "cmd"@) {
        assert(name.len() != "shift"@.len());
        assert(name.len() != "ctrl"@.len());
        assert(name.len() != "control"@.len());
        assert(crate::cli::with_token(KeyModifiers::spec_none(), name) == KeyModifiers { shift: false, ctrl: false, alt: false, meta: true });
    }
    if eq_ascii_ci(name, "command"@) {
        assert(name.len() != "shift"@.len());
        assert(name.len() != "ctrl"@.len());
        assert(ascii_lower(name[2]) == ascii_lower("command"@[2]));
        assert(!eq_ascii_ci(name, "control"@));
        assert(crate::cli::with_token(KeyModifiers::spec_none(), name) == KeyModifiers { shift: false, ctrl: false, alt: false, meta: true });
    }
    if eq_ascii_ci(name, "meta"@) {
        assert(name.len() != "shift"@.len());
        assert(ascii_lower(name[0]) == ascii_lower("meta"@[0]));
        assert(!eq_ascii_ci(name, "ctrl"@));
        assert(name.len() != "control"@.len());
        assert(crate::cli::with_token(KeyModifiers::spec_none(), name) == KeyModifiers { shift: false, ctrl: false, alt: false, meta: true });
    }
    if eq_ascii_ci(name, "super"@) {
        assert(ascii_lower(name[1]) == ascii_lower("super"@[1]));
        assert(!eq_ascii_ci(name, "shift"@));
        assert(name.len() != "ctrl"@.len());
        assert(name.len() != "control"@.len());
        assert(crate::cli::with_token(KeyModifiers::spec_none(), name) == KeyModifiers { shift: false, ctrl: false, alt: false, meta: true });
    }
    if eq_ascii_ci(name, "alt"@) {
        assert(name.len() != "shift"@.len());
        assert(name.len() != "ctrl"@.len());
        assert(name.len() != "control"@.len());
        assert(ascii_lower(name[0]) == ascii_lower("alt"@[0]));
        assert(!eq_ascii_ci(name, "cmd"@));
        assert(name.len() != "command"@.len());
        assert(name.len() != "meta"@.len());
        assert(name.len() != "super"@.len());
        assert(crate::cli::with_token(KeyModifiers::spec_none(), name) == KeyModifiers { shift: false, ctrl: false, alt: true, meta: false });
    }
    if eq_ascii_ci(name, "opt"@) {
        assert(name.len() != "shift"@.len());
        assert(name.len() != "ctrl"@.len());
        assert(name.len() != "control"@.len());
        assert(ascii_lower(name[0]) == ascii_lower("opt"@[0]));
        assert(!eq_ascii_ci(name, "cmd"@));
        assert(name.len() != "command"@.len());
        assert(name.len() != "meta"@.len());
        assert(name.len() != "super"@.len());
        assert(crate::cli::with_token(KeyModifiers::spec_none(), name) == KeyModifiers { shift: false, ctrl: false, alt: true, meta: false });
    }
    if eq_ascii_ci(name, "option"@) {
        assert(name.len() != "shift"@.len());
        assert(name.len() != "ctrl"@.len());
        assert(name.len() != "control"@.len());
        assert(name.len() != "cmd"@.len());
        assert(name.len() != "command"@.len());
        assert(name.len() != "meta"@.len());
        assert(name.len() != "super"@.len());
        assert(crate::cli::with_token(KeyModifiers::spec_none(), name) == KeyModifiers { shift: false, ctrl: false, alt: true, meta: false });
    }
}

} // verus!
