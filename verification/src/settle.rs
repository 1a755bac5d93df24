//! Frame settlement: settle requests wait until the host has drawn the
//! requested number of frames, and are answered on the first poll at or past
//! their target frame.

use vstd::prelude::*;

use crate::protocol::SettleResponse;

verus! {

/// A settle request waiting for its target frame; `reply` is how to answer it.
pub struct PendingSettle<T> {
    pub reply: T,
    pub target_frame: u64,
    pub requested_frames: u32,
}

/// The settle requests still waiting, in arrival order.
pub struct SettleQueue<T> {
    pub pending: Vec<PendingSettle<T>>,
}

/// The number of frames a settle request waits for: at least one.
pub open spec fn frames_to_wait(frames: u32) -> u32 {
    if frames == 0 {
        1
    } else {
        frames
    }
}

/// Whether a pending settle is answered at frame `current`.
pub open spec fn is_due<T>(p: PendingSettle<T>, current: u64) -> bool {
    current >= p.target_frame
}

/// The pending settles answered at frame `current`, in arrival order.
pub open spec fn due_part<T>(s: Seq<PendingSettle<T>>, current: u64) -> Seq<PendingSettle<T>>
    decreases s.len(),
{
    if s.len() == 0 {
        Seq::empty()
    } else {
        due_part(s.drop_last(), current) + if is_due(s.last(), current) {
            seq![s.last()]
        } else {
            Seq::empty()
        }
    }
}

/// The pending settles still waiting after frame `current`, in arrival order.
pub open spec fn waiting_part<T>(s: Seq<PendingSettle<T>>, current: u64) -> Seq<PendingSettle<T>>
    decreases s.len(),
{
    if s.len() == 0 {
        Seq::empty()
    } else {
        waiting_part(s.drop_last(), current) + if is_due(s.last(), current) {
            Seq::empty()
        } else {
            seq![s.last()]
        }
    }
}

/// `answers` answers, in order, the settles `due` at frame `current`.
pub open spec fn answers_settles<T>(
    answers: Seq<(T, SettleResponse)>,
    due: Seq<PendingSettle<T>>,
    current: u64,
) -> bool {
    &&& answers.len() == due.len()
    &&& forall|i: int|
        0 <= i < due.len() ==> (#[trigger] answers[i]).0 == due[i].reply && answers[i].1
            == SettleResponse {
            settled: true,
            frames_waited: due[i].requested_frames,
            current_frame: current,
        }
}

impl<T> SettleQueue<T> {
    /// An empty queue.
    pub fn new() -> (q: SettleQueue<T>)
        ensures
            q.pending@.len() == 0,
    {
        SettleQueue { pending: Vec::new() }
    }

    /// Registers a request, received at frame `current_frame`, to settle
    /// `frames` frames (zero counts as one).
    pub fn enqueue(&mut self, reply: T, current_frame: u64, frames: u32)
        requires
            current_frame + frames_to_wait(frames) <= u64::MAX,
        ensures
            final(self).pending@ == old(self).pending@.push(
                PendingSettle {
                    reply,
                    target_frame: (current_frame + frames_to_wait(frames)) as u64,
                    requested_frames: frames_to_wait(frames),
                },
            ),
    {
        let requested_frames = if frames == 0 {
            1
        } else {
            frames
        };
        self.pending.push(
            PendingSettle {
                reply,
                target_frame: current_frame + requested_frames as u64,
                requested_frames,
            },
        );
    }

    /// Answers, in arrival order, every pending settle whose target frame has
    /// been reached at `current_frame`; the others keep waiting, in order.
    pub fn drain_due(&mut self, current_frame: u64) -> (answers: Vec<(T, SettleResponse)>)
        ensures
            final(self).pending@ == waiting_part(old(self).pending@, current_frame),
            answers_settles(answers@, due_part(old(self).pending@, current_frame), current_frame),
    {
        let mut pending: Vec<PendingSettle<T>> = Vec::new();
        std::mem::swap(&mut pending, &mut self.pending);
        let ghost all = pending@;
        let mut answers: Vec<(T, SettleResponse)> = Vec::new();
        let mut kept: Vec<PendingSettle<T>> = Vec::new();
        let ghost mut i: int = 0;
        assert(all.take(0) =~= Seq::<PendingSettle<T>>::empty());
        assert(all.skip(0) =~= all);
        while pending.len() > 0
            invariant
                0 <= i <= all.len(),
                pending@ == all.skip(i),
                kept@ == waiting_part(all.take(i), current_frame),
                answers_settles(answers@, due_part(all.take(i), current_frame), current_frame),
            decreases pending@.len(),
        {
            let p = pending.remove(0);
            proof {
                assert(p == all[i]);
                assert(all.take(i + 1).drop_last() =~= all.take(i));
                assert(all.take(i + 1).last() == all[i]);
                assert(all.skip(i).drop_first() =~= all.skip(i + 1));
            }
            let ghost due_before = due_part(all.take(i), current_frame);
            let ghost answers_before = answers@;
            if current_frame >= p.target_frame {
                let resp = SettleResponse {
                    settled: true,
                    frames_waited: p.requested_frames,
                    current_frame,
                };
                answers.push((p.reply, resp));
                proof {
                    let due_now = due_part(all.take(i + 1), current_frame);
                    assert(due_now == due_before.push(all[i]));
                    assert forall|k: int| 0 <= k < due_now.len() implies (#[trigger] answers@[k]).0
                        == due_now[k].reply && answers@[k].1 == SettleResponse {
                        settled: true,
                        frames_waited: due_now[k].requested_frames,
                        current_frame,
                    } by {
                        if k < due_before.len() {
                            assert(answers@[k] == answers_before[k]);
                        }
                    }
                }
            } else {
                kept.push(p);
                proof {
                    assert(due_part(all.take(i + 1), current_frame) == due_before);
                }
            }
            proof {
                i = i + 1;
            }
        }
        assert(all.take(i) =~= all);
        self.pending = kept;
        answers
    }
}

} // verus!
