use blitz_host::protocol::SettleResponse;
use blitz_host::settle::SettleQueue;

#[test]
fn settle_waits_for_its_frame() {
    let mut q: SettleQueue<&str> = SettleQueue::new();
    q.enqueue("a", 10, 2);
    q.enqueue("b", 10, 0);
    q.enqueue("c", 11, 5);
    // Frame 10: nothing has waited long enough.
    assert!(q.drain_due(10).is_empty());
    // Frame 11: the zero-frame settle counts as one frame.
    let answered = q.drain_due(11);
    assert_eq!(
        answered,
        vec![("b", SettleResponse { settled: true, frames_waited: 1, current_frame: 11 })]
    );
    // Polling again at the same frame answers nothing more.
    assert!(q.drain_due(11).is_empty());
    let answered = q.drain_due(12);
    assert_eq!(
        answered,
        vec![("a", SettleResponse { settled: true, frames_waited: 2, current_frame: 12 })]
    );
    assert_eq!(q.pending.len(), 1);
    // Past every target, everything left is answered, oldest first.
    q.enqueue("d", 12, 1);
    let answered = q.drain_due(100);
    assert_eq!(answered.len(), 2);
    assert_eq!(answered[0].0, "c");
    assert_eq!(answered[0].1.frames_waited, 5);
    assert_eq!(answered[1].0, "d");
    assert_eq!(answered[1].1.current_frame, 100);
    assert!(q.pending.is_empty());
}

#[test]
fn settle_targets_are_frame_plus_wait() {
    let mut q: SettleQueue<u8> = SettleQueue::new();
    q.enqueue(1, 40, 3);
    assert_eq!(q.pending[0].target_frame, 43);
    assert_eq!(q.pending[0].requested_frames, 3);
    q.enqueue(2, 40, 0);
    assert_eq!(q.pending[1].target_frame, 41);
    assert_eq!(q.pending[1].requested_frames, 1);
}
