use codewire::fanout::{Fanout, InputQueue, PollOutcome};
use codewire::node::Debounce;

fn drain_strings(f: &Fanout, sub: &mut codewire::fanout::Subscriber) -> (String, u64) {
    let mut collected = String::new();
    let mut skipped = 0;
    loop {
        match f.poll(sub) {
            PollOutcome::Empty => break,
            PollOutcome::Lagged(n) => skipped += n,
            PollOutcome::Item(bytes) => collected.push_str(&String::from_utf8(bytes).unwrap()),
        }
    }
    (collected, skipped)
}

#[test]
fn two_subscribers_receive_the_same_bytes() {
    let mut f = Fanout::new(4096);
    let mut a = f.subscribe();
    let mut b = f.subscribe();
    for i in 1..=5 {
        f.publish(format!("MULTI_{}\n", i).into_bytes());
    }
    let (ta, _) = drain_strings(&f, &mut a);
    let (tb, _) = drain_strings(&f, &mut b);
    assert_eq!(ta, tb, "both subscribers see the same sequence");
    assert!(ta.contains("MULTI_5"));
}

#[test]
fn slow_subscriber_lags_without_stalling_or_hiding_bytes_from_others() {
    let mut f = Fanout::new(2);
    let mut slow = f.subscribe();
    let mut fast = f.subscribe();
    f.publish(b"a".to_vec());
    // The fast subscriber keeps up.
    assert!(matches!(f.poll(&mut fast), PollOutcome::Item(ref b) if b == b"a"));
    // The publisher never waits for the slow one: it overwrites the
    // oldest slot.
    f.publish(b"b".to_vec());
    f.publish(b"c".to_vec());
    match f.poll(&mut slow) {
        PollOutcome::Lagged(n) => assert_eq!(n, 1, "one position skipped"),
        _ => panic!("expected a lag signal"),
    }
    let (rest, _) = drain_strings(&f, &mut slow);
    assert_eq!(rest, "bc", "the received bytes are a subsequence of the log: (a)bc");
    let (rest_fast, skipped_fast) = drain_strings(&f, &mut fast);
    assert_eq!(rest_fast, "bc");
    assert_eq!(skipped_fast, 0, "one slow subscriber costs the fast one nothing");
}

#[test]
fn subscribers_start_at_now() {
    let mut f = Fanout::new(8);
    f.publish(b"old".to_vec());
    let mut s = f.subscribe();
    assert!(matches!(f.poll(&mut s), PollOutcome::Empty));
    f.publish(b"new".to_vec());
    assert!(matches!(f.poll(&mut s), PollOutcome::Item(ref b) if b == b"new"));
}

#[test]
fn input_queue_is_fifo_and_exactly_once() {
    let mut q = InputQueue::new(256);
    assert!(q.try_enqueue(b"one".to_vec()));
    assert!(q.try_enqueue(b"two".to_vec()));
    assert!(q.try_enqueue(b"three".to_vec()));
    assert_eq!(q.dequeue(), Some(b"one".to_vec()));
    assert_eq!(q.dequeue(), Some(b"two".to_vec()));
    assert_eq!(q.dequeue(), Some(b"three".to_vec()));
    assert_eq!(q.dequeue(), None, "each accepted buffer arrives exactly once");
}

#[test]
fn input_queue_refuses_when_full_without_blocking() {
    let mut q = InputQueue::new(2);
    assert!(q.try_enqueue(b"a".to_vec()));
    assert!(q.try_enqueue(b"b".to_vec()));
    assert!(!q.try_enqueue(b"c".to_vec()), "a full queue is busy, not blocking");
    assert_eq!(q.dequeue(), Some(b"a".to_vec()));
    assert!(q.try_enqueue(b"d".to_vec()));
    assert_eq!(q.dequeue(), Some(b"b".to_vec()));
    assert_eq!(q.dequeue(), Some(b"d".to_vec()));
}

#[test]
fn debounce_coalesces_a_burst_into_one_write() {
    let mut d = Debounce::new();
    d.on_signal();
    d.on_signal();
    d.on_signal();
    assert!(d.on_timer(), "one write for the whole burst");
    assert!(!d.on_timer(), "and nothing more without a new signal");
}

#[test]
fn debounce_writes_nothing_without_signals() {
    let mut d = Debounce::new();
    assert!(!d.on_timer());
    d.on_signal();
    assert!(d.on_timer());
    assert!(!d.on_timer());
}
