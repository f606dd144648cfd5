use rusty_chat::signal::{Derived, IdAllocator, Signal};

#[test]
fn tracked_reads_subscribe_once() {
    let mut ids = IdAllocator::new();
    let view_a = ids.fresh();
    let view_b = ids.fresh();
    assert_ne!(view_a, view_b);

    let mut cell = Signal::new(1u32);
    assert_eq!(*cell.get_untracked(), 1);
    assert_eq!(cell.subscribers.len(), 0);

    assert_eq!(*cell.get(view_a), 1);
    assert_eq!(*cell.get(view_a), 1);
    assert_eq!(*cell.get(view_b), 1);
    assert_eq!(cell.subscribers, vec![view_a, view_b]);
}

#[test]
fn writes_notify_every_subscriber() {
    let mut ids = IdAllocator::new();
    let view_a = ids.fresh();
    let view_b = ids.fresh();
    let mut cell = Signal::new("old".to_string());
    cell.subscribe(view_a);
    cell.subscribe(view_b);

    let notify = cell.set("new".to_string());
    assert_eq!(notify, vec![view_a, view_b]);
    assert_eq!(*cell.get_untracked(), "new");

    let (previous, notify) = cell.replace("newer".to_string());
    assert_eq!(previous, "new");
    assert_eq!(notify, vec![view_a, view_b]);

    cell.unsubscribe(view_a);
    let notify = cell.set("newest".to_string());
    assert_eq!(notify, vec![view_b]);
}

#[test]
fn derived_recomputes_exactly_on_dependency_change() {
    let mut ids = IdAllocator::new();
    let upstream = ids.fresh();
    let unrelated = ids.fresh();

    let mut memo: Derived<u32> = Derived::new(0);
    assert!(memo.needs_recompute());

    // a run that read `upstream` and produced 42
    memo.store_result(42, vec![upstream]);
    assert!(!memo.needs_recompute());
    assert_eq!(*memo.read(), 42);

    // a change elsewhere leaves the cache valid
    memo.invalidate(unrelated);
    assert!(!memo.needs_recompute());

    // a change of what the last run read forces a recomputation
    memo.invalidate(upstream);
    assert!(memo.needs_recompute());
}
