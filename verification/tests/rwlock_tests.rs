use futures_locks::RwLock;

#[test]
fn concurrent_reads_then_write_waits_for_both() {
    let mut l = RwLock::<u32>::new(3);
    let mut r1 = l.read();
    let mut r2 = l.read();
    let g1 = r1.poll(&mut l).expect("uncontested read resolves at once");
    let g2 = r2.poll(&mut l).expect("second read shares access without waiting");
    assert_eq!(*l.read_shared(&g1), 3);
    assert_eq!(*l.read_shared(&g2), 3);
    let mut w = l.write();
    assert!(w.poll(&mut l).is_none(), "write waits for outstanding readers");
    l.release_read(g1);
    assert!(w.poll(&mut l).is_none(), "one reader still out");
    l.release_read(g2);
    let gw = w.poll(&mut l).expect("write granted once both readers released");
    l.release_write(gw);
    r1.cancel(&mut l);
    r2.cancel(&mut l);
    w.cancel(&mut l);
    assert_eq!(l.try_unwrap().ok(), Some(3));
}

#[test]
fn writer_excludes_readers_and_writers() {
    let mut l = RwLock::<u32>::new(0);
    let g = l.try_write().expect("idle lock");
    assert!(l.try_read().is_err());
    assert!(l.try_write().is_err());
    l.release_write(g);
    let g = l.try_read().expect("free again");
    assert!(l.try_write().is_err(), "reader excludes writers");
    l.release_read(g);
}

#[test]
fn queued_readers_are_granted_as_one_batch() {
    let mut l = RwLock::<u32>::new(0);
    let mut w = l.write();
    let gw = w.poll(&mut l).expect("immediate");
    let mut r1 = l.read();
    let mut r2 = l.read();
    assert!(r1.poll(&mut l).is_none());
    assert!(r2.poll(&mut l).is_none());
    l.release_write(gw);
    assert_eq!(l.pending_read_grants().len(), 2, "both queued readers released together");
    let g1 = r1.poll(&mut l).expect("batched reader");
    let g2 = r2.poll(&mut l).expect("batched reader, not serialized behind the first");
    l.release_read(g1);
    l.release_read(g2);
}

#[test]
fn queued_writer_is_never_skipped() {
    let mut l = RwLock::<u32>::new(0);
    let mut r0 = l.read();
    let g0 = r0.poll(&mut l).expect("immediate");
    let mut w = l.write();
    let mut r1 = l.read();
    l.release_read(g0);
    assert!(r1.poll(&mut l).is_none(), "a read queued behind a writer must wait");
    let gw = w.poll(&mut l).expect("queued writer granted first");
    l.release_write(gw);
    let g1 = r1.poll(&mut l).expect("reader granted after the writer");
    l.release_read(g1);
}

#[test]
fn cancelled_read_intent_leaves_queue_clean() {
    let mut l = RwLock::<u32>::new(0);
    let mut w = l.write();
    let gw = w.poll(&mut l).expect("immediate");
    let r = l.read();
    r.cancel(&mut l);
    l.release_write(gw);
    assert!(l.try_write().is_ok(), "lock free after cancelled waiter");
}

#[test]
fn race_between_write_grant_and_drop_forwards_ownership() {
    let mut l = RwLock::<u32>::new(0);
    let mut w1 = l.write();
    let gw = w1.poll(&mut l).expect("immediate");
    let w2 = l.write();
    l.release_write(gw);
    assert!(l.pending_write_grant().is_some(), "grant handed to the queued writer");
    w2.cancel(&mut l);
    assert!(l.pending_write_grant().is_none());
    assert!(l.try_write().is_ok(), "ownership forwarded, lock not leaked");
}

#[test]
fn dropped_immediate_write_releases_ownership() {
    let mut l = RwLock::<u32>::new(0);
    let w = l.write();
    w.cancel(&mut l);
    assert!(l.try_write().is_ok());
}

#[test]
fn dropped_immediate_read_releases_its_admission() {
    let mut l = RwLock::<u32>::new(0);
    let r = l.read();
    r.cancel(&mut l);
    assert!(l.try_write().is_ok(), "reader admission withdrawn on drop");
}

#[test]
fn try_unwrap_and_get_mut_require_sole_handle() {
    let mut l = RwLock::<u32>::new(0);
    *l.get_mut().expect("sole handle") += 9;
    l.handle_cloned();
    assert!(l.get_mut().is_none());
    let mut l = l.try_unwrap().expect_err("two handles");
    l.handle_dropped();
    assert_eq!(l.try_unwrap().ok(), Some(9));
}

#[test]
fn write_guard_carries_the_payload() {
    let mut l = RwLock::<u32>::new(40);
    let mut w = l.write();
    let mut g = w.poll(&mut l).expect("immediate");
    assert_eq!(*g.deref(), 40);
    *g.deref_mut() += 2;
    l.release_write(g);
    w.cancel(&mut l);
    assert_eq!(l.try_unwrap().ok(), Some(42));
}

#[test]
fn try_read_respects_queued_writer() {
    let mut l = RwLock::<u32>::new(0);
    let mut r0 = l.read();
    let g0 = r0.poll(&mut l).expect("immediate");
    let mut w = l.write();
    assert!(l.try_read().is_err(), "reads do not overtake a queued writer");
    l.release_read(g0);
    let gw = w.poll(&mut l).expect("writer granted");
    l.release_write(gw);
}
