use futures_locks::Mutex;

#[test]
fn uncontested_lock_adds_five() {
    let mut m = Mutex::<u32>::new(0);
    let mut f = m.lock();
    let mut g = f.poll(&mut m).expect("immediate acquisition resolves at once");
    *g.deref_mut() += 5;
    m.unlock(g);
    f.cancel(&mut m);
    assert_eq!(m.try_unwrap().ok(), Some(5));
}

#[test]
fn try_lock_on_held_lock_would_block() {
    let mut m = Mutex::<u32>::new(1);
    let g = m.try_lock().expect("free lock");
    assert!(m.try_lock().is_err());
    m.unlock(g);
    assert!(m.try_lock().is_ok());
}

#[test]
fn try_lock_reports_value() {
    let mut m = Mutex::<u32>::new(9);
    let g = m.try_lock().expect("free lock");
    assert_eq!(*g.deref(), 9);
    m.unlock(g);
}

#[test]
fn waiters_resolve_in_fifo_order() {
    let mut m = Mutex::<u32>::new(0);
    let mut fa = m.lock();
    let ga = fa.poll(&mut m).expect("immediate");
    let mut fb = m.lock();
    let mut fc = m.lock();
    m.unlock(ga);
    assert!(fc.poll(&mut m).is_none(), "second waiter must not overtake the first");
    let gb = fb.poll(&mut m).expect("front waiter granted first");
    assert!(fc.poll(&mut m).is_none(), "still held by the first waiter");
    m.unlock(gb);
    let gc = fc.poll(&mut m).expect("second waiter granted next");
    m.unlock(gc);
    fa.cancel(&mut m);
    fb.cancel(&mut m);
    fc.cancel(&mut m);
    assert_eq!(m.try_unwrap().ok(), Some(0));
}

#[test]
fn cancelled_waiter_does_not_leak_the_lock() {
    let mut m = Mutex::<u32>::new(0);
    let mut fa = m.lock();
    let ga = fa.poll(&mut m).expect("immediate");
    let fb = m.lock();
    fb.cancel(&mut m);
    m.unlock(ga);
    assert!(m.try_lock().is_ok(), "lock must stay available after a cancelled waiter");
}

#[test]
fn dropped_immediate_future_releases_ownership() {
    let mut m = Mutex::<u32>::new(0);
    let f = m.lock();
    f.cancel(&mut m);
    assert!(m.try_lock().is_ok(), "unpolled immediate acquisition must release on drop");
}

#[test]
fn race_between_handoff_and_drop_forwards_ownership() {
    let mut m = Mutex::<u32>::new(0);
    let mut fa = m.lock();
    let ga = fa.poll(&mut m).expect("immediate");
    let fb = m.lock();
    let mut fc = m.lock();
    m.unlock(ga);
    assert!(m.pending_handoff().is_some(), "ownership handed to the front waiter");
    fb.cancel(&mut m);
    let gc = fc.poll(&mut m).expect("ownership forwarded to the next waiter");
    m.unlock(gc);
    assert!(m.pending_handoff().is_none());
}

#[test]
fn try_unwrap_requires_sole_handle() {
    let mut m = Mutex::<u32>::new(7);
    m.handle_cloned();
    let mut m = m.try_unwrap().expect_err("two handles outstanding");
    m.handle_dropped();
    assert_eq!(m.try_unwrap().ok(), Some(7));
}

#[test]
fn get_mut_requires_sole_handle_and_writes_are_visible() {
    let mut m = Mutex::<u32>::new(0);
    *m.get_mut().expect("sole handle") += 5;
    m.handle_cloned();
    assert!(m.get_mut().is_none());
    m.handle_dropped();
    assert_eq!(m.try_unwrap().ok(), Some(5));
}
