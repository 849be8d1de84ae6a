//! The exclusive-lock engine.
//!
//! `Mutex<T>` is the shared bookkeeping state of one task-aware mutex: an
//! ownership flag, a FIFO queue of waiter tokens, the single-use hand-off
//! slot through which a releasing holder passes ownership to the front
//! waiter, and the payload slot that an exclusive guard takes the value
//! from.  The embedding runtime keeps this state behind its own short
//! critical section, maps each waiter token to a one-shot wakeup channel,
//! and drives `MutexFut` through the poll contract; every decision is made
//! and proved here.
//!
//! A handle count mirrors the reference count of the runtime's shared
//! pointer: every front-end handle, every pending `MutexFut` and every
//! outstanding `MutexGuard` accounts for exactly one handle, which is what
//! lets `try_unwrap` and `get_mut` conclude from a count of one that no
//! guard or pending acquisition exists.

use vstd::prelude::*;
use std::collections::VecDeque;
use crate::fifo::tokens_below;

verus! {

/// One pending exclusive acquisition.
///
/// * `Immediate`: the lock was free at request time; ownership was marked
///   synchronously and the first poll yields the guard.
/// * `Queued(t)`: the acquisition waits under token `t` until the release
///   protocol hands ownership to `t`.
/// * `Done`: the guard has been yielded; the future is spent.
#[derive(Clone, Copy)]
enum FutState {
    Immediate,
    Queued(u64),
    Done,
}

/// A pending exclusive acquisition of a [`Mutex`].
///
/// The runtime polls it against the mutex it was issued by; when it
/// resolves it yields a [`MutexGuard`].  Discarding it before it resolves
/// must be reported through [`MutexFut::cancel`], which implements the
/// cancellation-safe teardown.
pub struct MutexFut {
    state: FutState,
}

/// RAII-style proof of exclusive access: the guard owns the payload, taken
/// out of the mutex's slot when the acquisition resolved.  Handing it back
/// through [`Mutex::unlock`] runs the release protocol.
pub struct MutexGuard<T> {
    value: T,
}

/// The bookkeeping state of one task-aware exclusive lock.
pub struct Mutex<T> {
    owned: bool,
    waiters: VecDeque<u64>,
    handoff: Option<u64>,
    next_token: u64,
    slot: Option<T>,
    handles: u64,
}

impl<T> View for MutexGuard<T> {
    type V = T;

    closed spec fn view(&self) -> T {
        self.value
    }
}

impl<T> MutexGuard<T> {
    /// Immutable access to the protected value.
    pub fn deref(&self) -> (r: &T)
        ensures
            *r == self@,
    {
        &self.value
    }

    /// Mutable access to the protected value.
    pub fn deref_mut(&mut self) -> (r: &mut T)
        ensures
            *r == old(self)@,
            final(self)@ == *final(r),
    {
        &mut self.value
    }
}

impl MutexFut {
    /// The lock was free at request time and this future holds ownership,
    /// not yet observed by a poll.
    pub closed spec fn is_immediate(&self) -> bool {
        self.state is Immediate
    }

    /// The acquisition is queued under [`MutexFut::token`].
    pub closed spec fn is_queued(&self) -> bool {
        self.state is Queued
    }

    /// The guard has been yielded.
    pub closed spec fn is_done(&self) -> bool {
        self.state is Done
    }

    /// The waiter token of a queued acquisition.
    pub closed spec fn token(&self) -> u64 {
        self.state->Queued_0
    }
}

impl<T> Mutex<T> {
    /// Whether the lock is held: true exactly while a guard is out, a
    /// hand-off is in flight, or an immediate acquisition is unobserved.
    pub closed spec fn owned(&self) -> bool {
        self.owned
    }

    /// The FIFO queue of waiter tokens, front first.
    pub closed spec fn waiters(&self) -> Seq<u64> {
        self.waiters@
    }

    /// The token that the release protocol granted ownership to, until its
    /// future observes the grant or is cancelled.
    pub closed spec fn handoff(&self) -> Option<u64> {
        self.handoff
    }

    /// The payload slot: empty exactly while an exclusive guard is out.
    pub closed spec fn slot(&self) -> Option<T> {
        self.slot
    }

    /// The handle count: one per front-end handle, per pending future and
    /// per outstanding guard.
    pub closed spec fn handles(&self) -> u64 {
        self.handles
    }

    /// The token counter; only its headroom is ever relevant to callers.
    pub closed spec fn next_token(&self) -> u64 {
        self.next_token
    }

    /// Handles pinned by the lock protocol itself: one per queued waiter,
    /// plus the one held by whoever owns the lock.
    pub open spec fn pinned_handles(&self) -> int {
        self.waiters().len() + if self.owned() {
            1int
        } else {
            0int
        }
    }

    /// The engine's invariant.
    ///
    /// * An outstanding guard (empty slot), an in-flight hand-off and a
    ///   non-empty waiter queue each imply the lock is owned.
    /// * A hand-off is granted before the payload is taken, so the slot is
    ///   still full while one is in flight.
    /// * Every queued or granted token was drawn from the token counter.
    /// * The handle count covers every waiter and the current owner.
    pub closed spec fn wf(&self) -> bool {
        &&& (self.slot is None ==> self.owned)
        &&& (self.handoff is Some ==> self.owned)
        &&& (self.waiters@.len() > 0 ==> self.owned)
        &&& (self.handoff is Some ==> self.slot is Some)
        &&& tokens_below(self.waiters@, self.next_token)
        &&& (self.handoff matches Some(t) ==> t < self.next_token)
        &&& self.handles >= self.pinned_handles()
    }

    /// Whether the acquisition represented by `f` is still consistent with
    /// this mutex: an unobserved immediate acquisition holds the lock with
    /// the payload still in the slot, and a queued one is either in the
    /// waiter queue or the subject of the in-flight hand-off.
    pub closed spec fn fut_valid(&self, f: MutexFut) -> bool {
        match f.state {
            FutState::Immediate => self.owned && self.handoff is None && self.slot is Some,
            FutState::Queued(t) => self.waiters@.contains(t) || self.handoff == Some(t),
            FutState::Done => true,
        }
    }

    /// Create a new lock in the unlocked state, holding `t`, with a single
    /// handle.
    pub fn new(t: T) -> (m: Mutex<T>)
        ensures
            m.wf(),
            !m.owned(),
            m.waiters() == Seq::<u64>::empty(),
            m.handoff() is None,
            m.slot() == Some(t),
            m.handles() == 1,
            m.next_token() == 0,
    {
        Mutex {
            owned: false,
            waiters: VecDeque::new(),
            handoff: None,
            next_token: 0,
            slot: Some(t),
            handles: 1,
        }
    }

    /// Record that the runtime cloned a front-end handle.
    pub fn handle_cloned(&mut self)
        requires
            old(self).wf(),
            old(self).handles() < u64::MAX,
        ensures
            final(self).wf(),
            final(self).handles() == old(self).handles() + 1,
            final(self).owned() == old(self).owned(),
            final(self).waiters() == old(self).waiters(),
            final(self).handoff() == old(self).handoff(),
            final(self).slot() == old(self).slot(),
            final(self).next_token() == old(self).next_token(),
            forall|f: MutexFut| old(self).fut_valid(f) ==> final(self).fut_valid(f),
    {
        self.handles = self.handles + 1;
    }

    /// Record that the runtime dropped a plain front-end handle: one not
    /// held by a guard or a pending future, so the count stays above what
    /// the lock protocol has pinned.
    pub fn handle_dropped(&mut self)
        requires
            old(self).wf(),
            old(self).handles() > old(self).pinned_handles(),
        ensures
            final(self).wf(),
            final(self).handles() == old(self).handles() - 1,
            final(self).owned() == old(self).owned(),
            final(self).waiters() == old(self).waiters(),
            final(self).handoff() == old(self).handoff(),
            final(self).slot() == old(self).slot(),
            final(self).next_token() == old(self).next_token(),
            forall|f: MutexFut| old(self).fut_valid(f) ==> final(self).fut_valid(f),
    {
        self.handles = self.handles - 1;
    }

    /// Request exclusive access.  Never fails: if the lock is free the
    /// returned future already holds ownership, otherwise a fresh waiter
    /// token joins the back of the FIFO queue.  The future holds one
    /// handle.
    pub fn lock(&mut self) -> (f: MutexFut)
        requires
            old(self).wf(),
            old(self).handles() < u64::MAX,
            old(self).next_token() < u64::MAX,
        ensures
            final(self).wf(),
            final(self).fut_valid(f),
            !f.is_done(),
            final(self).owned(),
            final(self).handles() == old(self).handles() + 1,
            final(self).handoff() == old(self).handoff(),
            final(self).slot() == old(self).slot(),
            old(self).owned() ==> f.is_queued() && !f.is_immediate()
                && !old(self).waiters().contains(f.token())
                && final(self).waiters() == old(self).waiters().push(f.token())
                && final(self).next_token() == old(self).next_token() + 1,
            !old(self).owned() ==> f.is_immediate() && !f.is_queued()
                && final(self).waiters() == old(self).waiters()
                && final(self).next_token() == old(self).next_token(),
            forall|f2: MutexFut| old(self).fut_valid(f2) ==> final(self).fut_valid(f2),
    {
        self.handles = self.handles + 1;
        if self.owned {
            let t = self.next_token;
            self.next_token = self.next_token + 1;
            self.waiters.push_back(t);
            proof {
                assert(self.waiters@[self.waiters@.len() - 1] == t);
                assert forall|f2: MutexFut| old(self).fut_valid(f2) implies self.fut_valid(
                    f2,
                ) by {
                    if f2.is_queued() && old(self).waiters@.contains(f2.token()) {
                        crate::fifo::lemma_push_keeps_all(old(self).waiters@, t, f2.token());
                    }
                }
            }
            MutexFut { state: FutState::Queued(t) }
        } else {
            self.owned = true;
            MutexFut { state: FutState::Immediate }
        }
    }

    /// Attempt to acquire without waiting.  Fails exactly when the lock is
    /// currently owned; on success the returned guard takes the payload
    /// and holds one handle.
    pub fn try_lock(&mut self) -> (r: Result<MutexGuard<T>, ()>)
        requires
            old(self).wf(),
            old(self).handles() < u64::MAX,
        ensures
            final(self).wf(),
            r is Err <==> old(self).owned(),
            r is Err ==> *final(self) == *old(self),
            r matches Ok(g) ==> g@ == old(self).slot().unwrap()
                && final(self).owned()
                && final(self).slot() is None
                && final(self).handles() == old(self).handles() + 1
                && final(self).waiters() == old(self).waiters()
                && final(self).handoff() is None
                && final(self).next_token() == old(self).next_token(),
            forall|f2: MutexFut| old(self).fut_valid(f2) ==> final(self).fut_valid(f2),
    {
        if self.owned {
            Err(())
        } else {
            self.owned = true;
            self.handles = self.handles + 1;
            let v = self.slot.take();
            match v {
                Some(value) => Ok(MutexGuard { value }),
                None => Err(()),
            }
        }
    }

    /// The token currently granted by the release protocol and not yet
    /// observed, for the runtime to deliver its wakeup signal.
    pub fn pending_handoff(&self) -> (r: Option<u64>)
        ensures
            r == self.handoff(),
    {
        self.handoff
    }

    /// The release protocol, run by the runtime when a guard is dropped.
    ///
    /// The payload returns to the slot.  If waiters are queued, ownership
    /// transfers directly to the front token — the granted waiter will not
    /// re-examine the lock state — otherwise the lock becomes free.
    pub fn unlock(&mut self, g: MutexGuard<T>)
        requires
            old(self).wf(),
            old(self).slot() is None,
        ensures
            final(self).wf(),
            final(self).slot() == Some(g@),
            final(self).handles() == old(self).handles() - 1,
            final(self).next_token() == old(self).next_token(),
            forall|f2: MutexFut| old(self).fut_valid(f2) ==> final(self).fut_valid(f2),
            old(self).waiters().len() > 0 ==> final(self).owned()
                && final(self).handoff() == Some(old(self).waiters()[0])
                && final(self).waiters() == old(self).waiters().drop_first(),
            old(self).waiters().len() == 0 ==> !final(self).owned()
                && final(self).handoff() is None
                && final(self).waiters() == old(self).waiters(),
    {
        let MutexGuard { value } = g;
        self.slot = Some(value);
        self.handles = self.handles - 1;
        self.hand_next();
        proof {
            assert forall|f2: MutexFut| old(self).fut_valid(f2) implies self.fut_valid(f2) by {
                if f2.is_queued() {
                    let t2 = f2.token();
                    if old(self).waiters@.len() > 0 && old(self).waiters@.contains(t2) && t2 != old(
                        self,
                    ).waiters@[0] {
                        crate::fifo::lemma_drop_first_keeps_others(old(self).waiters@, t2);
                    }
                }
            }
        }
    }

    /// Grant ownership to the front waiter, or free the lock if the queue
    /// is empty.
    fn hand_next(&mut self)
        requires
            old(self).owned,
            old(self).handoff is None,
            tokens_below(old(self).waiters@, old(self).next_token),
        ensures
            final(self).slot == old(self).slot,
            final(self).handles == old(self).handles,
            final(self).next_token == old(self).next_token,
            tokens_below(final(self).waiters@, final(self).next_token),
            old(self).waiters@.len() > 0 ==> final(self).owned
                && final(self).handoff == Some(old(self).waiters@[0])
                && final(self).waiters@ == old(self).waiters@.drop_first(),
            old(self).waiters@.len() == 0 ==> !final(self).owned
                && final(self).handoff is None
                && final(self).waiters@ == old(self).waiters@,
    {
        match self.waiters.pop_front() {
            Some(t) => {
                self.handoff = Some(t);
            },
            None => {
                self.owned = false;
            },
        }
    }

    /// Find the first queue position of a waiter token known to be queued.
    fn find_waiter(&self, t: u64) -> (i: usize)
        requires
            self.waiters@.contains(t),
        ensures
            0 <= i < self.waiters@.len(),
            self.waiters@[i as int] == t,
            forall|j: int| 0 <= j < i ==> self.waiters@[j] != t,
    {
        let mut i: usize = 0;
        loop
            invariant
                self.waiters@.contains(t),
                0 <= i <= self.waiters@.len(),
                forall|j: int| 0 <= j < i ==> self.waiters@[j] != t,
            decreases self.waiters@.len() - i,
        {
            if i < self.waiters.len() {
                if self.waiters[i] == t {
                    return i;
                }
                i = i + 1;
            } else {
                proof {
                    let w = choose|k: int| 0 <= k < self.waiters@.len() && self.waiters@[k] == t;
                    assert(self.waiters@[w] != t);
                    assert(false);
                }
            }
        }
    }

    /// Access the payload directly, bypassing the lock: permitted exactly
    /// when this is the sole handle, which proves that no guard and no
    /// pending acquisition exists, and therefore that the lock is free and
    /// the slot full.  The caller's exclusive borrow of the sole handle is
    /// what justifies the precondition: every guard and pending future
    /// holds a handle of its own.
    pub fn get_mut(&mut self) -> (r: Option<&mut T>)
        requires
            old(self).wf(),
            old(self).handles() == 1 ==> !old(self).owned(),
        ensures
            r is Some <==> old(self).handles() == 1,
            r is None ==> *final(self) == *old(self),
            r matches Some(v) ==> *v == old(self).slot().unwrap()
                && final(self).slot() == Some(*final(v))
                && final(self).wf()
                && !final(self).owned()
                && final(self).waiters() == old(self).waiters()
                && final(self).handoff() is None
                && final(self).handles() == old(self).handles(),
    {
        if self.handles == 1 {
            match &mut self.slot {
                Some(v) => Some(v),
                None => None,
            }
        } else {
            None
        }
    }

    /// Consume this handle.  If it is the sole handle — proving, as for
    /// [`Mutex::get_mut`], that no guard or pending acquisition exists —
    /// the payload is returned; otherwise the lock comes back untouched.
    pub fn try_unwrap(self) -> (r: Result<T, Mutex<T>>)
        requires
            self.wf(),
            self.handles() == 1 ==> !self.owned(),
        ensures
            r is Ok <==> self.handles() == 1,
            r matches Ok(v) ==> Some(v) == self.slot(),
            r matches Err(m) ==> m == self,
    {
        if self.handles == 1 {
            let Mutex { owned, waiters, handoff, next_token, slot, handles } = self;
            match slot {
                Some(v) => Ok(v),
                None => Err(Mutex { owned, waiters, handoff, next_token, slot: None, handles }),
            }
        } else {
            Err(self)
        }
    }
}

impl MutexFut {
    /// The waiter token to which the runtime should attach this future's
    /// wakeup channel, if the acquisition was queued.
    pub fn queued_token(&self) -> (r: Option<u64>)
        ensures
            r == if self.is_queued() {
                Some(self.token())
            } else {
                None::<u64>
            },
    {
        match self.state {
            FutState::Queued(t) => Some(t),
            _ => None,
        }
    }

    /// One poll step against the issuing mutex.
    ///
    /// An immediate acquisition resolves at once.  A queued one resolves
    /// exactly when the release protocol has handed ownership to its
    /// token; otherwise the state is untouched and the caller suspends.
    /// The yielded guard takes the payload and holds one handle.
    pub fn poll<T>(&mut self, m: &mut Mutex<T>) -> (r: Option<MutexGuard<T>>)
        requires
            old(m).wf(),
            old(m).fut_valid(*old(self)),
            !old(self).is_done(),
            old(m).handles() < u64::MAX,
        ensures
            final(m).wf(),
            final(m).fut_valid(*final(self)),
            r is Some ==> final(self).is_done() && !final(self).is_immediate()
                && !final(self).is_queued(),
            r is None ==> *final(self) == *old(self) && *final(m) == *old(m),
            old(self).is_immediate() ==> r is Some,
            old(self).is_queued() ==> (r is Some <==> old(m).handoff() == Some(
                old(self).token(),
            )),
            r matches Some(g) ==> g@ == old(m).slot().unwrap()
                && final(m).owned()
                && final(m).slot() is None
                && final(m).handoff() is None
                && final(m).handles() == old(m).handles() + 1
                && final(m).waiters() == old(m).waiters()
                && final(m).next_token() == old(m).next_token(),
            forall|f2: MutexFut|
                old(m).fut_valid(f2)
                && (old(self).is_immediate() ==> !f2.is_immediate())
                && (old(self).is_queued() && f2.is_queued() ==> f2.token() != old(self).token())
                ==> final(m).fut_valid(f2),
    {
        match self.state {
            FutState::Immediate => {
                self.state = FutState::Done;
                m.handles = m.handles + 1;
                let v = m.slot.take();
                match v {
                    Some(value) => Some(MutexGuard { value }),
                    None => None,
                }
            },
            FutState::Queued(t) => {
                let granted = match m.handoff {
                    Some(h) => h == t,
                    None => false,
                };
                if granted {
                    m.handoff = None;
                    self.state = FutState::Done;
                    m.handles = m.handles + 1;
                    let v = m.slot.take();
                    match v {
                        Some(value) => Some(MutexGuard { value }),
                        None => None,
                    }
                } else {
                    None
                }
            },
            FutState::Done => None,
        }
    }

    /// The cancellation-safe teardown, run by the runtime when the future
    /// is discarded.  The future's handle is released, and:
    ///
    /// * a spent future needs nothing more;
    /// * an unobserved immediate acquisition already holds ownership, so
    ///   the release protocol runs — otherwise the lock would leak with no
    ///   observer;
    /// * a queued acquisition whose token has already been granted in a
    ///   race between hand-off and drop forwards ownership by running the
    ///   release protocol — failing to do so would be a permanent
    ///   deadlock;
    /// * a queued acquisition never granted is a true cancellation: its
    ///   token leaves the queue and nothing is released.
    pub fn cancel<T>(self, m: &mut Mutex<T>)
        requires
            old(m).wf(),
            old(m).fut_valid(self),
            old(m).handles() >= 1,
            self.is_done() ==> old(m).handles() > old(m).pinned_handles(),
        ensures
            final(m).wf(),
            final(m).handles() == old(m).handles() - 1,
            final(m).next_token() == old(m).next_token(),
            forall|f2: MutexFut|
                old(m).fut_valid(f2)
                && (self.is_immediate() ==> !f2.is_immediate())
                && (self.is_queued() && f2.is_queued() ==> f2.token() != self.token())
                ==> final(m).fut_valid(f2),
            self.is_done() ==> final(m).owned() == old(m).owned()
                && final(m).waiters() == old(m).waiters()
                && final(m).handoff() == old(m).handoff()
                && final(m).slot() == old(m).slot(),
            self.is_immediate() || (self.is_queued() && old(m).handoff() == Some(self.token()))
                ==> final(m).slot() == old(m).slot()
                && (old(m).waiters().len() > 0 ==> final(m).owned()
                    && final(m).handoff() == Some(old(m).waiters()[0])
                    && final(m).waiters() == old(m).waiters().drop_first())
                && (old(m).waiters().len() == 0 ==> !final(m).owned()
                    && final(m).handoff() is None
                    && final(m).waiters() == old(m).waiters()),
            self.is_queued() && old(m).handoff() != Some(self.token())
                ==> final(m).owned() == old(m).owned()
                && final(m).handoff() == old(m).handoff()
                && final(m).slot() == old(m).slot()
                && (exists|i: int|
                    0 <= i < old(m).waiters().len()
                    && old(m).waiters()[i] == self.token()
                    && (forall|j: int| 0 <= j < i ==> old(m).waiters()[j] != self.token())
                    && final(m).waiters() == old(m).waiters().remove(i)),
    {
        match self.state {
            FutState::Done => {
                m.handles = m.handles - 1;
            },
            FutState::Immediate => {
                m.handles = m.handles - 1;
                m.hand_next();
                proof {
                    assert forall|f2: MutexFut|
                        old(m).fut_valid(f2) && !f2.is_immediate() implies m.fut_valid(f2) by {
                        if f2.is_queued() {
                            let t2 = f2.token();
                            if old(m).waiters@.len() > 0 && old(m).waiters@.contains(t2) && t2
                                != old(m).waiters@[0] {
                                crate::fifo::lemma_drop_first_keeps_others(old(m).waiters@, t2);
                            }
                        }
                    }
                }
            },
            FutState::Queued(t) => {
                let granted = match m.handoff {
                    Some(h) => h == t,
                    None => false,
                };
                if granted {
                    m.handoff = None;
                    m.handles = m.handles - 1;
                    m.hand_next();
                    proof {
                        assert forall|f2: MutexFut|
                            old(m).fut_valid(f2) && (f2.is_queued() ==> f2.token()
                                != t) implies m.fut_valid(f2) by {
                            if f2.is_queued() {
                                let t2 = f2.token();
                                if old(m).waiters@.len() > 0 && old(m).waiters@.contains(t2) && t2
                                    != old(m).waiters@[0] {
                                    crate::fifo::lemma_drop_first_keeps_others(
                                        old(m).waiters@,
                                        t2,
                                    );
                                }
                            }
                        }
                    }
                } else {
                    let i = m.find_waiter(t);
                    m.waiters.remove(i);
                    m.handles = m.handles - 1;
                    proof {
                        let gi = i as int;
                        assert forall|k: int|
                            0 <= k < m.waiters@.len() implies m.waiters@[k]
                            < m.next_token by {
                            if k < gi {
                                assert(m.waiters@[k] == old(m).waiters@[k]);
                            } else {
                                assert(m.waiters@[k] == old(m).waiters@[k + 1]);
                            }
                        }
                        assert(0 <= gi < old(m).waiters().len()
                            && old(m).waiters()[gi] == self.token()
                            && (forall|j: int| 0 <= j < gi ==> old(m).waiters()[j] != self.token())
                            && m.waiters@ == old(m).waiters().remove(gi));
                        assert forall|f2: MutexFut|
                            old(m).fut_valid(f2) && (f2.is_queued() ==> f2.token()
                                != t) implies m.fut_valid(f2) by {
                            if f2.is_queued() {
                                let t2 = f2.token();
                                if old(m).waiters@.contains(t2) {
                                    crate::fifo::lemma_remove_keeps_others(
                                        old(m).waiters@,
                                        gi,
                                        t2,
                                    );
                                }
                            }
                        }
                    }
                }
            },
        }
    }
}

/// Exclusion: whenever an exclusive guard is outstanding (the payload slot
/// is empty), the lock is owned and no hand-off is in flight, so neither
/// `try_lock` nor any poll of a pending future can yield a second guard.
pub proof fn lemma_exclusive_guard_excludes_grant<T>(m: Mutex<T>)
    requires
        m.wf(),
        m.slot() is None,
    ensures
        m.owned(),
        m.handoff() is None,
        forall|f: MutexFut| m.fut_valid(f) && f.is_immediate() ==> false,
{
}

/// The reference-count gate behind `try_unwrap` and `get_mut`: a sole,
/// freely held handle proves the lock idle — no waiters, no hand-off, the
/// payload in its slot.
pub proof fn lemma_sole_handle_idle<T>(m: Mutex<T>)
    requires
        m.wf(),
        m.handles() == 1,
        !m.owned(),
    ensures
        m.waiters().len() == 0,
        m.handoff() is None,
        m.slot() is Some,
{
}

} // verus!
