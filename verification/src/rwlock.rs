//! The shared/exclusive lock engine.
//!
//! `RwLock<T>` extends the exclusive engine of [`crate::mutex`] with an
//! active-reader count and a FIFO queue of typed intents: each queued
//! waiter declares itself a reader or a writer.  The grant step serves the
//! front of the queue; when the front is a reader intent, every contiguous
//! reader intent behind it is granted in the same batch, so concurrently
//! queued readers resolve together instead of one by one, while a writer
//! intent keeps its own FIFO slot and is never skipped over.
//!
//! Acquisitions are granted immediately only when they are uncontested: a
//! read while no writer is active and nobody is queued, a write while the
//! lock is completely idle.  Anything else joins the queue, which bounds
//! writer starvation.

use vstd::prelude::*;
use std::collections::VecDeque;

verus! {

/// One queued acquisition intent, tagged with its waiter token.
#[derive(Clone, Copy, PartialEq, Eq, Structural)]
pub enum Intent {
    Read(u64),
    Write(u64),
}

/// The waiter token carried by an intent.
pub open spec fn intent_token(i: Intent) -> u64 {
    match i {
        Intent::Read(t) => t,
        Intent::Write(t) => t,
    }
}

/// Every queued intent's token was drawn before `bound`.
pub open spec fn intents_below(q: Seq<Intent>, bound: u64) -> bool {
    forall|i: int| 0 <= i < q.len() ==> intent_token(q[i]) < bound
}

/// The waiter tokens of a queue of intents, in queue order.
pub open spec fn intent_tokens(q: Seq<Intent>) -> Seq<u64> {
    q.map_values(|i: Intent| intent_token(i))
}

/// The length of the maximal prefix of reader intents at the front of the
/// queue: the batch that a grant step releases together.
pub open spec fn read_prefix(q: Seq<Intent>) -> int
    decreases q.len(),
{
    if q.len() == 0 || !(q[0] is Read) {
        0
    } else {
        1 + read_prefix(q.drop_first())
    }
}

/// Shape of the reader batch: it never overruns the queue, consists of
/// reader intents only, and stops exactly at the first writer intent.
pub proof fn lemma_read_prefix(q: Seq<Intent>)
    ensures
        0 <= read_prefix(q) <= q.len(),
        forall|j: int| 0 <= j < read_prefix(q) ==> q[j] is Read,
        read_prefix(q) < q.len() ==> q[read_prefix(q)] is Write,
    decreases q.len(),
{
    if q.len() > 0 && q[0] is Read {
        lemma_read_prefix(q.drop_first());
        assert forall|j: int| 0 <= j < read_prefix(q) implies q[j] is Read by {
            if j > 0 {
                assert(q.drop_first()[j - 1] == q[j]);
            }
        }
        if read_prefix(q) < q.len() {
            assert(q.drop_first()[read_prefix(q) - 1] == q[read_prefix(q)]);
        }
    } else if q.len() > 0 {
        assert(q[0] is Write);
    }
}

/// One grant step loses no waiter: a queued intent either stays queued
/// or is the one granted — a reader into the granted batch, a writer into
/// the write grant.
pub proof fn lemma_grant_keeps_waiter(q: Seq<Intent>, w: Intent)
    requires
        q.contains(w),
    ensures
        w is Read ==> queue_after(q).contains(w) || reads_granted(q).contains(intent_token(w)),
        w is Write ==> queue_after(q).contains(w) || write_granted(q) == Some(intent_token(w)),
{
    lemma_read_prefix(q);
    let j = choose|j: int| 0 <= j < q.len() && q[j] == w;
    if q[0] is Write {
        if j > 0 {
            assert(q.drop_first()[j - 1] == w);
        }
    } else {
        let rp = read_prefix(q);
        if j < rp {
            assert(q.subrange(0, rp)[j] == w);
            assert(intent_tokens(q.subrange(0, rp))[j] == intent_token(w));
        } else {
            assert(q.skip(rp)[j - rp] == w);
        }
    }
}

/// The waiter queue left behind by one grant step.
pub open spec fn queue_after(q: Seq<Intent>) -> Seq<Intent> {
    if q.len() == 0 {
        q
    } else if q[0] is Write {
        q.drop_first()
    } else {
        q.skip(read_prefix(q))
    }
}

/// The reader tokens released together by one grant step: the whole
/// contiguous reader batch at the front of the queue, or nothing when the
/// front is a writer or the queue is empty.
pub open spec fn reads_granted(q: Seq<Intent>) -> Seq<u64> {
    if q.len() > 0 && q[0] is Read {
        intent_tokens(q.subrange(0, read_prefix(q)))
    } else {
        Seq::empty()
    }
}

/// The writer token granted by one grant step, if the front is a writer.
pub open spec fn write_granted(q: Seq<Intent>) -> Option<u64> {
    if q.len() > 0 && q[0] is Write {
        Some(intent_token(q[0]))
    } else {
        None
    }
}

/// Whether one grant step leaves the lock writer-held.
pub open spec fn writer_after(q: Seq<Intent>) -> bool {
    q.len() > 0 && q[0] is Write
}

/// One pending acquisition, shared shape of the read and write futures.
#[derive(Clone, Copy)]
enum FutState {
    Immediate,
    Queued(u64),
    Done,
}

/// A pending shared (read) acquisition of an [`RwLock`].
pub struct RwLockReadFut {
    state: FutState,
}

/// A pending exclusive (write) acquisition of an [`RwLock`].
pub struct RwLockWriteFut {
    state: FutState,
}

/// RAII-style proof of shared read access.  The payload stays in the
/// lock's slot while readers are out; it is borrowed through
/// [`RwLock::read_shared`].  Handing the guard back through
/// [`RwLock::release_read`] decrements the reader count and, when it was
/// the last reader, runs the grant step.
pub struct RwLockReadGuard {
    #[allow(dead_code)]
    token: u64,
}

/// RAII-style proof of exclusive write access: owns the payload, taken out
/// of the lock's slot.  Handing it back through [`RwLock::release_write`]
/// runs the grant step.
pub struct RwLockWriteGuard<T> {
    value: T,
}

/// The bookkeeping state of one task-aware shared/exclusive lock.
pub struct RwLock<T> {
    reading: u64,
    writing: bool,
    waiters: VecDeque<Intent>,
    granted_reads: Vec<u64>,
    granted_write: Option<u64>,
    next_token: u64,
    slot: Option<T>,
    handles: u64,
}

impl<T> View for RwLockWriteGuard<T> {
    type V = T;

    closed spec fn view(&self) -> T {
        self.value
    }
}

impl<T> RwLockWriteGuard<T> {
    /// Immutable access to the protected value.
    pub fn deref(&self) -> (r: &T)
        ensures
            *r == self@,
    {
        &self.value
    }

    /// Mutable access to the protected value.
    pub fn deref_mut(&mut self) -> (r: &mut T)
        ensures
            *r == old(self)@,
            final(self)@ == *final(r),
    {
        &mut self.value
    }
}

impl RwLockReadFut {
    /// The lock admitted this reader at request time; the grant is not yet
    /// observed by a poll.
    pub closed spec fn is_immediate(&self) -> bool {
        self.state is Immediate
    }

    /// The acquisition is queued under [`RwLockReadFut::token`].
    pub closed spec fn is_queued(&self) -> bool {
        self.state is Queued
    }

    /// The guard has been yielded.
    pub closed spec fn is_done(&self) -> bool {
        self.state is Done
    }

    /// The waiter token of a queued acquisition.
    pub closed spec fn token(&self) -> u64 {
        self.state->Queued_0
    }
}

impl RwLockWriteFut {
    /// The lock was idle at request time and this future holds write
    /// ownership, not yet observed by a poll.
    pub closed spec fn is_immediate(&self) -> bool {
        self.state is Immediate
    }

    /// The acquisition is queued under [`RwLockWriteFut::token`].
    pub closed spec fn is_queued(&self) -> bool {
        self.state is Queued
    }

    /// The guard has been yielded.
    pub closed spec fn is_done(&self) -> bool {
        self.state is Done
    }

    /// The waiter token of a queued acquisition.
    pub closed spec fn token(&self) -> u64 {
        self.state->Queued_0
    }
}

impl<T> RwLock<T> {
    /// The number of admitted readers: outstanding read guards plus
    /// immediate read acquisitions not yet observed by a poll.
    pub closed spec fn active_readers(&self) -> u64 {
        self.reading
    }

    /// Whether a writer holds the lock: true exactly while a write guard
    /// is out, a write hand-off is in flight, or an immediate write
    /// acquisition is unobserved.
    pub closed spec fn writer_active(&self) -> bool {
        self.writing
    }

    /// The FIFO queue of typed waiter intents, front first.
    pub closed spec fn waiters(&self) -> Seq<Intent> {
        self.waiters@
    }

    /// Reader tokens granted by the grant step and not yet observed by
    /// their futures.
    pub closed spec fn granted_reads(&self) -> Seq<u64> {
        self.granted_reads@
    }

    /// The writer token granted by the grant step, until its future
    /// observes the grant or is cancelled.
    pub closed spec fn granted_write(&self) -> Option<u64> {
        self.granted_write
    }

    /// The payload slot: empty exactly while a write guard is out.
    pub closed spec fn slot(&self) -> Option<T> {
        self.slot
    }

    /// The handle count: one per front-end handle, per pending future and
    /// per outstanding guard.
    pub closed spec fn handles(&self) -> u64 {
        self.handles
    }

    /// The token counter; only its headroom is ever relevant to callers.
    pub closed spec fn next_token(&self) -> u64 {
        self.next_token
    }

    /// Handles pinned by the lock protocol itself: one per queued waiter,
    /// per unobserved granted reader, per admitted reader, and one for the
    /// active writer.
    pub open spec fn pinned_handles(&self) -> int {
        self.waiters().len() + self.granted_reads().len() + self.active_readers()
            + if self.writer_active() {
            1int
        } else {
            0int
        }
    }

    /// The engine's invariant.
    ///
    /// * A writer and admitted or granted readers never coexist.
    /// * A granted write hand-off and an outstanding write guard (empty
    ///   slot) each count as an active writer, and the payload is taken
    ///   only when the guard is yielded.
    /// * Waiters queue only while the lock is busy.
    /// * Every token in play was drawn from the token counter.
    /// * The handle count covers everything the protocol has pinned.
    pub closed spec fn wf(&self) -> bool {
        &&& (self.writing ==> self.reading == 0 && self.granted_reads@.len() == 0)
        &&& (self.granted_write is Some ==> self.writing)
        &&& (self.slot is None ==> self.writing && self.granted_write is None)
        &&& (self.waiters@.len() > 0 ==> self.writing || self.reading > 0
            || self.granted_reads@.len() > 0)
        &&& intents_below(self.waiters@, self.next_token)
        &&& (forall|i: int|
            0 <= i < self.granted_reads@.len() ==> self.granted_reads@[i] < self.next_token)
        &&& (self.granted_write matches Some(t) ==> t < self.next_token)
        &&& self.handles >= self.pinned_handles()
    }

    /// Whether a pending read acquisition is still consistent with this
    /// lock.
    pub closed spec fn read_fut_valid(&self, f: RwLockReadFut) -> bool {
        match f.state {
            FutState::Immediate => self.reading >= 1 && !self.writing,
            FutState::Queued(t) => self.waiters@.contains(Intent::Read(t))
                || self.granted_reads@.contains(t),
            FutState::Done => true,
        }
    }

    /// Whether a pending write acquisition is still consistent with this
    /// lock.
    pub closed spec fn write_fut_valid(&self, f: RwLockWriteFut) -> bool {
        match f.state {
            FutState::Immediate => self.writing && self.granted_write is None
                && self.slot is Some,
            FutState::Queued(t) => self.waiters@.contains(Intent::Write(t))
                || self.granted_write == Some(t),
            FutState::Done => true,
        }
    }

    /// Whether a shared acquisition is uncontested: no active writer and
    /// an empty queue (queued writers are never skipped over).
    pub open spec fn read_uncontested(&self) -> bool {
        !self.writer_active() && self.waiters().len() == 0
    }

    /// Whether an exclusive acquisition is uncontested: the lock is
    /// completely idle.
    pub open spec fn write_uncontested(&self) -> bool {
        !self.writer_active() && self.active_readers() == 0 && self.granted_reads().len() == 0
            && self.waiters().len() == 0
    }

    /// Create a new lock in the idle state, holding `t`, with a single
    /// handle.
    pub fn new(t: T) -> (l: RwLock<T>)
        ensures
            l.wf(),
            !l.writer_active(),
            l.active_readers() == 0,
            l.waiters() == Seq::<Intent>::empty(),
            l.granted_reads() == Seq::<u64>::empty(),
            l.granted_write() is None,
            l.slot() == Some(t),
            l.handles() == 1,
            l.next_token() == 0,
    {
        RwLock {
            reading: 0,
            writing: false,
            waiters: VecDeque::new(),
            granted_reads: Vec::new(),
            granted_write: None,
            next_token: 0,
            slot: Some(t),
            handles: 1,
        }
    }

    /// Record that the runtime cloned a front-end handle.
    pub fn handle_cloned(&mut self)
        requires
            old(self).wf(),
            old(self).handles() < u64::MAX,
        ensures
            final(self).wf(),
            final(self).handles() == old(self).handles() + 1,
            final(self).writer_active() == old(self).writer_active(),
            final(self).active_readers() == old(self).active_readers(),
            final(self).waiters() == old(self).waiters(),
            final(self).granted_reads() == old(self).granted_reads(),
            final(self).granted_write() == old(self).granted_write(),
            final(self).slot() == old(self).slot(),
            final(self).next_token() == old(self).next_token(),
            forall|f2: RwLockReadFut|
                old(self).read_fut_valid(f2) ==> final(self).read_fut_valid(f2),
            forall|f2: RwLockWriteFut|
                old(self).write_fut_valid(f2) ==> final(self).write_fut_valid(f2),
    {
        self.handles = self.handles + 1;
    }

    /// Record that the runtime dropped a plain front-end handle: one not
    /// held by a guard or a pending future.
    pub fn handle_dropped(&mut self)
        requires
            old(self).wf(),
            old(self).handles() > old(self).pinned_handles(),
        ensures
            final(self).wf(),
            final(self).handles() == old(self).handles() - 1,
            final(self).writer_active() == old(self).writer_active(),
            final(self).active_readers() == old(self).active_readers(),
            final(self).waiters() == old(self).waiters(),
            final(self).granted_reads() == old(self).granted_reads(),
            final(self).granted_write() == old(self).granted_write(),
            final(self).slot() == old(self).slot(),
            final(self).next_token() == old(self).next_token(),
            forall|f2: RwLockReadFut|
                old(self).read_fut_valid(f2) ==> final(self).read_fut_valid(f2),
            forall|f2: RwLockWriteFut|
                old(self).write_fut_valid(f2) ==> final(self).write_fut_valid(f2),
    {
        self.handles = self.handles - 1;
    }

    /// Request shared read access.  Never fails: an uncontested read is
    /// admitted at once, anything else joins the back of the intent queue
    /// under a fresh token.  The future holds one handle.
    pub fn read(&mut self) -> (f: RwLockReadFut)
        requires
            old(self).wf(),
            old(self).handles() < u64::MAX,
            old(self).next_token() < u64::MAX,
        ensures
            final(self).wf(),
            final(self).read_fut_valid(f),
            !f.is_done(),
            final(self).handles() == old(self).handles() + 1,
            final(self).slot() == old(self).slot(),
            final(self).granted_reads() == old(self).granted_reads(),
            final(self).granted_write() == old(self).granted_write(),
            final(self).writer_active() == old(self).writer_active(),
            old(self).read_uncontested() ==> f.is_immediate() && !f.is_queued()
                && final(self).active_readers() == old(self).active_readers() + 1
                && final(self).waiters() == old(self).waiters()
                && final(self).next_token() == old(self).next_token(),
            !old(self).read_uncontested() ==> f.is_queued() && !f.is_immediate()
                && !old(self).waiters().contains(Intent::Read(f.token()))
                && final(self).waiters() == old(self).waiters().push(Intent::Read(f.token()))
                && final(self).active_readers() == old(self).active_readers()
                && final(self).next_token() == old(self).next_token() + 1,
            forall|f2: RwLockReadFut|
                old(self).read_fut_valid(f2) ==> final(self).read_fut_valid(f2),
            forall|f2: RwLockWriteFut|
                old(self).write_fut_valid(f2) ==> final(self).write_fut_valid(f2),
    {
        self.handles = self.handles + 1;
        if !self.writing && self.waiters.len() == 0 {
            self.reading = self.reading + 1;
            RwLockReadFut { state: FutState::Immediate }
        } else {
            let t = self.next_token;
            self.next_token = self.next_token + 1;
            self.waiters.push_back(Intent::Read(t));
            proof {
                assert(self.waiters@[self.waiters@.len() - 1] == Intent::Read(t));
                assert forall|f2: RwLockReadFut|
                    old(self).read_fut_valid(f2) implies self.read_fut_valid(f2) by {
                    if f2.is_queued() && old(self).waiters@.contains(Intent::Read(f2.token())) {
                        crate::fifo::lemma_push_keeps_all(
                            old(self).waiters@,
                            Intent::Read(t),
                            Intent::Read(f2.token()),
                        );
                    }
                }
                assert forall|f2: RwLockWriteFut|
                    old(self).write_fut_valid(f2) implies self.write_fut_valid(f2) by {
                    if f2.is_queued() && old(self).waiters@.contains(Intent::Write(f2.token())) {
                        crate::fifo::lemma_push_keeps_all(
                            old(self).waiters@,
                            Intent::Read(t),
                            Intent::Write(f2.token()),
                        );
                    }
                }
            }
            RwLockReadFut { state: FutState::Queued(t) }
        }
    }

    /// Request exclusive write access.  Never fails: an uncontested write
    /// is granted at once, anything else joins the back of the intent
    /// queue under a fresh token.  The future holds one handle.
    pub fn write(&mut self) -> (f: RwLockWriteFut)
        requires
            old(self).wf(),
            old(self).handles() < u64::MAX,
            old(self).next_token() < u64::MAX,
        ensures
            final(self).wf(),
            final(self).write_fut_valid(f),
            !f.is_done(),
            final(self).handles() == old(self).handles() + 1,
            final(self).slot() == old(self).slot(),
            final(self).granted_reads() == old(self).granted_reads(),
            final(self).granted_write() == old(self).granted_write(),
            final(self).active_readers() == old(self).active_readers(),
            old(self).write_uncontested() ==> f.is_immediate() && !f.is_queued()
                && final(self).writer_active()
                && final(self).waiters() == old(self).waiters()
                && final(self).next_token() == old(self).next_token(),
            !old(self).write_uncontested() ==> f.is_queued() && !f.is_immediate()
                && !old(self).waiters().contains(Intent::Write(f.token()))
                && final(self).waiters() == old(self).waiters().push(Intent::Write(f.token()))
                && final(self).writer_active() == old(self).writer_active()
                && final(self).next_token() == old(self).next_token() + 1,
            forall|f2: RwLockReadFut|
                old(self).read_fut_valid(f2) ==> final(self).read_fut_valid(f2),
            forall|f2: RwLockWriteFut|
                old(self).write_fut_valid(f2) ==> final(self).write_fut_valid(f2),
    {
        self.handles = self.handles + 1;
        if !self.writing && self.reading == 0 && self.granted_reads.len() == 0
            && self.waiters.len() == 0 {
            self.writing = true;
            RwLockWriteFut { state: FutState::Immediate }
        } else {
            let t = self.next_token;
            self.next_token = self.next_token + 1;
            self.waiters.push_back(Intent::Write(t));
            proof {
                assert(self.waiters@[self.waiters@.len() - 1] == Intent::Write(t));
                assert forall|f2: RwLockReadFut|
                    old(self).read_fut_valid(f2) implies self.read_fut_valid(f2) by {
                    if f2.is_queued() && old(self).waiters@.contains(Intent::Read(f2.token())) {
                        crate::fifo::lemma_push_keeps_all(
                            old(self).waiters@,
                            Intent::Write(t),
                            Intent::Read(f2.token()),
                        );
                    }
                }
                assert forall|f2: RwLockWriteFut|
                    old(self).write_fut_valid(f2) implies self.write_fut_valid(f2) by {
                    if f2.is_queued() && old(self).waiters@.contains(Intent::Write(f2.token())) {
                        crate::fifo::lemma_push_keeps_all(
                            old(self).waiters@,
                            Intent::Write(t),
                            Intent::Write(f2.token()),
                        );
                    }
                }
            }
            RwLockWriteFut { state: FutState::Queued(t) }
        }
    }

    /// Attempt shared read access without waiting.  Fails exactly when the
    /// read would be contested; on success the guard is admitted as a
    /// reader and holds one handle.
    pub fn try_read(&mut self) -> (r: Result<RwLockReadGuard, ()>)
        requires
            old(self).wf(),
            old(self).handles() < u64::MAX,
        ensures
            final(self).wf(),
            r is Err <==> !old(self).read_uncontested(),
            r is Err ==> *final(self) == *old(self),
            r is Ok ==> final(self).active_readers() == old(self).active_readers() + 1
                && final(self).handles() == old(self).handles() + 1
                && final(self).waiters() == old(self).waiters()
                && final(self).granted_reads() == old(self).granted_reads()
                && final(self).granted_write() == old(self).granted_write()
                && !final(self).writer_active()
                && final(self).slot() == old(self).slot()
                && final(self).next_token() == old(self).next_token(),
            forall|f2: RwLockReadFut|
                old(self).read_fut_valid(f2) ==> final(self).read_fut_valid(f2),
            forall|f2: RwLockWriteFut|
                old(self).write_fut_valid(f2) ==> final(self).write_fut_valid(f2),
    {
        if !self.writing && self.waiters.len() == 0 {
            self.reading = self.reading + 1;
            self.handles = self.handles + 1;
            Ok(RwLockReadGuard { token: 0 })
        } else {
            Err(())
        }
    }

    /// Attempt exclusive write access without waiting.  Fails exactly when
    /// the lock is not idle; on success the guard takes the payload and
    /// holds one handle.
    pub fn try_write(&mut self) -> (r: Result<RwLockWriteGuard<T>, ()>)
        requires
            old(self).wf(),
            old(self).handles() < u64::MAX,
        ensures
            final(self).wf(),
            r is Err <==> !old(self).write_uncontested(),
            r is Err ==> *final(self) == *old(self),
            r matches Ok(g) ==> g@ == old(self).slot().unwrap()
                && final(self).writer_active()
                && final(self).slot() is None
                && final(self).handles() == old(self).handles() + 1
                && final(self).waiters() == old(self).waiters()
                && final(self).granted_reads() == old(self).granted_reads()
                && final(self).granted_write() is None
                && final(self).active_readers() == 0
                && final(self).next_token() == old(self).next_token(),
            forall|f2: RwLockReadFut|
                old(self).read_fut_valid(f2) ==> final(self).read_fut_valid(f2),
            forall|f2: RwLockWriteFut|
                old(self).write_fut_valid(f2) ==> final(self).write_fut_valid(f2),
    {
        if !self.writing && self.reading == 0 && self.granted_reads.len() == 0
            && self.waiters.len() == 0 {
            self.writing = true;
            self.handles = self.handles + 1;
            let v = self.slot.take();
            match v {
                Some(value) => Ok(RwLockWriteGuard { value }),
                None => Err(()),
            }
        } else {
            Err(())
        }
    }

    /// Find the first position of a granted reader token, if any.
    fn find_granted(&self, t: u64) -> (r: Option<usize>)
        ensures
            r matches Some(i) ==> 0 <= i < self.granted_reads@.len()
                && self.granted_reads@[i as int] == t
                && (forall|j: int| 0 <= j < i ==> self.granted_reads@[j] != t),
            r is None ==> !self.granted_reads@.contains(t),
    {
        let mut i: usize = 0;
        while i < self.granted_reads.len()
            invariant
                0 <= i <= self.granted_reads@.len(),
                forall|j: int| 0 <= j < i ==> self.granted_reads@[j] != t,
            decreases self.granted_reads@.len() - i,
        {
            if self.granted_reads[i] == t {
                return Some(i);
            }
            i = i + 1;
        }
        None
    }

    /// Find the first queue position of an intent known to be queued.
    fn find_intent(&self, w: Intent) -> (i: usize)
        requires
            self.waiters@.contains(w),
        ensures
            0 <= i < self.waiters@.len(),
            self.waiters@[i as int] == w,
            forall|j: int| 0 <= j < i ==> self.waiters@[j] != w,
    {
        let mut i: usize = 0;
        loop
            invariant
                self.waiters@.contains(w),
                0 <= i <= self.waiters@.len(),
                forall|j: int| 0 <= j < i ==> self.waiters@[j] != w,
            decreases self.waiters@.len() - i,
        {
            if i < self.waiters.len() {
                if self.waiters[i] == w {
                    return i;
                }
                i = i + 1;
            } else {
                proof {
                    let x = choose|k: int| 0 <= k < self.waiters@.len() && self.waiters@[k] == w;
                    assert(self.waiters@[x] != w);
                    assert(false);
                }
            }
        }
    }

    /// The writer token currently granted and not yet observed, for the
    /// runtime to deliver its wakeup signal.
    pub fn pending_write_grant(&self) -> (r: Option<u64>)
        ensures
            r == self.granted_write(),
    {
        self.granted_write
    }

    /// The reader tokens currently granted and not yet observed, for the
    /// runtime to deliver their wakeup signals.
    pub fn pending_read_grants(&self) -> (r: Vec<u64>)
        ensures
            r@ == self.granted_reads(),
    {
        let mut r: Vec<u64> = Vec::new();
        let mut i: usize = 0;
        while i < self.granted_reads.len()
            invariant
                0 <= i <= self.granted_reads@.len(),
                r@ == self.granted_reads@.subrange(0, i as int),
            decreases self.granted_reads@.len() - i,
        {
            r.push(self.granted_reads[i]);
            proof {
                assert(r@ =~= self.granted_reads@.subrange(0, i + 1));
            }
            i = i + 1;
        }
        proof {
            assert(r@ =~= self.granted_reads@);
        }
        r
    }

    /// Borrow the payload for a reader: while readers are admitted the
    /// payload stays in the slot.
    pub fn read_shared(&self, _g: &RwLockReadGuard) -> (r: &T)
        requires
            self.wf(),
            self.active_readers() >= 1,
        ensures
            Some(*r) == self.slot(),
    {
        self.slot.as_ref().unwrap()
    }

    /// The grant step.  Serves the front of the intent queue once the lock
    /// has gone idle: a writer intent receives a write hand-off; a reader
    /// intent is released together with every contiguous reader intent
    /// behind it.
    fn grant_next(&mut self)
        requires
            !old(self).writing,
            old(self).reading == 0,
            old(self).granted_reads@.len() == 0,
            old(self).granted_write is None,
            intents_below(old(self).waiters@, old(self).next_token),
        ensures
            final(self).slot == old(self).slot,
            final(self).handles == old(self).handles,
            final(self).next_token == old(self).next_token,
            final(self).reading == 0,
            final(self).waiters@ == queue_after(old(self).waiters@),
            final(self).granted_reads@ == reads_granted(old(self).waiters@),
            final(self).granted_write == write_granted(old(self).waiters@),
            final(self).writing == writer_after(old(self).waiters@),
            intents_below(final(self).waiters@, final(self).next_token),
            forall|i: int|
                0 <= i < final(self).granted_reads@.len() ==> final(self).granted_reads@[i]
                    < final(self).next_token,
    {
        proof {
            lemma_read_prefix(self.waiters@);
        }
        if self.waiters.len() == 0 {
            return ;
        }
        let front_is_read = match self.waiters[0] {
            Intent::Read(_) => true,
            Intent::Write(_) => false,
        };
        if !front_is_read {
            let front = self.waiters.pop_front();
            match front {
                Some(Intent::Write(t)) => {
                    self.granted_write = Some(t);
                    self.writing = true;
                },
                _ => {},
            }
            return ;
        }
        let ghost q0 = self.waiters@;
        let ghost mut k: int = 0;
        proof {
            assert(q0.skip(0) =~= q0);
            assert(self.granted_reads@ =~= intent_tokens(q0.subrange(0, 0)));
        }
        loop
            invariant
                q0 == old(self).waiters@,
                q0.len() > 0 && q0[0] is Read,
                0 <= k <= read_prefix(q0),
                read_prefix(q0) <= q0.len(),
                forall|j: int| 0 <= j < read_prefix(q0) ==> q0[j] is Read,
                read_prefix(q0) < q0.len() ==> q0[read_prefix(q0)] is Write,
                self.waiters@ == q0.skip(k),
                self.granted_reads@ == intent_tokens(q0.subrange(0, k)),
                self.granted_write is None,
                !self.writing,
                self.reading == 0,
                self.slot == old(self).slot,
                self.handles == old(self).handles,
                self.next_token == old(self).next_token,
                intents_below(q0, self.next_token),
            decreases q0.len() - k,
        {
            let done = if self.waiters.len() == 0 {
                true
            } else {
                match self.waiters[0] {
                    Intent::Read(_) => false,
                    Intent::Write(_) => true,
                }
            };
            if done {
                proof {
                    if k < read_prefix(q0) {
                        assert(q0.skip(k)[0] == q0[k]);
                        assert(q0[k] is Read);
                        assert(false);
                    }
                    assert(k == read_prefix(q0));
                    assert(self.waiters@ == queue_after(q0));
                    assert(self.granted_reads@ == reads_granted(q0));
                }
                return ;
            }
            proof {
                assert(q0.skip(k)[0] == q0[k]);
                if k >= read_prefix(q0) {
                    assert(q0[read_prefix(q0)] is Write);
                    assert(false);
                }
            }
            let front = self.waiters.pop_front();
            match front {
                Some(Intent::Read(t)) => {
                    self.granted_reads.push(t);
                    proof {
                        assert(q0.skip(k).drop_first() =~= q0.skip(k + 1));
                        assert(intent_tokens(q0.subrange(0, k)).push(intent_token(q0[k]))
                            =~= intent_tokens(q0.subrange(0, k + 1)));
                        k = k + 1;
                    }
                },
                _ => {
                    proof {
                        assert(false);
                    }
                },
            }
        }
    }

    /// Release one read guard.  The reader count drops by one; when the
    /// last admitted reader leaves and no granted reader is still in
    /// flight, the grant step serves the queue.
    pub fn release_read(&mut self, g: RwLockReadGuard)
        requires
            old(self).wf(),
            old(self).active_readers() >= 1,
        ensures
            final(self).wf(),
            final(self).handles() == old(self).handles() - 1,
            final(self).active_readers() == old(self).active_readers() - 1,
            final(self).slot() == old(self).slot(),
            final(self).next_token() == old(self).next_token(),
            forall|f2: RwLockReadFut|
                old(self).read_fut_valid(f2)
                && (f2.is_immediate() ==> old(self).active_readers() >= 2)
                ==> final(self).read_fut_valid(f2),
            forall|f2: RwLockWriteFut|
                old(self).write_fut_valid(f2) ==> final(self).write_fut_valid(f2),
            old(self).active_readers() > 1 || old(self).granted_reads().len() > 0 ==> (
                final(self).waiters() == old(self).waiters()
                && final(self).granted_reads() == old(self).granted_reads()
                && final(self).granted_write() == old(self).granted_write()
                && final(self).writer_active() == old(self).writer_active()),
            old(self).active_readers() == 1 && old(self).granted_reads().len() == 0 ==> (
                final(self).waiters() == queue_after(old(self).waiters())
                && final(self).granted_reads() == reads_granted(old(self).waiters())
                && final(self).granted_write() == write_granted(old(self).waiters())
                && final(self).writer_active() == writer_after(old(self).waiters())),
    {
        let RwLockReadGuard { token: _ } = g;
        self.reading = self.reading - 1;
        self.handles = self.handles - 1;
        if self.reading == 0 && self.granted_reads.len() == 0 {
            self.grant_next();
            proof {
                lemma_read_prefix(old(self).waiters@);
                assert forall|f2: RwLockReadFut|
                    old(self).read_fut_valid(f2) && (f2.is_immediate() ==> old(
                        self,
                    ).active_readers() >= 2) implies self.read_fut_valid(f2) by {
                    if f2.is_queued() && old(self).waiters@.contains(Intent::Read(f2.token())) {
                        lemma_grant_keeps_waiter(old(self).waiters@, Intent::Read(f2.token()));
                    }
                }
                assert forall|f2: RwLockWriteFut|
                    old(self).write_fut_valid(f2) implies self.write_fut_valid(f2) by {
                    if f2.is_queued() && old(self).waiters@.contains(Intent::Write(f2.token())) {
                        lemma_grant_keeps_waiter(old(self).waiters@, Intent::Write(f2.token()));
                    }
                }
            }
        }
    }

    /// Release the write guard.  The payload returns to the slot and the
    /// grant step serves the queue.
    pub fn release_write(&mut self, g: RwLockWriteGuard<T>)
        requires
            old(self).wf(),
            old(self).slot() is None,
        ensures
            final(self).wf(),
            final(self).handles() == old(self).handles() - 1,
            final(self).slot() == Some(g@),
            final(self).active_readers() == 0,
            final(self).next_token() == old(self).next_token(),
            forall|f2: RwLockReadFut|
                old(self).read_fut_valid(f2) ==> final(self).read_fut_valid(f2),
            forall|f2: RwLockWriteFut|
                old(self).write_fut_valid(f2) ==> final(self).write_fut_valid(f2),
            final(self).waiters() == queue_after(old(self).waiters()),
            final(self).granted_reads() == reads_granted(old(self).waiters()),
            final(self).granted_write() == write_granted(old(self).waiters()),
            final(self).writer_active() == writer_after(old(self).waiters()),
    {
        let RwLockWriteGuard { value } = g;
        self.slot = Some(value);
        self.writing = false;
        self.handles = self.handles - 1;
        self.grant_next();
        proof {
            lemma_read_prefix(old(self).waiters@);
            assert forall|f2: RwLockReadFut|
                old(self).read_fut_valid(f2) implies self.read_fut_valid(f2) by {
                if f2.is_queued() && old(self).waiters@.contains(Intent::Read(f2.token())) {
                    lemma_grant_keeps_waiter(old(self).waiters@, Intent::Read(f2.token()));
                }
            }
            assert forall|f2: RwLockWriteFut|
                old(self).write_fut_valid(f2) implies self.write_fut_valid(f2) by {
                if f2.is_queued() && old(self).waiters@.contains(Intent::Write(f2.token())) {
                    lemma_grant_keeps_waiter(old(self).waiters@, Intent::Write(f2.token()));
                }
            }
        }
    }

    /// Access the payload directly, bypassing the lock: permitted exactly
    /// when this is the sole handle, which proves that no guard and no
    /// pending acquisition exists.  The caller's exclusive borrow of the
    /// sole handle justifies the precondition: every guard and pending
    /// future holds a handle of its own.
    pub fn get_mut(&mut self) -> (r: Option<&mut T>)
        requires
            old(self).wf(),
            old(self).handles() == 1 ==> !old(self).writer_active()
                && old(self).active_readers() == 0
                && old(self).granted_reads().len() == 0,
        ensures
            r is Some <==> old(self).handles() == 1,
            r is None ==> *final(self) == *old(self),
            r matches Some(v) ==> *v == old(self).slot().unwrap()
                && final(self).slot() == Some(*final(v))
                && final(self).wf()
                && !final(self).writer_active()
                && final(self).active_readers() == 0
                && final(self).waiters() == old(self).waiters()
                && final(self).granted_write() is None
                && final(self).handles() == old(self).handles(),
    {
        if self.handles == 1 {
            match &mut self.slot {
                Some(v) => Some(v),
                None => None,
            }
        } else {
            None
        }
    }

    /// Consume this handle.  If it is the sole handle — proving, as for
    /// [`RwLock::get_mut`], that no guard or pending acquisition exists —
    /// the payload is returned; otherwise the lock comes back untouched.
    pub fn try_unwrap(self) -> (r: Result<T, RwLock<T>>)
        requires
            self.wf(),
            self.handles() == 1 ==> !self.writer_active() && self.active_readers() == 0
                && self.granted_reads().len() == 0,
        ensures
            r is Ok <==> self.handles() == 1,
            r matches Ok(v) ==> Some(v) == self.slot(),
            r matches Err(l) ==> l == self,
    {
        if self.handles == 1 {
            let RwLock { reading, writing, waiters, granted_reads, granted_write, next_token, slot, handles } = self;
            match slot {
                Some(v) => Ok(v),
                None => Err(RwLock {
                    reading,
                    writing,
                    waiters,
                    granted_reads,
                    granted_write,
                    next_token,
                    slot: None,
                    handles,
                }),
            }
        } else {
            Err(self)
        }
    }
}

impl RwLockReadFut {
    /// The waiter token to which the runtime should attach this future's
    /// wakeup channel, if the acquisition was queued.
    pub fn queued_token(&self) -> (r: Option<u64>)
        ensures
            r == if self.is_queued() {
                Some(self.token())
            } else {
                None::<u64>
            },
    {
        match self.state {
            FutState::Queued(t) => Some(t),
            _ => None,
        }
    }

    /// One poll step against the issuing lock.
    ///
    /// An immediate acquisition resolves at once.  A queued one resolves
    /// exactly when the grant step has released its token into the granted
    /// batch; otherwise the state is untouched and the caller suspends.
    /// The yielded guard becomes an admitted reader and holds one handle.
    pub fn poll<T>(&mut self, l: &mut RwLock<T>) -> (r: Option<RwLockReadGuard>)
        requires
            old(l).wf(),
            old(l).read_fut_valid(*old(self)),
            !old(self).is_done(),
            old(l).handles() < u64::MAX,
        ensures
            final(l).wf(),
            final(l).read_fut_valid(*final(self)),
            r is Some ==> final(self).is_done() && !final(self).is_immediate()
                && !final(self).is_queued(),
            r is None ==> *final(self) == *old(self) && *final(l) == *old(l),
            forall|f2: RwLockReadFut|
                old(l).read_fut_valid(f2)
                && (old(self).is_queued() && f2.is_queued() ==> f2.token() != old(self).token())
                ==> final(l).read_fut_valid(f2),
            forall|f2: RwLockWriteFut|
                old(l).write_fut_valid(f2) ==> final(l).write_fut_valid(f2),
            old(self).is_immediate() ==> r is Some
                && final(l).active_readers() == old(l).active_readers()
                && final(l).granted_reads() == old(l).granted_reads(),
            old(self).is_queued() ==> (r is Some <==> old(l).granted_reads().contains(
                old(self).token(),
            )),
            old(self).is_queued() && r is Some ==> final(l).active_readers() == old(
                l,
            ).active_readers() + 1
                && (exists|i: int|
                    0 <= i < old(l).granted_reads().len()
                    && old(l).granted_reads()[i] == old(self).token()
                    && (forall|j: int|
                        0 <= j < i ==> old(l).granted_reads()[j] != old(self).token())
                    && final(l).granted_reads() == old(l).granted_reads().remove(i)),
            r is Some ==> final(l).handles() == old(l).handles() + 1
                && final(l).waiters() == old(l).waiters()
                && final(l).slot() == old(l).slot()
                && final(l).granted_write() == old(l).granted_write()
                && !final(l).writer_active()
                && final(l).active_readers() >= 1
                && final(l).next_token() == old(l).next_token(),
    {
        match self.state {
            FutState::Immediate => {
                self.state = FutState::Done;
                l.handles = l.handles + 1;
                Some(RwLockReadGuard { token: 0 })
            },
            FutState::Queued(t) => {
                match l.find_granted(t) {
                    Some(i) => {
                        l.granted_reads.remove(i);
                        l.reading = l.reading + 1;
                        l.handles = l.handles + 1;
                        self.state = FutState::Done;
                        proof {
                            let gi = i as int;
                            assert forall|k: int|
                                0 <= k < l.granted_reads@.len() implies l.granted_reads@[k]
                                < l.next_token by {
                                if k < gi {
                                    assert(l.granted_reads@[k] == old(l).granted_reads@[k]);
                                } else {
                                    assert(l.granted_reads@[k] == old(l).granted_reads@[k + 1]);
                                }
                            }
                            assert(0 <= gi < old(l).granted_reads().len()
                                && old(l).granted_reads()[gi] == t
                                && (forall|j: int| 0 <= j < gi ==> old(l).granted_reads()[j] != t)
                                && l.granted_reads@ == old(l).granted_reads().remove(gi));
                            assert forall|f2: RwLockReadFut|
                                old(l).read_fut_valid(f2) && (f2.is_queued() ==> f2.token()
                                    != t) implies l.read_fut_valid(f2) by {
                                if f2.is_queued() && old(l).granted_reads@.contains(f2.token()) {
                                    crate::fifo::lemma_remove_keeps_others(
                                        old(l).granted_reads@,
                                        gi,
                                        f2.token(),
                                    );
                                }
                            }
                        }
                        Some(RwLockReadGuard { token: t })
                    },
                    None => None,
                }
            },
            FutState::Done => None,
        }
    }

    /// The cancellation-safe teardown of a pending read acquisition, run
    /// by the runtime when the future is discarded.  The future's handle
    /// is released, and:
    ///
    /// * a spent future needs nothing more;
    /// * an unobserved immediate acquisition is already an admitted
    ///   reader, so it is released like a read guard;
    /// * a queued acquisition whose token was already granted in a race
    ///   between grant and drop withdraws from the granted batch and, if
    ///   it was the last reader in flight, forwards the lock by running
    ///   the grant step;
    /// * a queued acquisition never granted is a true cancellation: its
    ///   intent leaves the queue and nothing is released.
    pub fn cancel<T>(self, l: &mut RwLock<T>)
        requires
            old(l).wf(),
            old(l).read_fut_valid(self),
            old(l).handles() >= 1,
            self.is_done() ==> old(l).handles() > old(l).pinned_handles(),
        ensures
            final(l).wf(),
            final(l).handles() == old(l).handles() - 1,
            final(l).slot() == old(l).slot(),
            final(l).next_token() == old(l).next_token(),
            forall|f2: RwLockReadFut|
                old(l).read_fut_valid(f2)
                && (f2.is_immediate() ==> old(l).active_readers() >= 2)
                && (self.is_queued() && f2.is_queued() ==> f2.token() != self.token())
                ==> final(l).read_fut_valid(f2),
            forall|f2: RwLockWriteFut|
                old(l).write_fut_valid(f2) ==> final(l).write_fut_valid(f2),
            self.is_done() ==> final(l).active_readers() == old(l).active_readers()
                && final(l).waiters() == old(l).waiters()
                && final(l).granted_reads() == old(l).granted_reads()
                && final(l).granted_write() == old(l).granted_write()
                && final(l).writer_active() == old(l).writer_active(),
            self.is_immediate() ==> final(l).active_readers() == old(l).active_readers() - 1
                && (old(l).active_readers() > 1 || old(l).granted_reads().len() > 0 ==> (
                    final(l).waiters() == old(l).waiters()
                    && final(l).granted_reads() == old(l).granted_reads()
                    && final(l).granted_write() == old(l).granted_write()
                    && final(l).writer_active() == old(l).writer_active()))
                && (old(l).active_readers() == 1 && old(l).granted_reads().len() == 0 ==> (
                    final(l).waiters() == queue_after(old(l).waiters())
                    && final(l).granted_reads() == reads_granted(old(l).waiters())
                    && final(l).granted_write() == write_granted(old(l).waiters())
                    && final(l).writer_active() == writer_after(old(l).waiters()))),
            self.is_queued() && old(l).granted_reads().contains(self.token())
                && (old(l).active_readers() > 0 || old(l).granted_reads().len() > 1) ==> (
                final(l).active_readers() == old(l).active_readers()
                && final(l).waiters() == old(l).waiters()
                && final(l).granted_write() == old(l).granted_write()
                && final(l).writer_active() == old(l).writer_active()
                && (exists|i: int|
                    0 <= i < old(l).granted_reads().len()
                    && old(l).granted_reads()[i] == self.token()
                    && final(l).granted_reads() == old(l).granted_reads().remove(i))),
            self.is_queued() && old(l).granted_reads().contains(self.token())
                && old(l).active_readers() == 0 && old(l).granted_reads().len() == 1 ==> (
                final(l).active_readers() == 0
                && final(l).waiters() == queue_after(old(l).waiters())
                && final(l).granted_reads() == reads_granted(old(l).waiters())
                && final(l).granted_write() == write_granted(old(l).waiters())
                && final(l).writer_active() == writer_after(old(l).waiters())),
            self.is_queued() && !old(l).granted_reads().contains(self.token()) ==> (
                final(l).active_readers() == old(l).active_readers()
                && final(l).granted_reads() == old(l).granted_reads()
                && final(l).granted_write() == old(l).granted_write()
                && final(l).writer_active() == old(l).writer_active()
                && (exists|i: int|
                    0 <= i < old(l).waiters().len()
                    && old(l).waiters()[i] == Intent::Read(self.token())
                    && (forall|j: int|
                        0 <= j < i ==> old(l).waiters()[j] != Intent::Read(self.token()))
                    && final(l).waiters() == old(l).waiters().remove(i))),
    {
        match self.state {
            FutState::Done => {
                l.handles = l.handles - 1;
            },
            FutState::Immediate => {
                l.reading = l.reading - 1;
                l.handles = l.handles - 1;
                if l.reading == 0 && l.granted_reads.len() == 0 {
                    l.grant_next();
                    proof {
                        lemma_read_prefix(old(l).waiters@);
                        assert forall|f2: RwLockReadFut|
                            old(l).read_fut_valid(f2) && !f2.is_immediate() implies
                            l.read_fut_valid(f2) by {
                            if f2.is_queued() && old(l).waiters@.contains(
                                Intent::Read(f2.token()),
                            ) {
                                lemma_grant_keeps_waiter(old(l).waiters@, Intent::Read(f2.token()));
                            }
                        }
                        assert forall|f2: RwLockWriteFut|
                            old(l).write_fut_valid(f2) implies l.write_fut_valid(f2) by {
                            if f2.is_queued() && old(l).waiters@.contains(
                                Intent::Write(f2.token()),
                            ) {
                                lemma_grant_keeps_waiter(
                                    old(l).waiters@,
                                    Intent::Write(f2.token()),
                                );
                            }
                        }
                    }
                }
            },
            FutState::Queued(t) => {
                match l.find_granted(t) {
                    Some(i) => {
                        l.granted_reads.remove(i);
                        l.handles = l.handles - 1;
                        proof {
                            let gi = i as int;
                            assert forall|k: int|
                                0 <= k < l.granted_reads@.len() implies l.granted_reads@[k]
                                < l.next_token by {
                                if k < gi {
                                    assert(l.granted_reads@[k] == old(l).granted_reads@[k]);
                                } else {
                                    assert(l.granted_reads@[k] == old(l).granted_reads@[k + 1]);
                                }
                            }
                            assert(0 <= gi < old(l).granted_reads().len()
                                && old(l).granted_reads()[gi] == t
                                && l.granted_reads@ == old(l).granted_reads().remove(gi));
                            assert forall|f2: RwLockReadFut|
                                old(l).read_fut_valid(f2) && (f2.is_queued() ==> f2.token()
                                    != t) implies f2.is_queued() ==> (l.waiters@.contains(
                                    Intent::Read(f2.token()),
                                ) || l.granted_reads@.contains(f2.token())) by {
                                if f2.is_queued() && old(l).granted_reads@.contains(f2.token()) {
                                    crate::fifo::lemma_remove_keeps_others(
                                        old(l).granted_reads@,
                                        gi,
                                        f2.token(),
                                    );
                                }
                            }
                        }
                        if l.reading == 0 && l.granted_reads.len() == 0 {
                            l.grant_next();
                            proof {
                                lemma_read_prefix(old(l).waiters@);
                                assert forall|f2: RwLockReadFut|
                                    old(l).read_fut_valid(f2) && (f2.is_queued() ==> f2.token()
                                        != t) implies l.read_fut_valid(f2) by {
                                    if f2.is_queued() && old(l).waiters@.contains(
                                        Intent::Read(f2.token()),
                                    ) {
                                        lemma_grant_keeps_waiter(
                                            old(l).waiters@,
                                            Intent::Read(f2.token()),
                                        );
                                    }
                                }
                                assert forall|f2: RwLockWriteFut|
                                    old(l).write_fut_valid(f2) implies l.write_fut_valid(f2) by {
                                    if f2.is_queued() && old(l).waiters@.contains(
                                        Intent::Write(f2.token()),
                                    ) {
                                        lemma_grant_keeps_waiter(
                                            old(l).waiters@,
                                            Intent::Write(f2.token()),
                                        );
                                    }
                                }
                            }
                        }
                    },
                    None => {
                        let i = l.find_intent(Intent::Read(t));
                        l.waiters.remove(i);
                        l.handles = l.handles - 1;
                        proof {
                            let gi = i as int;
                            assert forall|k: int|
                                0 <= k < l.waiters@.len() implies intent_token(l.waiters@[k])
                                < l.next_token by {
                                if k < gi {
                                    assert(l.waiters@[k] == old(l).waiters@[k]);
                                } else {
                                    assert(l.waiters@[k] == old(l).waiters@[k + 1]);
                                }
                            }
                            assert(0 <= gi < old(l).waiters().len()
                                && old(l).waiters()[gi] == Intent::Read(t)
                                && (forall|j: int|
                                    0 <= j < gi ==> old(l).waiters()[j] != Intent::Read(t))
                                && l.waiters@ == old(l).waiters().remove(gi));
                            assert forall|f2: RwLockReadFut|
                                old(l).read_fut_valid(f2) && (f2.is_queued() ==> f2.token()
                                    != t) implies l.read_fut_valid(f2) by {
                                if f2.is_queued() && old(l).waiters@.contains(
                                    Intent::Read(f2.token()),
                                ) {
                                    crate::fifo::lemma_remove_keeps_others(
                                        old(l).waiters@,
                                        gi,
                                        Intent::Read(f2.token()),
                                    );
                                }
                            }
                            assert forall|f2: RwLockWriteFut|
                                old(l).write_fut_valid(f2) implies l.write_fut_valid(f2) by {
                                if f2.is_queued() && old(l).waiters@.contains(
                                    Intent::Write(f2.token()),
                                ) {
                                    crate::fifo::lemma_remove_keeps_others(
                                        old(l).waiters@,
                                        gi,
                                        Intent::Write(f2.token()),
                                    );
                                }
                            }
                        }
                    },
                }
            },
        }
    }
}

impl RwLockWriteFut {
    /// The waiter token to which the runtime should attach this future's
    /// wakeup channel, if the acquisition was queued.
    pub fn queued_token(&self) -> (r: Option<u64>)
        ensures
            r == if self.is_queued() {
                Some(self.token())
            } else {
                None::<u64>
            },
    {
        match self.state {
            FutState::Queued(t) => Some(t),
            _ => None,
        }
    }

    /// One poll step against the issuing lock.
    ///
    /// An immediate acquisition resolves at once.  A queued one resolves
    /// exactly when the grant step has handed the write grant to its
    /// token; otherwise the state is untouched and the caller suspends.
    /// The yielded guard takes the payload and holds one handle.
    pub fn poll<T>(&mut self, l: &mut RwLock<T>) -> (r: Option<RwLockWriteGuard<T>>)
        requires
            old(l).wf(),
            old(l).write_fut_valid(*old(self)),
            !old(self).is_done(),
            old(l).handles() < u64::MAX,
        ensures
            final(l).wf(),
            final(l).write_fut_valid(*final(self)),
            r is Some ==> final(self).is_done() && !final(self).is_immediate()
                && !final(self).is_queued(),
            r is None ==> *final(self) == *old(self) && *final(l) == *old(l),
            forall|f2: RwLockWriteFut|
                old(l).write_fut_valid(f2)
                && (old(self).is_immediate() ==> !f2.is_immediate())
                && (old(self).is_queued() && f2.is_queued() ==> f2.token() != old(self).token())
                ==> final(l).write_fut_valid(f2),
            forall|f2: RwLockReadFut|
                old(l).read_fut_valid(f2) ==> final(l).read_fut_valid(f2),
            old(self).is_immediate() ==> r is Some,
            old(self).is_queued() ==> (r is Some <==> old(l).granted_write() == Some(
                old(self).token(),
            )),
            r matches Some(g) ==> g@ == old(l).slot().unwrap()
                && final(l).writer_active()
                && final(l).slot() is None
                && final(l).granted_write() is None
                && final(l).handles() == old(l).handles() + 1
                && final(l).waiters() == old(l).waiters()
                && final(l).granted_reads() == old(l).granted_reads()
                && final(l).active_readers() == 0
                && final(l).next_token() == old(l).next_token(),
    {
        match self.state {
            FutState::Immediate => {
                self.state = FutState::Done;
                l.handles = l.handles + 1;
                let v = l.slot.take();
                match v {
                    Some(value) => Some(RwLockWriteGuard { value }),
                    None => None,
                }
            },
            FutState::Queued(t) => {
                let granted = match l.granted_write {
                    Some(h) => h == t,
                    None => false,
                };
                if granted {
                    l.granted_write = None;
                    self.state = FutState::Done;
                    l.handles = l.handles + 1;
                    let v = l.slot.take();
                    match v {
                        Some(value) => Some(RwLockWriteGuard { value }),
                        None => None,
                    }
                } else {
                    None
                }
            },
            FutState::Done => None,
        }
    }

    /// The cancellation-safe teardown of a pending write acquisition, run
    /// by the runtime when the future is discarded.  The future's handle
    /// is released, and:
    ///
    /// * a spent future needs nothing more;
    /// * an unobserved immediate acquisition already holds write
    ///   ownership, so the grant step runs — otherwise the lock would
    ///   leak with no observer;
    /// * a queued acquisition whose token holds the write grant after a
    ///   race between hand-off and drop forwards ownership by running the
    ///   grant step — failing to do so would be a permanent deadlock;
    /// * a queued acquisition never granted is a true cancellation: its
    ///   intent leaves the queue and nothing is released.
    pub fn cancel<T>(self, l: &mut RwLock<T>)
        requires
            old(l).wf(),
            old(l).write_fut_valid(self),
            old(l).handles() >= 1,
            self.is_done() ==> old(l).handles() > old(l).pinned_handles(),
        ensures
            final(l).wf(),
            final(l).handles() == old(l).handles() - 1,
            final(l).slot() == old(l).slot(),
            final(l).next_token() == old(l).next_token(),
            forall|f2: RwLockWriteFut|
                old(l).write_fut_valid(f2)
                && (self.is_immediate() ==> !f2.is_immediate())
                && (self.is_queued() && f2.is_queued() ==> f2.token() != self.token())
                ==> final(l).write_fut_valid(f2),
            forall|f2: RwLockReadFut|
                old(l).read_fut_valid(f2) ==> final(l).read_fut_valid(f2),
            self.is_done() ==> final(l).active_readers() == old(l).active_readers()
                && final(l).waiters() == old(l).waiters()
                && final(l).granted_reads() == old(l).granted_reads()
                && final(l).granted_write() == old(l).granted_write()
                && final(l).writer_active() == old(l).writer_active(),
            self.is_immediate() || (self.is_queued() && old(l).granted_write() == Some(
                self.token(),
            )) ==> (final(l).active_readers() == 0
                && final(l).waiters() == queue_after(old(l).waiters())
                && final(l).granted_reads() == reads_granted(old(l).waiters())
                && final(l).granted_write() == write_granted(old(l).waiters())
                && final(l).writer_active() == writer_after(old(l).waiters())),
            self.is_queued() && old(l).granted_write() != Some(self.token()) ==> (
                final(l).active_readers() == old(l).active_readers()
                && final(l).granted_reads() == old(l).granted_reads()
                && final(l).granted_write() == old(l).granted_write()
                && final(l).writer_active() == old(l).writer_active()
                && (exists|i: int|
                    0 <= i < old(l).waiters().len()
                    && old(l).waiters()[i] == Intent::Write(self.token())
                    && (forall|j: int|
                        0 <= j < i ==> old(l).waiters()[j] != Intent::Write(self.token()))
                    && final(l).waiters() == old(l).waiters().remove(i))),
    {
        match self.state {
            FutState::Done => {
                l.handles = l.handles - 1;
            },
            FutState::Immediate => {
                l.writing = false;
                l.handles = l.handles - 1;
                l.grant_next();
                proof {
                    lemma_read_prefix(old(l).waiters@);
                    assert forall|f2: RwLockWriteFut|
                        old(l).write_fut_valid(f2) && !f2.is_immediate() implies
                        l.write_fut_valid(f2) by {
                        if f2.is_queued() && old(l).waiters@.contains(Intent::Write(f2.token())) {
                            lemma_grant_keeps_waiter(old(l).waiters@, Intent::Write(f2.token()));
                        }
                    }
                    assert forall|f2: RwLockReadFut|
                        old(l).read_fut_valid(f2) implies l.read_fut_valid(f2) by {
                        if f2.is_queued() && old(l).waiters@.contains(Intent::Read(f2.token())) {
                            lemma_grant_keeps_waiter(old(l).waiters@, Intent::Read(f2.token()));
                        }
                    }
                }
            },
            FutState::Queued(t) => {
                let granted = match l.granted_write {
                    Some(h) => h == t,
                    None => false,
                };
                if granted {
                    l.granted_write = None;
                    l.writing = false;
                    l.handles = l.handles - 1;
                    l.grant_next();
                    proof {
                        lemma_read_prefix(old(l).waiters@);
                        assert forall|f2: RwLockWriteFut|
                            old(l).write_fut_valid(f2) && (f2.is_queued() ==> f2.token()
                                != t) implies l.write_fut_valid(f2) by {
                            if f2.is_queued() && old(l).waiters@.contains(
                                Intent::Write(f2.token()),
                            ) {
                                lemma_grant_keeps_waiter(
                                    old(l).waiters@,
                                    Intent::Write(f2.token()),
                                );
                            }
                        }
                        assert forall|f2: RwLockReadFut|
                            old(l).read_fut_valid(f2) implies l.read_fut_valid(f2) by {
                            if f2.is_queued() && old(l).waiters@.contains(
                                Intent::Read(f2.token()),
                            ) {
                                lemma_grant_keeps_waiter(old(l).waiters@, Intent::Read(f2.token()));
                            }
                        }
                    }
                } else {
                    let i = l.find_intent(Intent::Write(t));
                    l.waiters.remove(i);
                    l.handles = l.handles - 1;
                    proof {
                        let gi = i as int;
                        assert forall|k: int|
                            0 <= k < l.waiters@.len() implies intent_token(l.waiters@[k])
                            < l.next_token by {
                            if k < gi {
                                assert(l.waiters@[k] == old(l).waiters@[k]);
                            } else {
                                assert(l.waiters@[k] == old(l).waiters@[k + 1]);
                            }
                        }
                        assert(0 <= gi < old(l).waiters().len()
                            && old(l).waiters()[gi] == Intent::Write(t)
                            && (forall|j: int|
                                0 <= j < gi ==> old(l).waiters()[j] != Intent::Write(t))
                            && l.waiters@ == old(l).waiters().remove(gi));
                        assert forall|f2: RwLockWriteFut|
                            old(l).write_fut_valid(f2) && (f2.is_queued() ==> f2.token()
                                != t) implies l.write_fut_valid(f2) by {
                            if f2.is_queued() && old(l).waiters@.contains(
                                Intent::Write(f2.token()),
                            ) {
                                crate::fifo::lemma_remove_keeps_others(
                                    old(l).waiters@,
                                    gi,
                                    Intent::Write(f2.token()),
                                );
                            }
                        }
                        assert forall|f2: RwLockReadFut|
                            old(l).read_fut_valid(f2) implies l.read_fut_valid(f2) by {
                            if f2.is_queued() && old(l).waiters@.contains(
                                Intent::Read(f2.token()),
                            ) {
                                crate::fifo::lemma_remove_keeps_others(
                                    old(l).waiters@,
                                    gi,
                                    Intent::Read(f2.token()),
                                );
                            }
                        }
                    }
                }
            },
        }
    }
}

/// Exclusion: while a writer is active — a write guard out, a write
/// hand-off in flight, or an immediate write unobserved — no reader is
/// admitted and no reader grant is in flight.
pub proof fn lemma_writer_excludes_readers<T>(l: RwLock<T>)
    requires
        l.wf(),
        l.writer_active(),
    ensures
        l.active_readers() == 0,
        l.granted_reads().len() == 0,
{
}

/// Exclusion: while a write guard is outstanding (the payload slot is
/// empty) the lock is writer-held with no other grant in flight, so no
/// poll and no try-acquisition can yield another guard.
pub proof fn lemma_write_guard_exclusive<T>(l: RwLock<T>)
    requires
        l.wf(),
        l.slot() is None,
    ensures
        l.writer_active(),
        l.active_readers() == 0,
        l.granted_reads().len() == 0,
        l.granted_write() is None,
{
}

/// Reader batching: one grant step releases exactly the contiguous batch
/// of reader intents at the front of the queue — all of them together —
/// and never reaches past the first writer intent, which, if it becomes
/// the new front, is granted alone by the next step.
pub proof fn lemma_grant_batch(q: Seq<Intent>)
    ensures
        forall|j: int| 0 <= j < read_prefix(q) ==> q[j] is Read,
        q.len() > 0 && q[0] is Read ==> reads_granted(q).len() == read_prefix(q)
            && queue_after(q) == q.skip(read_prefix(q))
            && (queue_after(q).len() > 0 ==> queue_after(q)[0] is Write),
        q.len() > 0 && q[0] is Write ==> write_granted(q) == Some(intent_token(q[0]))
            && reads_granted(q).len() == 0
            && queue_after(q) == q.drop_first(),
{
    lemma_read_prefix(q);
    if q.len() > 0 && q[0] is Read {
        if queue_after(q).len() > 0 {
            assert(q.skip(read_prefix(q))[0] == q[read_prefix(q)]);
        }
    }
}

/// The reference-count gate behind `try_unwrap` and `get_mut`: a sole,
/// freely held handle proves the lock idle — no waiters, no grants in
/// flight, the payload in its slot.
pub proof fn lemma_sole_handle_idle<T>(l: RwLock<T>)
    requires
        l.wf(),
        l.handles() == 1,
        !l.writer_active(),
        l.active_readers() == 0,
        l.granted_reads().len() == 0,
    ensures
        l.waiters().len() == 0,
        l.granted_write() is None,
        l.slot() is Some,
{
}

} // verus!
