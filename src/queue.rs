use vstd::prelude::*;

verus! {

/// How many deferred requests one software task can have waiting.
pub const QUEUE_CAPACITY: usize = 100;

/// A request could not be queued: the queue was full. Holds the payload.
#[derive(Clone, Copy, Debug, PartialEq, Eq, Structural)]
pub struct Rejected(pub u8);

/// Bounded FIFO of deferred requests for one software task, each carrying a
/// byte of payload, kept in a ring buffer.
pub struct SpawnQueue {
    buf: Vec<u8>,
    head: usize,
    len: usize,
}

impl View for SpawnQueue {
    type V = Seq<u8>;

    closed spec fn view(&self) -> Seq<u8> {
        Seq::new(self.len as nat, |i: int| self.buf@[(self.head + i) % (QUEUE_CAPACITY as int)])
    }
}

/// The queue after offering `p`: appended when there is room, else unchanged.
pub open spec fn offered(q: Seq<u8>, p: u8) -> Seq<u8> {
    if q.len() < QUEUE_CAPACITY {
        q.push(p)
    } else {
        q
    }
}

impl SpawnQueue {
    pub closed spec fn wf(&self) -> bool {
        &&& self.buf@.len() == QUEUE_CAPACITY
        &&& self.head < QUEUE_CAPACITY
        &&& self.len <= QUEUE_CAPACITY
    }

    /// A queue never holds more than its capacity.
    pub proof fn lemma_bounded(&self)
        requires
            self.wf(),
        ensures
            self@.len() <= QUEUE_CAPACITY,
    {
    }

    /// An empty queue.
    pub fn new() -> (r: Self)
        ensures
            r.wf(),
            r@ == Seq::<u8>::empty(),
    {
        let mut buf: Vec<u8> = Vec::new();
        let mut i: usize = 0;
        while i < QUEUE_CAPACITY
            invariant
                i <= QUEUE_CAPACITY,
                buf@.len() == i,
            decreases QUEUE_CAPACITY - i,
        {
            buf.push(0);
            i = i + 1;
        }
        let r = SpawnQueue { buf, head: 0, len: 0 };
        assert(r@ =~= Seq::<u8>::empty());
        r
    }

    /// How many requests wait.
    pub fn len(&self) -> (r: usize)
        requires
            self.wf(),
        ensures
            r == self@.len(),
            r <= QUEUE_CAPACITY,
    {
        self.len
    }

    /// Queues a request with payload `p`, without blocking. A full queue
    /// rejects it and stays as it was.
    pub fn try_spawn(&mut self, p: u8) -> (r: Result<(), Rejected>)
        requires
            old(self).wf(),
        ensures
            final(self).wf(),
            final(self)@ == offered(old(self)@, p),
            r is Ok <==> old(self)@.len() < QUEUE_CAPACITY,
            r is Err ==> r == Err::<(), Rejected>(Rejected(p)),
    {
        if self.len == QUEUE_CAPACITY {
            return Err(Rejected(p));
        }
        let ghost old_view = self@;
        let slot: usize = if self.head + self.len >= QUEUE_CAPACITY {
            self.head + self.len - QUEUE_CAPACITY
        } else {
            self.head + self.len
        };
        assert(slot == (self.head + self.len) % (QUEUE_CAPACITY as int));
        self.buf.set(slot, p);
        self.len = self.len + 1;
        assert forall|i: int| 0 <= i < self.len implies #[trigger] self@[i] == old_view.push(p)[i] by {
            if i < old_view.len() {
                assert((self.head + i) % (QUEUE_CAPACITY as int) != slot);
            }
        }
        assert(self@ =~= old_view.push(p));
        Ok(())
    }

    /// Takes the oldest request, if any.
    pub fn pop(&mut self) -> (r: Option<u8>)
        requires
            old(self).wf(),
        ensures
            final(self).wf(),
            old(self)@.len() == 0 ==> r is None && final(self)@ == old(self)@,
            old(self)@.len() > 0 ==> r == Some(old(self)@[0]) && final(self)@ == old(self)@.drop_first(),
    {
        if self.len == 0 {
            return None;
        }
        let ghost old_view = self@;
        let p = self.buf[self.head];
        self.head = if self.head + 1 == QUEUE_CAPACITY {
            0
        } else {
            self.head + 1
        };
        self.len = self.len - 1;
        assert forall|i: int| 0 <= i < self.len implies #[trigger] self@[i] == old_view[i + 1] by {
            assert((self.head + i) % (QUEUE_CAPACITY as int) == (old(self).head + i + 1) % (
            QUEUE_CAPACITY as int));
        }
        assert(self@ =~= old_view.drop_first());
        Some(p)
    }
}

} // verus!
