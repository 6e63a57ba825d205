//! The queue between caller threads and the session's worker.
//!
//! Operations are taken in the order they were accepted. Once the queue is
//! shut down it accepts nothing more, and the operations still waiting are
//! handed back at once so that each can be answered with `Disconnected`.
//! Every accepted operation is handed out exactly once.

use vstd::prelude::*;

use crate::errors::FfiError;

verus! {

/// The work queue of one session.
pub struct WorkQueue<T> {
    pending: Vec<T>,
    open: bool,
    accepted: Ghost<Seq<T>>,
    handed_out: Ghost<Seq<T>>,
}

impl<T> WorkQueue<T> {
    /// Operations waiting, oldest first.
    pub closed spec fn pending(&self) -> Seq<T> {
        self.pending@
    }

    /// Whether operations are still accepted.
    pub closed spec fn is_open(&self) -> bool {
        self.open
    }

    /// Every operation accepted so far, in order.
    pub closed spec fn accepted(&self) -> Seq<T> {
        self.accepted@
    }

    /// Every operation handed out so far (to run or to reject), in order.
    pub closed spec fn handed_out(&self) -> Seq<T> {
        self.handed_out@
    }

    /// What was accepted is what was handed out followed by what waits.
    pub open spec fn wf(&self) -> bool {
        self.accepted() == self.handed_out() + self.pending()
    }

    /// An open, empty queue.
    pub fn new() -> (r: WorkQueue<T>)
        ensures
            r.wf(),
            r.is_open(),
            r.pending() == Seq::<T>::empty(),
            r.accepted() == Seq::<T>::empty(),
            r.handed_out() == Seq::<T>::empty(),
    {
        let r = WorkQueue {
            pending: Vec::new(),
            open: true,
            accepted: Ghost(Seq::empty()),
            handed_out: Ghost(Seq::empty()),
        };
        proof {
            assert(r.handed_out() + r.pending() =~= Seq::<T>::empty());
        }
        r
    }

    /// Whether operations are still accepted.
    pub fn accepting(&self) -> (r: bool)
        ensures
            r == self.is_open(),
    {
        self.open
    }

    /// Number of operations waiting.
    pub fn len(&self) -> (r: usize)
        ensures
            r == self.pending().len(),
    {
        self.pending.len()
    }

    /// Queues `op` behind those waiting; refused with `Disconnected` once the
    /// queue is shut down.
    pub fn submit(&mut self, op: T) -> (r: Result<(), FfiError>)
        requires
            old(self).wf(),
        ensures
            final(self).wf(),
            final(self).is_open() == old(self).is_open(),
            final(self).handed_out() == old(self).handed_out(),
            old(self).is_open() ==> r is Ok && final(self).pending() == old(self).pending().push(op)
                && final(self).accepted() == old(self).accepted().push(op),
            !old(self).is_open() ==> r == Err::<(), FfiError>(FfiError::Disconnected)
                && final(self).pending() == old(self).pending() && final(self).accepted() == old(self).accepted(),
    {
        if !self.open {
            return Err(FfiError::Disconnected);
        }
        let ghost a = self.accepted@;
        self.pending.push(op);
        self.accepted = Ghost(a.push(op));
        proof {
            assert(self.handed_out() + self.pending() =~= self.accepted());
        }
        Ok(())
    }

    /// Takes the oldest waiting operation, if any.
    pub fn next(&mut self) -> (r: Option<T>)
        requires
            old(self).wf(),
        ensures
            final(self).wf(),
            final(self).is_open() == old(self).is_open(),
            final(self).accepted() == old(self).accepted(),
            old(self).pending().len() == 0 ==> r is None && final(self).pending() == old(self).pending() && final(self).handed_out() == old(self).handed_out(),
            old(self).pending().len() > 0 ==> r == Some(old(self).pending()[0])
                && final(self).pending() == old(self).pending().drop_first() && final(self).handed_out() == old(self).handed_out().push(old(self).pending()[0]),
    {
        if self.pending.len() == 0 {
            return None;
        }
        let ghost h = self.handed_out@;
        let op = self.pending.remove(0);
        self.handed_out = Ghost(h.push(op));
        proof {
            assert(self.pending@ =~= old(self).pending@.drop_first());
            assert(self.handed_out() + self.pending() =~= self.accepted());
        }
        Some(op)
    }

    /// Stops accepting operations and hands back every one still waiting,
    /// oldest first, to be answered with `Disconnected`.
    pub fn shutdown(&mut self) -> (r: Vec<T>)
        requires
            old(self).wf(),
        ensures
            final(self).wf(),
            !final(self).is_open(),
            r@ == old(self).pending(),
            final(self).pending() == Seq::<T>::empty(),
            final(self).accepted() == old(self).accepted(),
            final(self).handed_out() == old(self).handed_out() + old(self).pending(),
    {
        let ghost h = self.handed_out@;
        let ghost p = self.pending@;
        self.open = false;
        let mut rest: Vec<T> = Vec::new();
        std::mem::swap(&mut rest, &mut self.pending);
        self.handed_out = Ghost(h + p);
        proof {
            assert(self.handed_out() + self.pending() =~= self.accepted());
        }
        rest
    }
}

/// Each accepted operation has been handed out exactly once or is still
/// waiting: nothing is dropped and nothing is handed out twice.
pub proof fn lemma_each_op_handled_once<T>(q: &WorkQueue<T>)
    requires
        q.wf(),
    ensures
        q.accepted().len() == q.handed_out().len() + q.pending().len(),
        forall|i: int| 0 <= i < q.handed_out().len() ==> q.accepted()[i] == q.handed_out()[i],
        forall|i: int|
            0 <= i < q.pending().len() ==> q.accepted()[q.handed_out().len() + i]
                == q.pending()[i],
{
}

} // verus!
