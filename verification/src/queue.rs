//! The first-in, first-out channel that carries requests to the allocator.

use vstd::prelude::*;

verus! {

/// A message that could not be sent because the receiving side is gone. It
/// hands the message back.
#[derive(Debug)]
pub struct SendError<M>(pub M);

/// An unbounded queue of messages with a receiving side that can be torn down.
///
/// Senders append; the owner takes messages from the front, so messages leave
/// in the order in which they were sent, each exactly once.
#[derive(Debug)]
pub struct Channel<M> {
    pending: Vec<M>,
    open: bool,
}

impl<M> Channel<M> {
    /// The messages sent and not yet received, oldest first.
    pub closed spec fn pending(&self) -> Seq<M> {
        self.pending@
    }

    /// Whether the receiving side still exists.
    pub closed spec fn is_open(&self) -> bool {
        self.open
    }

    /// An open channel with nothing pending.
    pub fn new() -> (r: Channel<M>)
        ensures
            r.is_open(),
            r.pending() == Seq::<M>::empty(),
    {
        Channel { pending: Vec::new(), open: true }
    }

    /// Whether the receiving side still exists.
    pub fn open(&self) -> (r: bool)
        ensures
            r == self.is_open(),
    {
        self.open
    }

    /// The number of pending messages.
    pub fn len(&self) -> (r: usize)
        ensures
            r == self.pending().len(),
    {
        self.pending.len()
    }

    /// Tears the receiving side down. What was pending stays; later sends fail.
    pub fn close(&mut self)
        ensures
            !final(self).is_open(),
            final(self).pending() == old(self).pending(),
    {
        self.open = false;
    }

    /// Appends `message` when the channel is open. On a closed channel nothing
    /// changes and the message comes back inside the error.
    pub fn send(&mut self, message: M) -> (r: Result<(), SendError<M>>)
        ensures
            final(self).is_open() == old(self).is_open(),
            old(self).is_open() ==> r is Ok && final(self).pending() == old(self).pending().push(
                message,
            ),
            !old(self).is_open() ==> r == Err::<(), SendError<M>>(SendError(message))
                && final(self).pending() == old(self).pending(),
    {
        if self.open {
            self.pending.push(message);
            Ok(())
        } else {
            Err(SendError(message))
        }
    }

    /// Takes the oldest pending message, if there is one.
    pub fn try_recv(&mut self) -> (r: Option<M>)
        ensures
            final(self).is_open() == old(self).is_open(),
            old(self).pending().len() == 0 ==> r is None && final(self).pending() == old(
                self,
            ).pending(),
            old(self).pending().len() > 0 ==> r == Some(old(self).pending()[0])
                && final(self).pending() == old(self).pending().subrange(
                1,
                old(self).pending().len() as int,
            ),
    {
        if self.pending.len() == 0 {
            None
        } else {
            let message = self.pending.remove(0);
            assert(self.pending@ =~= old(self).pending@.subrange(1, old(self).pending@.len() as int));
            Some(message)
        }
    }

    /// Takes everything that is pending, oldest first, and leaves the queue
    /// empty.
    pub fn drain(&mut self) -> (r: Vec<M>)
        ensures
            final(self).is_open() == old(self).is_open(),
            r@ == old(self).pending(),
            final(self).pending() == Seq::<M>::empty(),
    {
        let mut taken: Vec<M> = Vec::new();
        std::mem::swap(&mut self.pending, &mut taken);
        taken
    }
}

/// What is pending after the messages `sent` were sent one after the other
/// into an open channel that held `before`.
pub open spec fn after_sends<M>(before: Seq<M>, sent: Seq<M>) -> Seq<M>
    decreases sent.len(),
{
    if sent.len() == 0 {
        before
    } else {
        after_sends(before, sent.drop_last()).push(sent.last())
    }
}

/// Messages wait in the order in which they were sent: after any number of
/// sends the queue holds what it held, followed by what was sent, each
/// message once. `drain` and `try_recv` hand them out from the front.
pub proof fn law_sends_keep_order<M>(before: Seq<M>, sent: Seq<M>)
    ensures
        after_sends(before, sent) == before + sent,
        after_sends(before, sent).len() == before.len() + sent.len(),
    decreases sent.len(),
{
    if sent.len() == 0 {
        assert(before + sent =~= before);
    } else {
        law_sends_keep_order(before, sent.drop_last());
        assert((before + sent.drop_last()).push(sent.last()) =~= before + sent);
    }
}

} // verus!
