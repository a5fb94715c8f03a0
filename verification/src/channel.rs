//! The event channel model: a bounded, ordered queue of domain events
//! between the connection handlers and the log aggregator.  A send on a
//! full channel does not go through — the caller suspends and offers the
//! same event again once the aggregator has drained — so no event is ever
//! dropped or reordered.  The application shell runs the real channel;
//! this model is what its behaviour is held to.

use vstd::prelude::*;
use crate::message::Message;

verus! {

/// What a send leaves in the channel: the event appended, where there is
/// room; nothing goes through on a full channel.
pub open spec fn channel_send(q: Seq<Message>, cap: nat, m: Message) -> Option<Seq<Message>> {
    if q.len() < cap {
        Some(q.push(m))
    } else {
        None
    }
}

/// A bounded FIFO queue of domain events.
#[derive(Debug)]
pub struct EventChannel {
    buf: Vec<Message>,
    cap: usize,
}

impl EventChannel {
    /// The queued events, oldest first.
    pub closed spec fn contents(&self) -> Seq<Message> {
        self.buf@
    }

    /// The queue's fixed capacity.
    pub closed spec fn capacity(&self) -> nat {
        self.cap as nat
    }

    /// An empty channel of capacity `cap`.
    pub fn new(cap: usize) -> (r: EventChannel)
        ensures
            r.contents().len() == 0,
            r.capacity() == cap,
    {
        EventChannel { buf: Vec::new(), cap }
    }

    /// How many events are queued.
    pub fn len(&self) -> (r: usize)
        ensures
            r == self.contents().len(),
    {
        self.buf.len()
    }

    /// Offers one event: queued at the tail where there is room, handed
    /// back untouched where the channel is full, for the caller to
    /// suspend and offer again.
    pub fn try_send(&mut self, m: Message) -> (r: Result<(), Message>)
        ensures
            final(self).capacity() == old(self).capacity(),
            (match r {
                Ok(_) => channel_send(old(self).contents(), old(self).capacity(), m) == Some(
                    final(self).contents(),
                ),
                Err(back) => channel_send(old(self).contents(), old(self).capacity(), m) is None
                    && back == m && final(self).contents() == old(self).contents(),
            }),
    {
        if self.buf.len() < self.cap {
            self.buf.push(m);
            Ok(())
        } else {
            Err(m)
        }
    }

    /// Takes the oldest queued event, where there is one.
    pub fn recv(&mut self) -> (r: Option<Message>)
        ensures
            final(self).capacity() == old(self).capacity(),
            (match r {
                Some(m) => old(self).contents().len() > 0 && m == old(self).contents()[0]
                    && final(self).contents() == old(self).contents().drop_first(),
                None => old(self).contents().len() == 0 && final(self).contents() == old(
                    self,
                ).contents(),
            }),
    {
        if self.buf.len() == 0 {
            None
        } else {
            let m = self.buf.remove(0);
            proof {
                assert(self.buf@ =~= old(self).buf@.drop_first());
            }
            Some(m)
        }
    }
}

/// The backpressure law: on a full channel a send does not go through,
/// and the pending event is not lost — once the aggregator drains one
/// event, the same send succeeds, and the channel then holds exactly the
/// earlier events, less the drained one, followed by the pending one.
/// Nothing is dropped and nothing is reordered.
pub proof fn lemma_channel_backpressure(q: Seq<Message>, cap: nat, m: Message)
    requires
        q.len() == cap,
        cap > 0,
    ensures
        channel_send(q, cap, m) is None,
        channel_send(q.drop_first(), cap, m) == Some(q.drop_first().push(m)),
{
}

} // verus!
