//! Typed consensus events and the bounded mailbox that delivers them.
//!
//! Producers enqueue [`Message`] values; the signer actor consumes them one
//! at a time in insertion order.  The mailbox is a bounded FIFO queue with
//! explicit backpressure: once `capacity` messages are queued, a further
//! send is refused with [`SendError::Full`] and the producer must wait until
//! the actor drains a message.  A closed mailbox refuses every send with
//! [`SendError::Closed`].

use vstd::prelude::*;

use crate::encoder::BLOCK_HASH_LEN;

verus! {

/// One consensus event, tagged by role.  `block` fields carry the fixed-size
/// content digest of a proposed block; `notarization` and `finalization`
/// fields carry quorum certificates assembled upstream; `signature` fields
/// carry single-party signatures that the cryptographic collaborator
/// verifies, which the signer treats as opaque bytes.
#[derive(Debug)]
pub enum Message {
    /// A block proposal for the actor's own pending turn.
    Propose { epoch: u64, view: u64, block: Vec<u8>, payload: Vec<u8>, signature: Vec<u8> },
    /// A request to vote for a block in a view.
    Vote { epoch: u64, view: u64, block: Vec<u8>, signature: Vec<u8> },
    /// A request to sign the finalization of a notarized block.
    Finalize { epoch: u64, view: u64, block: Vec<u8>, notarization: Vec<u8>, signature: Vec<u8> },
    /// A view-change signal carrying the certificate for the stated view.
    Advance { epoch: u64, view: u64, block: Vec<u8>, notarization: Vec<u8> },
    /// A request to sign a view-change lock.
    Lock {
        epoch: u64,
        view: u64,
        block: Vec<u8>,
        notarization: Vec<u8>,
        finalization: Vec<u8>,
    },
    /// A request to contribute to the per-view beacon seed.
    Seed { epoch: u64, view: u64, signature: Vec<u8> },
}

impl Message {
    /// Every block hash carried by a message has the fixed digest size.
    pub open spec fn wf(self) -> bool {
        match self {
            Message::Propose { block, .. } => block@.len() == BLOCK_HASH_LEN,
            Message::Vote { block, .. } => block@.len() == BLOCK_HASH_LEN,
            Message::Finalize { block, .. } => block@.len() == BLOCK_HASH_LEN,
            Message::Advance { block, .. } => block@.len() == BLOCK_HASH_LEN,
            Message::Lock { block, .. } => block@.len() == BLOCK_HASH_LEN,
            Message::Seed { .. } => true,
        }
    }

    /// Runtime twin of [`Message::wf`], for callers assembling messages
    /// from unchecked input.
    pub fn well_formed(&self) -> (r: bool)
        ensures
            r == self.wf(),
    {
        match self {
            Message::Propose { block, .. } => block.len() == BLOCK_HASH_LEN,
            Message::Vote { block, .. } => block.len() == BLOCK_HASH_LEN,
            Message::Finalize { block, .. } => block.len() == BLOCK_HASH_LEN,
            Message::Advance { block, .. } => block.len() == BLOCK_HASH_LEN,
            Message::Lock { block, .. } => block.len() == BLOCK_HASH_LEN,
            Message::Seed { .. } => true,
        }
    }

}

/// Why a send was refused.
#[derive(Clone, Copy, Debug, PartialEq, Eq)]
pub enum SendError {
    /// The queue already holds `capacity` messages; the producer must wait.
    Full,
    /// The consumer side has shut down; no further message will be delivered.
    Closed,
}

/// A bounded, ordered channel from event producers into the signer actor.
pub struct Mailbox {
    queue: Vec<Message>,
    capacity: usize,
    closed: bool,
}

impl Mailbox {
    /// The queued messages, oldest first.
    pub closed spec fn view(&self) -> Seq<Message> {
        self.queue@
    }

    /// The capacity the mailbox was created with.
    pub closed spec fn capacity_spec(&self) -> usize {
        self.capacity
    }

    /// Whether the mailbox has been closed.
    pub closed spec fn closed_spec(&self) -> bool {
        self.closed
    }

    /// The queue never exceeds its capacity, the capacity is positive, and
    /// every queued message is well-formed.
    pub open spec fn wf(&self) -> bool {
        &&& self@.len() <= self.capacity_spec()
        &&& self.capacity_spec() >= 1
        &&& forall|i: int| 0 <= i < self@.len() ==> (#[trigger] self@[i]).wf()
    }

    /// Create an empty mailbox holding at most `capacity` messages.
    pub fn new(capacity: usize) -> (r: Self)
        requires
            capacity >= 1,
        ensures
            r.wf(),
            r@ == Seq::<Message>::empty(),
            r.capacity_spec() == capacity,
            !r.closed_spec(),
    {
        Mailbox { queue: Vec::new(), capacity, closed: false }
    }

    /// Enqueue one event.  Fails with `Full` when the queue is at capacity
    /// (the producer must retry once the actor has drained a message) and
    /// with `Closed` when the consumer has shut down; otherwise the message
    /// is appended behind every message already queued.
    pub fn try_send(&mut self, msg: Message) -> (r: Result<(), SendError>)
        requires
            old(self).wf(),
            msg.wf(),
        ensures
            final(self).wf(),
            final(self).capacity_spec() == old(self).capacity_spec(),
            final(self).closed_spec() == old(self).closed_spec(),
            old(self).closed_spec() ==> r == Err::<(), SendError>(SendError::Closed)
                && final(self)@ == old(self)@,
            !old(self).closed_spec() && old(self)@.len() == old(self).capacity_spec() ==> r
                == Err::<(), SendError>(SendError::Full) && final(self)@ == old(self)@,
            !old(self).closed_spec() && old(self)@.len() < old(self).capacity_spec() ==> r
                == Ok::<(), SendError>(()) && final(self)@ == old(self)@.push(msg),
    {
        if self.closed {
            return Err(SendError::Closed);
        }
        if self.queue.len() == self.capacity {
            return Err(SendError::Full);
        }
        self.queue.push(msg);
        Ok(())
    }

    /// Dequeue the oldest message, or `None` when nothing is queued.
    pub fn recv(&mut self) -> (r: Option<Message>)
        requires
            old(self).wf(),
        ensures
            final(self).wf(),
            final(self).capacity_spec() == old(self).capacity_spec(),
            final(self).closed_spec() == old(self).closed_spec(),
            old(self)@.len() == 0 ==> r == None::<Message> && final(self)@ == old(self)@,
            old(self)@.len() > 0 ==> r == Some(old(self)@[0])
                && final(self)@ == old(self)@.drop_first(),
    {
        if self.queue.len() == 0 {
            return None;
        }
        let msg = self.queue.remove(0);
        proof {
            assert(old(self)@.remove(0) =~= old(self)@.drop_first());
        }
        Some(msg)
    }

    /// Shut the mailbox down: every later send is refused with `Closed`.
    /// Messages already queued stay and can still be drained.
    pub fn close(&mut self)
        requires
            old(self).wf(),
        ensures
            final(self).wf(),
            final(self).capacity_spec() == old(self).capacity_spec(),
            final(self).closed_spec(),
            final(self)@ == old(self)@,
    {
        self.closed = true;
    }

    /// How many messages are queued.
    pub fn len(&self) -> (r: usize)
        ensures
            r == self@.len(),
    {
        self.queue.len()
    }

    /// Whether a send would currently be refused with `Full`.
    pub fn is_full(&self) -> (r: bool)
        ensures
            r == (self@.len() == self.capacity_spec()),
    {
        self.queue.len() == self.capacity
    }
}

} // verus!
