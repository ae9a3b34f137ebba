//! The message-bus mailbox.
//!
//! A plugin instance talks to the message bus through buffered queues: the
//! transport outside this crate delivers inbound messages into the inbox and
//! drains the outbox onto the wire.  The outbox is bounded, mirroring the
//! transport client's bounded request queue, so a publish can fail without
//! blocking — the failure surfaces as a [`RuntimeError::PublishQueueFull`].

use vstd::prelude::*;
use vstd::string::StringExecFns;

use crate::errors::RuntimeError;

verus! {

/// Relies on `uuid::Uuid::new_v4` and the `Display` rendering of `Uuid`:
/// a fresh random (version 4) identifier in its hyphenated textual form,
/// which is always 36 characters long.  Nothing is promised of which
/// characters come back: the value is random.
#[verifier::external_body]
fn fresh_uuid_text() -> (text: String)
    ensures
        text@.len() == 36,
{
    uuid::Uuid::new_v4().to_string()
}

/// A fresh client identity for one bus connection: the fixed prefix
/// `rusty_bind-` followed by a random identifier, 47 characters in all.
pub fn mqtt_client_id() -> (id: String)
    ensures
        id@.len() == 47,
        id@.take(11) == "rusty_bind-"@,
{
    let mut id = String::from_str("rusty_bind-");
    let suffix = fresh_uuid_text();
    proof {
        reveal_strlit("rusty_bind-");
    }
    id.append(suffix.as_str());
    proof {
        assert(id@.take(11) =~= "rusty_bind-"@);
    }
    id
}

/// One message on the bus: a topic and a raw payload.
pub struct Message {
    /// The topic the message was published under.
    pub topic: String,
    /// The raw payload bytes.
    pub payload: Vec<u8>,
}

/// A plugin instance's buffered connection to the message bus.
pub struct MQTT {
    inbox: Vec<Message>,
    outbox: Vec<Message>,
    subscriptions: Vec<String>,
    outbox_capacity: usize,
}

impl MQTT {
    /// Inbound messages not yet consumed, oldest first.
    pub closed spec fn spec_inbox(self) -> Seq<Message> {
        self.inbox@
    }

    /// Outbound messages not yet handed to the transport, oldest first.
    pub closed spec fn spec_outbox(self) -> Seq<Message> {
        self.outbox@
    }

    /// The topics subscribed to, in subscription order.
    pub closed spec fn spec_subscriptions(self) -> Seq<String> {
        self.subscriptions@
    }

    /// The bound on the outbound queue.
    pub closed spec fn spec_capacity(self) -> usize {
        self.outbox_capacity
    }

    /// Mailbox invariant: the outbox never exceeds its bound.
    pub open spec fn wf(self) -> bool {
        self.spec_outbox().len() <= self.spec_capacity()
    }

    /// A fresh mailbox whose outbound queue holds at most
    /// `outbox_capacity` messages.
    pub fn new(outbox_capacity: usize) -> (mailbox: MQTT)
        ensures
            mailbox.wf(),
            mailbox.spec_inbox().len() == 0,
            mailbox.spec_outbox().len() == 0,
            mailbox.spec_subscriptions().len() == 0,
            mailbox.spec_capacity() == outbox_capacity,
    {
        MQTT {
            inbox: Vec::new(),
            outbox: Vec::new(),
            subscriptions: Vec::new(),
            outbox_capacity,
        }
    }

    /// Record a subscription for the transport to establish.
    pub fn subscribe(&mut self, topic: String)
        ensures
            final(self).spec_subscriptions() == old(self).spec_subscriptions().push(topic),
            final(self).spec_inbox() == old(self).spec_inbox(),
            final(self).spec_outbox() == old(self).spec_outbox(),
            final(self).spec_capacity() == old(self).spec_capacity(),
    {
        self.subscriptions.push(topic);
    }

    /// Queue a message for publication.  Succeeds exactly when the bounded
    /// outbox has room; a full outbox rejects the message without blocking.
    pub fn try_publish(&mut self, topic: String, payload: Vec<u8>) -> (outcome: Result<
        (),
        RuntimeError,
    >)
        requires
            old(self).wf(),
        ensures
            final(self).wf(),
            final(self).spec_inbox() == old(self).spec_inbox(),
            final(self).spec_subscriptions() == old(self).spec_subscriptions(),
            final(self).spec_capacity() == old(self).spec_capacity(),
            if old(self).spec_outbox().len() < old(self).spec_capacity() {
                &&& outcome is Ok
                &&& final(self).spec_outbox() == old(self).spec_outbox().push(
                    (Message { topic, payload }),
                )
            } else {
                &&& outcome == Err::<(), RuntimeError>(RuntimeError::PublishQueueFull)
                &&& final(self).spec_outbox() == old(self).spec_outbox()
            },
    {
        if self.outbox.len() < self.outbox_capacity {
            self.outbox.push(Message { topic, payload });
            Ok(())
        } else {
            Err(RuntimeError::PublishQueueFull)
        }
    }

    /// Take the oldest inbound message, if any.
    pub fn try_recv(&mut self) -> (message: Option<Message>)
        ensures
            final(self).spec_outbox() == old(self).spec_outbox(),
            final(self).spec_subscriptions() == old(self).spec_subscriptions(),
            final(self).spec_capacity() == old(self).spec_capacity(),
            if old(self).spec_inbox().len() == 0 {
                &&& message is None
                &&& final(self).spec_inbox() == old(self).spec_inbox()
            } else {
                &&& message == Some(old(self).spec_inbox()[0])
                &&& final(self).spec_inbox() == old(self).spec_inbox().drop_first()
            },
    {
        if self.inbox.len() == 0 {
            None
        } else {
            let message = self.inbox.remove(0);
            proof {
                assert(self.inbox@ =~= old(self).spec_inbox().drop_first());
            }
            Some(message)
        }
    }

    /// The transport delivers one inbound message.
    pub fn deliver(&mut self, message: Message)
        ensures
            final(self).spec_inbox() == old(self).spec_inbox().push(message),
            final(self).spec_outbox() == old(self).spec_outbox(),
            final(self).spec_subscriptions() == old(self).spec_subscriptions(),
            final(self).spec_capacity() == old(self).spec_capacity(),
    {
        self.inbox.push(message);
    }

    /// Hand every queued outbound message to the transport, leaving the
    /// outbox empty.
    pub fn take_outgoing(&mut self) -> (outgoing: Vec<Message>)
        ensures
            outgoing@ == old(self).spec_outbox(),
            final(self).spec_outbox().len() == 0,
            final(self).spec_inbox() == old(self).spec_inbox(),
            final(self).spec_subscriptions() == old(self).spec_subscriptions(),
            final(self).spec_capacity() == old(self).spec_capacity(),
            final(self).wf(),
    {
        let mut outgoing: Vec<Message> = Vec::new();
        core::mem::swap(&mut self.outbox, &mut outgoing);
        outgoing
    }

    /// How many inbound messages are waiting.
    pub fn inbox_len(&self) -> (n: usize)
        ensures
            n == self.spec_inbox().len(),
    {
        self.inbox.len()
    }

    /// How many outbound messages are waiting.
    pub fn outbox_len(&self) -> (n: usize)
        ensures
            n == self.spec_outbox().len(),
    {
        self.outbox.len()
    }
}

} // verus!
