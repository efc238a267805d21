//! The listener registry: one mailbox for each subscribed topic.
//!
//! A mailbox holds at most one message. A message that arrives replaces the
//! one that waits there, whether or not it was read, so a reader only ever
//! sees the newest message of a topic. A message whose fields disagree with
//! each other, or whose kind is not the mailbox's, is dropped on arrival and
//! the mailbox keeps what it held.

use vstd::prelude::*;
use crate::message::{Kind, Message};

verus! {

/// The mailbox of one topic.
#[derive(Clone, Debug, PartialEq, Eq)]
pub struct Slot {
    pub topic: String,
    pub kind: Kind,
    /// Whether the topic is still subscribed.
    pub live: bool,
    /// The newest message of the topic, if one arrived.
    pub content: Option<Message>,
}

/// Whether the mailbox `handle` of `slots` takes `message`: the mailbox
/// exists, is still subscribed, is of the message's kind, and the fields of
/// the message agree with each other.
pub open spec fn accepts(slots: Seq<Slot>, handle: int, message: Message) -> bool {
    &&& 0 <= handle < slots.len()
    &&& slots[handle].live
    &&& slots[handle].kind == message.kind()
    &&& message.well_formed()
}

/// The mailboxes after `message` arrives at mailbox `handle`.
pub open spec fn published(slots: Seq<Slot>, handle: int, message: Message) -> Seq<Slot> {
    if accepts(slots, handle, message) {
        slots.update(handle, Slot { content: Some(message), ..slots[handle] })
    } else {
        slots
    }
}

/// The newest message of mailbox `handle`.
pub open spec fn latest_of(slots: Seq<Slot>, handle: int) -> Option<Message> {
    if 0 <= handle < slots.len() && slots[handle].live {
        slots[handle].content
    } else {
        None
    }
}

/// The first subscribed mailbox of `topic` at or after position `from`.
pub open spec fn first_subscribed(slots: Seq<Slot>, topic: Seq<char>, from: int) -> Option<int>
    decreases slots.len() - from,
{
    if from < 0 || from >= slots.len() {
        None
    } else if slots[from].live && slots[from].topic@ == topic {
        Some(from)
    } else {
        first_subscribed(slots, topic, from + 1)
    }
}

/// The mailbox of a subscribed topic, if there is one.
pub open spec fn subscribed(slots: Seq<Slot>, topic: Seq<char>) -> Option<int> {
    first_subscribed(slots, topic, 0)
}

/// No two subscribed mailboxes share a topic, and what a mailbox holds is of
/// its kind and agrees with itself.
pub open spec fn slots_wf(slots: Seq<Slot>) -> bool {
    &&& forall|i: int, j: int|
        0 <= i < j < slots.len() && (#[trigger] slots[i]).live && (#[trigger] slots[j]).live
            ==> slots[i].topic@ != slots[j].topic@
    &&& forall|i: int|
        0 <= i < slots.len() ==> ((#[trigger] slots[i]).content matches Some(m) ==> m.kind()
            == slots[i].kind && m.well_formed())
}

/// Two messages that arrive at one mailbox before any read leave the second
/// as the newest, if the mailbox takes it: of the first nothing stays. A
/// message that the mailbox does not take leaves what was there.
pub proof fn law_last_write_wins(slots: Seq<Slot>, handle: int, first: Message, second: Message)
    ensures
        accepts(slots, handle, second) ==> latest_of(
            published(published(slots, handle, first), handle, second),
            handle,
        ) == Some(second),
        !accepts(slots, handle, second) ==> published(
            published(slots, handle, first),
            handle,
            second,
        ) == published(slots, handle, first),
        published(published(slots, handle, first), handle, second).len() == slots.len(),
{
}

/// A message that arrives at one mailbox leaves every other mailbox as it
/// was, and keeps the registry well formed.
pub proof fn law_publish_is_local(slots: Seq<Slot>, handle: int, message: Message, other: int)
    requires
        slots_wf(slots),
    ensures
        slots_wf(published(slots, handle, message)),
        other != handle ==> latest_of(published(slots, handle, message), other) == latest_of(
            slots,
            other,
        ),
{
}

/// The mailboxes of all subscribed topics.
pub struct ListenerRegistry {
    slots: Vec<Slot>,
}

impl View for ListenerRegistry {
    type V = Seq<Slot>;

    closed spec fn view(&self) -> Seq<Slot> {
        self.slots@
    }
}

impl ListenerRegistry {
    /// A registry without mailboxes.
    pub fn new() -> (registry: ListenerRegistry)
        ensures
            registry@ == Seq::<Slot>::empty(),
            slots_wf(registry@),
    {
        ListenerRegistry { slots: Vec::new() }
    }

    /// The number of mailboxes ever made.
    pub fn len(&self) -> (n: usize)
        ensures
            n == self@.len(),
    {
        self.slots.len()
    }

    /// The handle of the mailbox of `topic`. A topic that is subscribed
    /// already keeps its mailbox, with its kind and content; for any other a
    /// new, empty mailbox of the given kind is made.
    pub fn subscribe(&mut self, topic: String, kind: Kind) -> (handle: usize)
        ensures
            slots_wf(old(self)@) ==> slots_wf(final(self)@),
            match subscribed(old(self)@, topic@) {
                Some(at) => handle == at && final(self)@ == old(self)@,
                None => handle == old(self)@.len() && final(self)@ == old(self)@.push(
                    Slot { topic, kind, live: true, content: None },
                ),
            },
            handle < final(self)@.len(),
            final(self)@[handle as int].live,
            final(self)@[handle as int].topic@ == topic@,
    {
        let mut i: usize = 0;
        while i < self.slots.len()
            invariant
                self@ == old(self)@,
                i <= self.slots.len(),
                subscribed(self@, topic@) == first_subscribed(self@, topic@, i as int),
                forall|j: int| 0 <= j < i ==> !((#[trigger] self@[j]).live && self@[j].topic@ == topic@),
            decreases self.slots.len() - i,
        {
            if self.slots[i].live && self.slots[i].topic == topic {
                return i;
            }
            i = i + 1;
        }
        let handle = self.slots.len();
        self.slots.push(Slot { topic, kind, live: true, content: None });
        handle
    }

    /// Gives up the mailbox `handle`: what it held is dropped and no message
    /// arrives there any more. A handle that names no mailbox changes
    /// nothing.
    pub fn unsubscribe(&mut self, handle: usize)
        ensures
            slots_wf(old(self)@) ==> slots_wf(final(self)@),
            final(self)@ == if handle < old(self)@.len() {
                old(self)@.update(
                    handle as int,
                    Slot { live: false, content: None, ..old(self)@[handle as int] },
                )
            } else {
                old(self)@
            },
    {
        if handle < self.slots.len() {
            self.slots[handle].live = false;
            self.slots[handle].content = None;
            assert(self@ =~= old(self)@.update(
                handle as int,
                Slot { live: false, content: None, ..old(self)@[handle as int] },
            ));
        }
    }

    /// Delivers `message` to the mailbox `handle`. The message replaces what
    /// the mailbox held, read or not. A message that the mailbox does not
    /// take is dropped, and the mailbox keeps what it held.
    pub fn publish(&mut self, handle: usize, message: Message) -> (accepted: bool)
        ensures
            slots_wf(old(self)@) ==> slots_wf(final(self)@),
            accepted == accepts(old(self)@, handle as int, message),
            final(self)@ == published(old(self)@, handle as int, message),
    {
        if handle >= self.slots.len() {
            return false;
        }
        if !self.slots[handle].live {
            return false;
        }
        let kind = message.kind_of();
        if !(self.slots[handle].kind == kind) || !message.is_well_formed() {
            return false;
        }
        self.slots[handle].content = Some(message);
        assert(self@ =~= published(old(self)@, handle as int, message));
        true
    }

    /// The newest message of the mailbox `handle`, or `None` if none arrived
    /// or the handle names no subscribed mailbox. Reading leaves the message
    /// in place.
    pub fn latest(&self, handle: usize) -> (snapshot: Option<&Message>)
        ensures
            match snapshot {
                Some(message) => latest_of(self@, handle as int) == Some(*message),
                None => latest_of(self@, handle as int).is_none(),
            },
    {
        if handle < self.slots.len() && self.slots[handle].live {
            match &self.slots[handle].content {
                Some(message) => Some(message),
                None => None,
            }
        } else {
            None
        }
    }
}

} // verus!
