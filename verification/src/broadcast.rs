//! The broadcast channel: every message that is published goes to the mailbox
//! of every subscriber of that moment. A mailbox holds no more than
//! `CAPACITY` messages; a subscriber that falls behind loses its oldest ones.

use vstd::prelude::*;
use std::collections::VecDeque;
use crate::clock::Timestamp;
use vstd::set_lib::lemma_set_subset_finite;
use crate::handle::{handles_below, is_least_free, lemma_handles_below};

verus! {

/// The number of messages that a mailbox holds at most.
pub const CAPACITY: usize = 100;

/// One line of chat: who said what, and when.
#[derive(Debug)]
pub struct ChatMessage {
    pub username: String,
    pub content: String,
    pub timestamp: Timestamp,
}

/// What a `ChatMessage` stands for in contracts.
pub struct ChatMessageView {
    pub username: Seq<char>,
    pub content: Seq<char>,
    pub timestamp: Timestamp,
}

impl View for ChatMessage {
    type V = ChatMessageView;

    open spec fn view(&self) -> ChatMessageView {
        ChatMessageView {
            username: self.username@,
            content: self.content@,
            timestamp: self.timestamp,
        }
    }
}

impl Clone for ChatMessage {
    fn clone(&self) -> (r: Self)
        ensures
            r == *self,
    {
        ChatMessage {
            username: self.username.clone(),
            content: self.content.clone(),
            timestamp: self.timestamp,
        }
    }
}

/// The views of a run of messages, in the same order.
pub open spec fn message_views(messages: Seq<ChatMessage>) -> Seq<ChatMessageView> {
    messages.map_values(|m: ChatMessage| m@)
}

/// A mailbox after one more message: the message goes to the end, and where
/// the mailbox was full its oldest message makes room.
pub open spec fn enqueue(mailbox: Seq<ChatMessageView>, message: ChatMessageView) -> Seq<
    ChatMessageView,
> {
    if mailbox.len() < CAPACITY {
        mailbox.push(message)
    } else {
        mailbox.drop_first().push(message)
    }
}

/// The mailboxes after `message` was published: each of them got it.
pub open spec fn deliver(
    mailboxes: Map<nat, Seq<ChatMessageView>>,
    message: ChatMessageView,
) -> Map<nat, Seq<ChatMessageView>> {
    Map::new(|id: nat| mailboxes.contains_key(id), |id: nat| enqueue(mailboxes[id], message))
}

/// No mailbox holds more than `CAPACITY` messages.
pub open spec fn bounded(mailboxes: Map<nat, Seq<ChatMessageView>>) -> bool {
    forall|id: nat| mailboxes.contains_key(id) ==> (#[trigger] mailboxes[id]).len() <= CAPACITY
}

/// The broadcast channel. A subscriber is known by a handle; the handle of
/// one that left is given out again.
pub struct Broadcast {
    slots: Vec<Option<VecDeque<ChatMessage>>>,
}

spec fn mailboxes_of(slots: Seq<Option<VecDeque<ChatMessage>>>) -> Map<nat, Seq<ChatMessageView>> {
    Map::new(
        |id: nat| id < slots.len() && slots[id as int] is Some,
        |id: nat| message_views(slots[id as int].unwrap()@),
    )
}

spec fn slots_bounded(slots: Seq<Option<VecDeque<ChatMessage>>>) -> bool {
    forall|i: int|
        0 <= i < slots.len() && (#[trigger] slots[i]) is Some ==> slots[i].unwrap()@.len()
            <= CAPACITY
}

impl Broadcast {
    /// No mailbox is over its capacity. This holds of every channel at all
    /// times.
    #[verifier::type_invariant]
    spec fn within_capacity(self) -> bool {
        slots_bounded(self.slots@)
    }

    /// What each subscriber has yet to receive, oldest first, by handle.
    ///
    /// Every channel that code can build keeps its mailboxes within their
    /// capacity, and these are its mailboxes. The second arm gives mailboxes
    /// also to a value that exists in a proof alone, so that what holds of
    /// all mailboxes is known of any channel at hand.
    pub closed spec fn mailboxes(&self) -> Map<nat, Seq<ChatMessageView>> {
        if slots_bounded(self.slots@) {
            mailboxes_of(self.slots@)
        } else {
            Map::empty()
        }
    }

    /// There are finitely many mailboxes, and none is over its capacity.
    pub proof fn lemma_mailboxes_bounded(&self)
        ensures
            bounded(self.mailboxes()),
            self.mailboxes().dom().finite(),
    {
        if slots_bounded(self.slots@) {
            lemma_handles_below(self.slots@.len());
            assert(self.mailboxes().dom().subset_of(handles_below(self.slots@.len())));
            lemma_set_subset_finite(handles_below(self.slots@.len()), self.mailboxes().dom());
        }
    }

    /// A channel without subscribers.
    pub fn new() -> (r: Self)
        ensures
            r.mailboxes() == Map::<nat, Seq<ChatMessageView>>::empty(),
    {
        let r = Broadcast { slots: Vec::new() };
        assert(r.mailboxes() =~= Map::<nat, Seq<ChatMessageView>>::empty());
        r
    }

    /// Opens a mailbox and returns its handle, the least that is free. The
    /// mailbox starts empty: nothing that was published before is in it.
    pub fn subscribe(&mut self) -> (id: usize)
        ensures
            is_least_free(old(self).mailboxes().dom(), id as nat),
            final(self).mailboxes() == old(self).mailboxes().insert(
                id as nat,
                Seq::<ChatMessageView>::empty(),
            ),
            bounded(final(self).mailboxes()),
    {
        proof {
            use_type_invariant(&*self);
        }
        let mut slots: Vec<Option<VecDeque<ChatMessage>>> = Vec::new();
        core::mem::swap(&mut slots, &mut self.slots);
        let ghost before = slots@;
        let mut i: usize = 0;
        while i < slots.len() && slots[i].is_some()
            invariant
                i <= slots.len(),
                slots@ == before,
                forall|j: int| 0 <= j < i ==> (#[trigger] slots[j]) is Some,
            decreases slots.len() - i,
        {
            i += 1;
        }
        if i < slots.len() {
            slots[i] = Some(VecDeque::new());
        } else {
            slots.push(Some(VecDeque::new()));
        }
        assert(message_views(slots[i as int].unwrap()@) =~= Seq::<ChatMessageView>::empty());
        assert(mailboxes_of(slots@) =~= mailboxes_of(before).insert(
            i as nat,
            Seq::<ChatMessageView>::empty(),
        ));
        assert forall|lower: nat| lower < i implies mailboxes_of(before).contains_key(lower) by {
            assert(before[lower as int] is Some);
        }
        self.slots = slots;
        i
    }

    /// Closes the mailbox of `id` and frees the handle. A handle that
    /// nobody holds changes nothing.
    pub fn unsubscribe(&mut self, id: usize)
        ensures
            final(self).mailboxes() == old(self).mailboxes().remove(id as nat),
            bounded(final(self).mailboxes()),
    {
        proof {
            use_type_invariant(&*self);
        }
        let mut slots: Vec<Option<VecDeque<ChatMessage>>> = Vec::new();
        core::mem::swap(&mut slots, &mut self.slots);
        let ghost before = slots@;
        if id < slots.len() {
            slots[id] = None;
        }
        assert(mailboxes_of(slots@) =~= mailboxes_of(before).remove(id as nat));
        self.slots = slots;
    }

    /// Puts `message` into the mailbox of every subscriber. A full mailbox
    /// drops its oldest message for it; the others are not affected.
    pub fn publish(&mut self, message: ChatMessage)
        ensures
            final(self).mailboxes() == deliver(old(self).mailboxes(), message@),
            bounded(final(self).mailboxes()),
    {
        proof {
            use_type_invariant(&*self);
        }
        let mut slots: Vec<Option<VecDeque<ChatMessage>>> = Vec::new();
        core::mem::swap(&mut slots, &mut self.slots);
        let ghost before = slots@;
        let mut i: usize = 0;
        while i < slots.len()
            invariant
                i <= slots.len(),
                slots.len() == before.len(),
                slots_bounded(before),
                slots_bounded(slots@),
                forall|j: int| i <= j < slots.len() ==> slots[j] == before[j],
                forall|j: int|
                    0 <= j < i ==> ((#[trigger] slots[j]) is Some <==> before[j] is Some),
                forall|j: int|
                    0 <= j < i && (#[trigger] slots[j]) is Some ==> message_views(
                        slots[j].unwrap()@,
                    ) == enqueue(message_views(before[j].unwrap()@), message@),
            decreases slots.len() - i,
        {
            let ghost round = slots@;
            let taken = slots[i].take();
            match taken {
                Some(mut queue) => {
                    let ghost held = queue@;
                    if queue.len() >= CAPACITY {
                        queue.pop_front();
                    }
                    queue.push_back(message.clone());
                    assert(message_views(queue@) =~= enqueue(message_views(held), message@));
                    slots[i] = Some(queue);
                },
                None => {},
            }
            assert forall|j: int| 0 <= j < slots.len() && j != i implies slots[j] == round[j] by {}
            i += 1;
        }
        assert(mailboxes_of(slots@) =~= deliver(mailboxes_of(before), message@));
        self.slots = slots;
    }

    /// Takes the oldest message out of the mailbox of `id`. `None` where the
    /// mailbox is empty or nobody holds the handle.
    pub fn receive(&mut self, id: usize) -> (r: Option<ChatMessage>)
        ensures
            match r {
                Some(message) => {
                    &&& old(self).mailboxes().contains_key(id as nat)
                    &&& old(self).mailboxes()[id as nat].len() > 0
                    &&& message@ == old(self).mailboxes()[id as nat][0]
                    &&& final(self).mailboxes() == old(self).mailboxes().insert(
                        id as nat,
                        old(self).mailboxes()[id as nat].drop_first(),
                    )
                },
                None => {
                    &&& old(self).mailboxes().contains_key(id as nat) ==> old(
                        self,
                    ).mailboxes()[id as nat].len() == 0
                    &&& final(self).mailboxes() == old(self).mailboxes()
                },
            },
            bounded(final(self).mailboxes()),
    {
        proof {
            use_type_invariant(&*self);
        }
        let mut slots: Vec<Option<VecDeque<ChatMessage>>> = Vec::new();
        core::mem::swap(&mut slots, &mut self.slots);
        let ghost before = slots@;
        let mut r: Option<ChatMessage> = None;
        if id < slots.len() {
            let taken = slots[id].take();
            match taken {
                Some(mut queue) => {
                    let ghost held = queue@;
                    r = queue.pop_front();
                    assert(r is Some ==> message_views(queue@) =~= message_views(held).drop_first());
                    slots[id] = Some(queue);
                },
                None => {},
            }
        }
        assert(r is Some ==> mailboxes_of(slots@) =~= mailboxes_of(before).insert(
            id as nat,
            mailboxes_of(before)[id as nat].drop_first(),
        ));
        assert(r is None ==> mailboxes_of(slots@) =~= mailboxes_of(before));
        self.slots = slots;
        r
    }
}

} // verus!
