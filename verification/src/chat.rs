//! The hub: presence, the broadcast channel and the socket sinks behind one
//! value, with the operations that a connection performs on them.

use vstd::prelude::*;
use vstd::string::*;
use tokio::sync::mpsc::UnboundedSender;
pub use crate::broadcast::{ChatMessage, ChatMessageView};
use crate::broadcast::{bounded, deliver, Broadcast};
use crate::clock::{now, Timestamp};
pub use crate::presence::{User, UserView};
use crate::presence::{distinct_names, user_views, with_user, without_user, PresenceStore};
use crate::handle::is_least_free;
use crate::sinks::{one_for_each, refused, Offer, SinkRegistry};
use crate::wire::{encode_user_list, user_list_json};

verus! {

/// What a hub holds, as contracts see it.
#[verifier::ext_equal]
pub struct HubView {
    /// Who is present, in the order in which a snapshot lists them.
    pub users: Seq<UserView>,
    /// What each subscriber has yet to receive, oldest first, by handle.
    pub mailboxes: Map<nat, Seq<ChatMessageView>>,
    /// The registered socket sinks, by handle.
    pub sinks: Map<nat, UnboundedSender<String>>,
    /// The sink handles that are given out.
    pub reserved: Set<nat>,
}

/// The announcement that `name` arrived.
pub open spec fn arrival(name: Seq<char>, at: Timestamp) -> ChatMessageView {
    ChatMessageView { username: name, content: name + " joined"@, timestamp: at }
}

/// The announcement that `name` left.
pub open spec fn departure(name: Seq<char>, at: Timestamp) -> ChatMessageView {
    ChatMessageView { username: name, content: name + " left"@, timestamp: at }
}

impl HubView {
    /// A hub that nobody has touched yet.
    pub open spec fn empty() -> HubView {
        HubView {
            users: Seq::empty(),
            mailboxes: Map::empty(),
            sinks: Map::empty(),
            reserved: Set::empty(),
        }
    }

    /// What holds of every hub: no name is listed twice; there are finitely
    /// many mailboxes, none over its capacity; finitely many sink handles
    /// are reserved, and every registered sink has one of them.
    pub open spec fn valid(self) -> bool {
        &&& distinct_names(self.users)
        &&& self.mailboxes.dom().finite()
        &&& bounded(self.mailboxes)
        &&& self.reserved.finite()
        &&& self.sinks.dom().finite()
        &&& self.sinks.dom().subset_of(self.reserved)
    }

    /// The hub after `name` was recorded as present since `at`.
    pub open spec fn add_user(self, name: Seq<char>, at: Timestamp) -> HubView {
        HubView { users: with_user(self.users, UserView { username: name, last_seen: at }), ..self }
    }

    /// The hub after the entry of `name` was taken out.
    pub open spec fn remove_user(self, name: Seq<char>) -> HubView {
        HubView { users: without_user(self.users, name), ..self }
    }

    /// The hub after `message` was published.
    pub open spec fn publish(self, message: ChatMessageView) -> HubView {
        HubView { mailboxes: deliver(self.mailboxes, message), ..self }
    }

    /// The hub after a subscriber got the handle `id`.
    pub open spec fn subscribe(self, id: nat) -> HubView {
        HubView { mailboxes: self.mailboxes.insert(id, Seq::empty()), ..self }
    }

    /// The hub after the subscriber of `id` left.
    pub open spec fn unsubscribe(self, id: nat) -> HubView {
        HubView { mailboxes: self.mailboxes.remove(id), ..self }
    }

    /// The hub after the subscriber of `id` took its oldest message.
    pub open spec fn advance(self, id: nat) -> HubView {
        HubView { mailboxes: self.mailboxes.insert(id, self.mailboxes[id].drop_first()), ..self }
    }

    /// The hub after `sink` was registered under `id`.
    pub open spec fn register(self, id: nat, sink: UnboundedSender<String>) -> HubView {
        HubView { sinks: self.sinks.insert(id, sink), reserved: self.reserved.insert(id), ..self }
    }

    /// The hub after the handle `id` was freed.
    pub open spec fn unregister(self, id: nat) -> HubView {
        HubView { sinks: self.sinks.remove(id), reserved: self.reserved.remove(id), ..self }
    }

    /// The hub after the sinks of `refused` were dropped.
    pub open spec fn drop_sinks(self, refused: Set<nat>) -> HubView {
        HubView { sinks: self.sinks.remove_keys(refused), ..self }
    }

    /// The hub after `name` joined at `at` and the sinks of `refused` did
    /// not take the snapshot that followed.
    pub open spec fn join(self, name: Seq<char>, at: Timestamp, refused: Set<nat>) -> HubView {
        self.add_user(name, at).publish(arrival(name, at)).drop_sinks(refused)
    }

    /// The hub after `name` left at `at` and the sinks of `refused` did not
    /// take the snapshot that followed.
    pub open spec fn leave(self, name: Seq<char>, at: Timestamp, refused: Set<nat>) -> HubView {
        self.remove_user(name).publish(departure(name, at)).drop_sinks(refused)
    }

    /// The hub after `name` said `content` at `at`.
    pub open spec fn say(self, name: Seq<char>, content: Seq<char>, at: Timestamp) -> HubView {
        self.publish(ChatMessageView { username: name, content, timestamp: at })
    }
}

/// The hub that all connections share.
pub struct ChatState {
    users: PresenceStore,
    channel: Broadcast,
    websockets: SinkRegistry,
}

impl View for ChatState {
    type V = HubView;

    closed spec fn view(&self) -> HubView {
        HubView {
            users: self.users.roster(),
            mailboxes: self.channel.mailboxes(),
            sinks: self.websockets.sinks(),
            reserved: self.websockets.reserved(),
        }
    }
}

impl ChatState {
    /// What holds of every hub holds of this one.
    pub proof fn lemma_valid(&self)
        ensures
            self@.valid(),
    {
        self.users.lemma_roster_distinct();
        self.channel.lemma_mailboxes_bounded();
        self.websockets.lemma_sinks_reserved();
    }

    /// A hub without users, subscribers or sinks.
    pub fn new() -> (r: Self)
        ensures
            r@ == HubView::empty(),
            r@.valid(),
    {
        let r = ChatState {
            users: PresenceStore::new(),
            channel: Broadcast::new(),
            websockets: SinkRegistry::new(),
        };
        proof {
            r.lemma_valid();
        }
        r
    }

    /// Records `username` as present since `now`; an entry of the same name
    /// is overwritten.
    pub fn add_user_at(&mut self, username: String, now: Timestamp)
        ensures
            final(self)@ == old(self)@.add_user(username@, now),
            final(self)@.valid(),
    {
        self.users.add(username, now);
        proof {
            self.lemma_valid();
        }
    }

    /// Records `username` as present since the moment of the call, whenever
    /// that is.
    pub fn add_user(&mut self, username: String)
        ensures
            exists|at: Timestamp| final(self)@ == #[trigger] old(self)@.add_user(username@, at),
            final(self)@.valid(),
    {
        let at = now();
        self.add_user_at(username, at);
    }

    /// Takes the entry of `username` out. A name that is absent changes
    /// nothing.
    pub fn remove_user(&mut self, username: &str)
        ensures
            final(self)@ == old(self)@.remove_user(username@),
            final(self)@.valid(),
    {
        self.users.remove(username);
        proof {
            self.lemma_valid();
        }
    }

    /// A snapshot of who is present. No name occurs twice in it.
    pub fn get_users(&self) -> (r: Vec<User>)
        ensures
            user_views(r@) == self@.users,
            distinct_names(user_views(r@)),
    {
        self.users.snapshot()
    }

    /// Publishes `message` to every subscriber of this moment.
    pub fn broadcast_message(&mut self, message: ChatMessage)
        ensures
            final(self)@ == old(self)@.publish(message@),
            final(self)@.valid(),
    {
        self.channel.publish(message);
        proof {
            self.lemma_valid();
        }
    }

    /// Opens a mailbox for what is published from now on, and returns its
    /// handle: the least that no subscriber holds.
    pub fn subscribe(&mut self) -> (id: usize)
        ensures
            is_least_free(old(self)@.mailboxes.dom(), id as nat),
            final(self)@ == old(self)@.subscribe(id as nat),
            final(self)@.valid(),
    {
        let id = self.channel.subscribe();
        proof {
            self.lemma_valid();
        }
        id
    }

    /// Closes the mailbox of `id`. A handle that nobody holds changes
    /// nothing.
    pub fn unsubscribe(&mut self, id: usize)
        ensures
            final(self)@ == old(self)@.unsubscribe(id as nat),
            final(self)@.valid(),
    {
        self.channel.unsubscribe(id);
        proof {
            self.lemma_valid();
        }
    }

    /// Takes the oldest message out of the mailbox of `id`. `None`, and no
    /// change, where the mailbox is empty or nobody holds the handle.
    pub fn receive(&mut self, id: usize) -> (r: Option<ChatMessage>)
        ensures
            match r {
                Some(message) => {
                    &&& old(self)@.mailboxes.contains_key(id as nat)
                    &&& old(self)@.mailboxes[id as nat].len() > 0
                    &&& message@ == old(self)@.mailboxes[id as nat][0]
                    &&& final(self)@ == old(self)@.advance(id as nat)
                },
                None => {
                    &&& old(self)@.mailboxes.contains_key(id as nat) ==> old(
                        self,
                    )@.mailboxes[id as nat].len() == 0
                    &&& final(self)@ == old(self)@
                },
            },
            final(self)@.valid(),
    {
        let r = self.channel.receive(id);
        proof {
            self.lemma_valid();
        }
        r
    }

    /// Registers the sink of a socket client and returns its handle: the
    /// least that is not reserved. The handle stays with this sink until
    /// `unregister_ws` frees it.
    pub fn register_ws(&mut self, sender: UnboundedSender<String>) -> (id: usize)
        ensures
            is_least_free(old(self)@.reserved, id as nat),
            final(self)@ == old(self)@.register(id as nat, sender),
            final(self)@.valid(),
    {
        let id = self.websockets.register(sender);
        proof {
            self.lemma_valid();
        }
        id
    }

    /// Takes the sink of `id` out, if it is still there, and frees the
    /// handle. A handle that is not reserved changes nothing.
    pub fn unregister_ws(&mut self, id: usize)
        ensures
            final(self)@ == old(self)@.unregister(id as nat),
            final(self)@.valid(),
    {
        self.websockets.unregister(id);
        proof {
            self.lemma_valid();
        }
    }

    /// The number of registered sinks.
    pub fn sink_count(&self) -> (n: usize)
        ensures
            n == self@.sinks.dom().len(),
    {
        self.websockets.count()
    }

    /// Offers `text` to every registered sink, in the order of their
    /// handles, and returns what became of each offer. Whether a sink takes
    /// the text is for its receiving end to decide.
    pub fn offer(&self, text: &str) -> (offers: Vec<Offer>)
        ensures
            one_for_each(offers@, self@.sinks.dom()),
    {
        self.websockets.offer(text)
    }

    /// Drops the sinks whose offer was not accepted, and no others.
    pub fn drop_refused(&mut self, offers: &Vec<Offer>)
        ensures
            final(self)@ == old(self)@.drop_sinks(refused(offers@)),
            final(self)@.valid(),
    {
        self.websockets.drop_refused(offers);
        proof {
            self.lemma_valid();
        }
    }

    /// The presence snapshot as the frame that goes to the sinks.
    pub fn user_list_frame(&self) -> (r: String)
        ensures
            r@ == user_list_json(self@.users),
    {
        let users = self.users.snapshot();
        encode_user_list(&users)
    }

    /// Writes the presence snapshot once, offers it to every registered
    /// sink, and drops the sinks that did not take it. Which ones those are
    /// is for the receiving ends to decide; all others stay.
    pub fn broadcast_user_list(&mut self)
        ensures
            exists|refused: Set<nat>|
                refused.subset_of(old(self)@.sinks.dom()) && final(self)@ == #[trigger] old(
                    self,
                )@.drop_sinks(refused),
            final(self)@.valid(),
    {
        let text = self.user_list_frame();
        let offers = self.offer(text.as_str());
        self.drop_refused(&offers);
        assert(self@ == old(self)@.drop_sinks(refused(offers@)));
    }

    /// `username` joins at `now`: it is recorded as present, its arrival is
    /// announced to every subscriber, and the new snapshot goes to the
    /// sinks.
    pub fn join_at(&mut self, username: String, now: Timestamp)
        ensures
            exists|refused: Set<nat>|
                refused.subset_of(old(self)@.sinks.dom()) && final(self)@ == #[trigger] old(
                    self,
                )@.join(username@, now, refused),
            final(self)@.valid(),
    {
        let mut content = username.clone();
        content.append(" joined");
        let announcement = ChatMessage { username: username.clone(), content, timestamp: now };
        self.add_user_at(username, now);
        self.broadcast_message(announcement);
        let text = self.user_list_frame();
        let ghost before = self@;
        let offers = self.offer(text.as_str());
        self.drop_refused(&offers);
        assert(before.sinks == old(self)@.sinks);
        assert(self@ == old(self)@.join(username@, now, refused(offers@)));
    }

    /// `username` joins at the moment of the call, whenever that is.
    pub fn join(&mut self, username: String)
        ensures
            exists|at: Timestamp, refused: Set<nat>|
                refused.subset_of(old(self)@.sinks.dom()) && final(self)@ == #[trigger] old(
                    self,
                )@.join(username@, at, refused),
            final(self)@.valid(),
    {
        let at = now();
        self.join_at(username, at);
    }

    /// `username` leaves at `now`: its entry is taken out, its departure is
    /// announced to every subscriber, and the new snapshot goes to the
    /// sinks. Someone who was not present is announced all the same; the
    /// store does not change for it.
    pub fn leave_at(&mut self, username: &str, now: Timestamp)
        ensures
            exists|refused: Set<nat>|
                refused.subset_of(old(self)@.sinks.dom()) && final(self)@ == #[trigger] old(
                    self,
                )@.leave(username@, now, refused),
            final(self)@.valid(),
    {
        let mut content = username.to_owned();
        content.append(" left");
        let announcement = ChatMessage { username: username.to_owned(), content, timestamp: now };
        self.remove_user(username);
        self.broadcast_message(announcement);
        let text = self.user_list_frame();
        let ghost before = self@;
        let offers = self.offer(text.as_str());
        self.drop_refused(&offers);
        assert(before.sinks == old(self)@.sinks);
        assert(self@ == old(self)@.leave(username@, now, refused(offers@)));
    }

    /// `username` leaves at the moment of the call, whenever that is.
    pub fn leave(&mut self, username: &str)
        ensures
            exists|at: Timestamp, refused: Set<nat>|
                refused.subset_of(old(self)@.sinks.dom()) && final(self)@ == #[trigger] old(
                    self,
                )@.leave(username@, at, refused),
            final(self)@.valid(),
    {
        let at = now();
        self.leave_at(username, at);
    }

    /// Publishes what `username` said at `now`. Presence does not change.
    pub fn say_at(&mut self, username: String, content: String, now: Timestamp)
        ensures
            final(self)@ == old(self)@.say(username@, content@, now),
            final(self)@.valid(),
    {
        self.broadcast_message(ChatMessage { username, content, timestamp: now });
    }

    /// Publishes what `username` said, stamped with the moment of the call,
    /// whenever that is.
    pub fn say(&mut self, username: String, content: String)
        ensures
            exists|at: Timestamp| final(self)@ == #[trigger] old(self)@.say(username@, content@, at),
            final(self)@.valid(),
    {
        let at = now();
        self.say_at(username, content, at);
    }
}

} // verus!
