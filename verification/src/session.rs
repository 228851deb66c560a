//! One connection, from its first unit of data to its end: a session waits
//! for a name, relays chat while it is active, and cleans up exactly once.

use vstd::prelude::*;
use vstd::string::*;
use tokio::sync::mpsc::UnboundedSender;
use crate::broadcast::ChatMessageView;
use crate::chat::{ChatState, HubView};
use crate::clock::{now, Timestamp};
use crate::handle::is_least_free;
use crate::wire::{
    chat_message_json, encode_chat_message, json_string_field, lossy_text, strict_text,
    string_field, utf8_lossy, utf8_text,
};

verus! {

/// How the client is connected.
#[derive(Clone, Copy, Debug, PartialEq, Eq, Structural)]
pub enum Transport {
    /// A byte stream: every unit of data is plain text.
    Stream,
    /// A socket: every unit of data is a JSON object.
    Socket,
}

/// Where a session stands.
#[derive(Clone, Copy, Debug, PartialEq, Eq, Structural)]
pub enum Phase {
    /// The client has yet to say who it is.
    AwaitingName,
    /// The client has joined and chats.
    Active,
    /// The session has ended and has cleaned up. It stays here.
    Closing,
}

/// What happened on the inbound side of a connection.
#[derive(Debug)]
pub enum Inbound {
    /// The client declared this name.
    Name(String),
    /// The client said this.
    Content(String),
    /// The client asked to leave.
    Logout,
    /// The client sent a well-formed unit that asks for nothing.
    Ignored,
    /// The client sent a unit that cannot be read.
    Malformed,
    /// The connection ended or failed.
    Disconnected,
}

/// What an `Inbound` stands for in contracts.
pub enum InboundView {
    Name(Seq<char>),
    Content(Seq<char>),
    Logout,
    Ignored,
    Malformed,
    Disconnected,
}

impl View for Inbound {
    type V = InboundView;

    open spec fn view(&self) -> InboundView {
        match self {
            Inbound::Name(name) => InboundView::Name(name@),
            Inbound::Content(content) => InboundView::Content(content@),
            Inbound::Logout => InboundView::Logout,
            Inbound::Ignored => InboundView::Ignored,
            Inbound::Malformed => InboundView::Malformed,
            Inbound::Disconnected => InboundView::Disconnected,
        }
    }
}

/// What a session holds, as contracts see it.
pub struct SessionView {
    pub transport: Transport,
    pub phase: Phase,
    /// The declared name; empty until the session is active.
    pub username: Seq<char>,
    /// The handle of the session's mailbox.
    pub subscription: nat,
    /// The handle of the session's sink, where it has one.
    pub sink: Option<nat>,
}

/// What a unit of inbound text means to a session of `transport` in `phase`.
///
/// On a stream the first unit is the name and every later one is chat. On a
/// socket the first unit must be a JSON object with a string `username`;
/// every later one must be JSON, asks to leave where its `type` is
/// `logout`, is chat where it has a string `content`, and is passed over
/// otherwise.
pub open spec fn meaning(transport: Transport, phase: Phase, text: Seq<char>) -> InboundView {
    match phase {
        Phase::Closing => InboundView::Ignored,
        Phase::AwaitingName => match transport {
            Transport::Stream => InboundView::Name(text),
            Transport::Socket => match json_string_field(text, "username"@) {
                Some(Some(name)) => InboundView::Name(name),
                _ => InboundView::Malformed,
            },
        },
        Phase::Active => match transport {
            Transport::Stream => InboundView::Content(text),
            Transport::Socket => match json_string_field(text, "type"@) {
                None => InboundView::Malformed,
                Some(kind) => if kind == Some("logout"@) {
                    InboundView::Logout
                } else {
                    match json_string_field(text, "content"@) {
                        Some(Some(content)) => InboundView::Content(content),
                        Some(None) => InboundView::Ignored,
                        None => InboundView::Malformed,
                    }
                },
            },
        },
    }
}

/// What a unit of inbound bytes means to a session of `transport` in `phase`.
///
/// The first unit has to be UTF-8 to be read at all: a name is not guessed
/// at. Every later unit is read as text with U+FFFD for what is no UTF-8.
pub open spec fn meaning_of_bytes(transport: Transport, phase: Phase, bytes: Seq<u8>) -> InboundView {
    match phase {
        Phase::AwaitingName => match utf8_text(bytes) {
            Some(text) => meaning(transport, phase, text),
            None => InboundView::Malformed,
        },
        _ => meaning(transport, phase, utf8_lossy(bytes)),
    }
}

/// Whether `event` ends an active session.
pub open spec fn ends_session(event: InboundView) -> bool {
    event is Logout || event is Malformed || event is Disconnected
}

/// The session after `event`.
pub open spec fn next_session(session: SessionView, event: InboundView) -> SessionView {
    match session.phase {
        Phase::AwaitingName => match event {
            InboundView::Name(name) => SessionView {
                phase: Phase::Active,
                username: name,
                ..session
            },
            _ => SessionView { phase: Phase::Closing, ..session },
        },
        Phase::Active => if ends_session(event) {
            SessionView { phase: Phase::Closing, ..session }
        } else {
            session
        },
        Phase::Closing => session,
    }
}

/// The hub after `session` gave back its mailbox and its sink handle.
pub open spec fn released(hub: HubView, session: SessionView) -> HubView {
    let closed = hub.unsubscribe(session.subscription);
    match session.sink {
        Some(id) => closed.unregister(id),
        None => closed,
    }
}

/// The hub after `session` took `event` at `at`, where the sinks of
/// `refused` did not take a snapshot that the event caused.
///
/// A name makes a waiting session join. Chat from an active session is
/// published. What ends an active session makes it leave and release what it
/// holds; a waiting session that gets anything but a name releases what it
/// holds and leaves no other trace. A closed session does nothing.
pub open spec fn next_hub(
    hub: HubView,
    session: SessionView,
    event: InboundView,
    at: Timestamp,
    refused: Set<nat>,
) -> HubView {
    match session.phase {
        Phase::AwaitingName => match event {
            InboundView::Name(name) => hub.join(name, at, refused),
            _ => released(hub, session),
        },
        Phase::Active => match event {
            InboundView::Content(content) => hub.say(session.username, content, at),
            InboundView::Name(_) => hub,
            InboundView::Ignored => hub,
            _ => released(hub.leave(session.username, at, refused), session),
        },
        Phase::Closing => hub,
    }
}

/// The text that goes out to a client of `transport` for `message`: its
/// JSON, and on a stream a line feed after it.
pub open spec fn outbound_frame(transport: Transport, message: ChatMessageView) -> Seq<char> {
    match transport {
        Transport::Socket => chat_message_json(message),
        Transport::Stream => chat_message_json(message) + "\n"@,
    }
}

/// The state of one connection.
pub struct Session {
    transport: Transport,
    phase: Phase,
    username: String,
    subscription: usize,
    sink: Option<usize>,
}

impl View for Session {
    type V = SessionView;

    closed spec fn view(&self) -> SessionView {
        SessionView {
            transport: self.transport,
            phase: self.phase,
            username: self.username@,
            subscription: self.subscription as nat,
            sink: match self.sink {
                Some(id) => Some(id as nat),
                None => None,
            },
        }
    }
}

impl Session {
    /// Starts the session of a stream client: it subscribes to the chat and
    /// waits for the name.
    pub fn stream(hub: &mut ChatState) -> (r: Self)
        ensures
            r@.transport == Transport::Stream,
            r@.phase == Phase::AwaitingName,
            r@.username == Seq::<char>::empty(),
            r@.sink is None,
            is_least_free(old(hub)@.mailboxes.dom(), r@.subscription),
            final(hub)@ == old(hub)@.subscribe(r@.subscription),
            final(hub)@.valid(),
    {
        let subscription = hub.subscribe();
        Session {
            transport: Transport::Stream,
            phase: Phase::AwaitingName,
            username: String::new(),
            subscription,
            sink: None,
        }
    }

    /// Starts the session of a socket client: it subscribes to the chat,
    /// registers `sink` for what is pushed to the client beside the chat,
    /// and waits for the name.
    pub fn socket(hub: &mut ChatState, sink: UnboundedSender<String>) -> (r: Self)
        ensures
            r@.transport == Transport::Socket,
            r@.phase == Phase::AwaitingName,
            r@.username == Seq::<char>::empty(),
            is_least_free(old(hub)@.mailboxes.dom(), r@.subscription),
            r@.sink matches Some(id) && is_least_free(old(hub)@.reserved, id) && final(hub)@
                == old(hub)@.subscribe(r@.subscription).register(id, sink),
            final(hub)@.valid(),
    {
        let subscription = hub.subscribe();
        let id = hub.register_ws(sink);
        Session {
            transport: Transport::Socket,
            phase: Phase::AwaitingName,
            username: String::new(),
            subscription,
            sink: Some(id),
        }
    }

    /// Where the session stands.
    pub fn phase(&self) -> (r: Phase)
        ensures
            r == self@.phase,
    {
        self.phase
    }

    /// The declared name; empty until the session is active.
    pub fn username(&self) -> (r: &str)
        ensures
            r@ == self@.username,
    {
        self.username.as_str()
    }

    /// Gives back the mailbox and the sink handle.
    fn release(&self, hub: &mut ChatState)
        ensures
            final(hub)@ == released(old(hub)@, self@),
    {
        hub.unsubscribe(self.subscription);
        match self.sink {
            Some(id) => {
                hub.unregister_ws(id);
            },
            None => {},
        }
    }

    /// Reads a unit of inbound text as this session understands it now.
    pub fn interpret(&self, text: &str) -> (r: Inbound)
        ensures
            r@ == meaning(self@.transport, self@.phase, text@),
    {
        match self.phase {
            Phase::Closing => Inbound::Ignored,
            Phase::AwaitingName => match self.transport {
                Transport::Stream => Inbound::Name(text.to_owned()),
                Transport::Socket => match string_field(text, "username") {
                    Some(Some(name)) => Inbound::Name(name),
                    _ => Inbound::Malformed,
                },
            },
            Phase::Active => match self.transport {
                Transport::Stream => Inbound::Content(text.to_owned()),
                Transport::Socket => match string_field(text, "type") {
                    None => Inbound::Malformed,
                    Some(kind) => {
                        let logout = match &kind {
                            Some(k) => *k == String::from_str("logout"),
                            None => false,
                        };
                        if logout {
                            Inbound::Logout
                        } else {
                            match string_field(text, "content") {
                                Some(Some(content)) => Inbound::Content(content),
                                Some(None) => Inbound::Ignored,
                                None => Inbound::Malformed,
                            }
                        }
                    },
                },
            },
        }
    }

    /// Takes `event` at `now`: the session moves on, and the hub sees what
    /// follows from the event. Once the session is closed, nothing follows
    /// from anything.
    pub fn accept_at(&mut self, hub: &mut ChatState, event: Inbound, now: Timestamp)
        ensures
            final(self)@ == next_session(old(self)@, event@),
            exists|refused: Set<nat>|
                refused.subset_of(old(hub)@.sinks.dom()) && final(hub)@ == #[trigger] next_hub(
                    old(hub)@,
                    old(self)@,
                    event@,
                    now,
                    refused,
                ),
            final(hub)@.valid(),
    {
        proof {
            hub.lemma_valid();
        }
        let ghost nobody = Set::<nat>::empty();
        let ghost before = old(hub)@;
        let ghost session = old(self)@;
        let ghost e = event@;
        match self.phase {
            Phase::AwaitingName => match event {
                Inbound::Name(name) => {
                    hub.join_at(name.clone(), now);
                    let ghost refused = choose|refused: Set<nat>|
                        refused.subset_of(before.sinks.dom()) && hub@ == #[trigger] before.join(
                            name@,
                            now,
                            refused,
                        );
                    self.username = name;
                    self.phase = Phase::Active;
                    assert(hub@ == next_hub(before, session, e, now, refused));
                },
                _ => {
                    self.release(hub);
                    self.phase = Phase::Closing;
                    assert(hub@ == next_hub(before, session, e, now, nobody));
                },
            },
            Phase::Active => match event {
                Inbound::Content(content) => {
                    hub.say_at(self.username.clone(), content, now);
                    assert(hub@ == next_hub(before, session, e, now, nobody));
                },
                Inbound::Name(_) => {
                    assert(hub@ == next_hub(before, session, e, now, nobody));
                },
                Inbound::Ignored => {
                    assert(hub@ == next_hub(before, session, e, now, nobody));
                },
                _ => {
                    hub.leave_at(self.username.as_str(), now);
                    let ghost left = hub@;
                    let ghost refused = choose|refused: Set<nat>|
                        refused.subset_of(before.sinks.dom()) && left == #[trigger] before.leave(
                            session.username,
                            now,
                            refused,
                        );
                    self.release(hub);
                    self.phase = Phase::Closing;
                    assert(hub@ == released(left, session));
                    assert(ends_session(e));
                    assert(hub@ == next_hub(before, session, e, now, refused));
                },
            },
            Phase::Closing => {
                assert(hub@ == next_hub(before, session, e, now, nobody));
            },
        }
    }

    /// Takes `event` at the moment of the call, whenever that is.
    pub fn accept(&mut self, hub: &mut ChatState, event: Inbound)
        ensures
            final(self)@ == next_session(old(self)@, event@),
            exists|at: Timestamp, refused: Set<nat>|
                refused.subset_of(old(hub)@.sinks.dom()) && final(hub)@ == #[trigger] next_hub(
                    old(hub)@,
                    old(self)@,
                    event@,
                    at,
                    refused,
                ),
            final(hub)@.valid(),
    {
        let at = now();
        self.accept_at(hub, event, at);
    }

    /// Takes a unit of inbound text: reads it as this session understands
    /// it now, and takes what it means at the moment of the call.
    pub fn on_text(&mut self, hub: &mut ChatState, text: &str)
        ensures
            final(self)@ == next_session(
                old(self)@,
                meaning(old(self)@.transport, old(self)@.phase, text@),
            ),
            exists|at: Timestamp, refused: Set<nat>|
                refused.subset_of(old(hub)@.sinks.dom()) && final(hub)@ == #[trigger] next_hub(
                    old(hub)@,
                    old(self)@,
                    meaning(old(self)@.transport, old(self)@.phase, text@),
                    at,
                    refused,
                ),
            final(hub)@.valid(),
    {
        let event = self.interpret(text);
        self.accept(hub, event);
    }

    /// Reads a unit of inbound bytes as this session understands it now.
    /// A first unit that is no UTF-8 is malformed.
    pub fn interpret_bytes(&self, bytes: &[u8]) -> (r: Inbound)
        ensures
            r@ == meaning_of_bytes(self@.transport, self@.phase, bytes@),
    {
        match self.phase {
            Phase::AwaitingName => match strict_text(bytes) {
                Some(text) => self.interpret(text.as_str()),
                None => Inbound::Malformed,
            },
            _ => {
                let text = lossy_text(bytes);
                self.interpret(text.as_str())
            },
        }
    }

    /// Takes a unit of inbound bytes: reads it as this session understands
    /// it now, and takes what it means at the moment of the call. A first
    /// unit that is no UTF-8 ends the session before it has joined.
    pub fn on_bytes(&mut self, hub: &mut ChatState, bytes: &[u8])
        ensures
            final(self)@ == next_session(
                old(self)@,
                meaning_of_bytes(old(self)@.transport, old(self)@.phase, bytes@),
            ),
            exists|at: Timestamp, refused: Set<nat>|
                refused.subset_of(old(hub)@.sinks.dom()) && final(hub)@ == #[trigger] next_hub(
                    old(hub)@,
                    old(self)@,
                    meaning_of_bytes(old(self)@.transport, old(self)@.phase, bytes@),
                    at,
                    refused,
                ),
            final(hub)@.valid(),
    {
        let event = self.interpret_bytes(bytes);
        self.accept(hub, event);
    }

    /// The next frame to write to the client: the oldest message of the
    /// session's mailbox, taken out of it. `None`, and no change, where the
    /// mailbox is empty or the session is not active.
    pub fn next_frame(&self, hub: &mut ChatState) -> (r: Option<String>)
        ensures
            match r {
                Some(frame) => {
                    &&& self@.phase == Phase::Active
                    &&& old(hub)@.mailboxes.contains_key(self@.subscription)
                    &&& old(hub)@.mailboxes[self@.subscription].len() > 0
                    &&& frame@ == outbound_frame(
                        self@.transport,
                        old(hub)@.mailboxes[self@.subscription][0],
                    )
                    &&& final(hub)@ == old(hub)@.advance(self@.subscription)
                },
                None => {
                    &&& final(hub)@ == old(hub)@
                    &&& self@.phase == Phase::Active && old(hub)@.mailboxes.contains_key(
                        self@.subscription,
                    ) ==> old(hub)@.mailboxes[self@.subscription].len() == 0
                },
            },
            final(hub)@.valid(),
    {
        proof {
            hub.lemma_valid();
        }
        match self.phase {
            Phase::Active => match hub.receive(self.subscription) {
                Some(message) => {
                    let mut frame = encode_chat_message(&message);
                    match self.transport {
                        Transport::Stream => {
                            frame.append("\n");
                        },
                        Transport::Socket => {},
                    }
                    Some(frame)
                },
                None => None,
            },
            _ => None,
        }
    }
}

} // verus!
