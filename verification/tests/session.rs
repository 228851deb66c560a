use chat_hub::chat::{ChatState, User};
use chat_hub::clock::Timestamp;
use chat_hub::session::{Inbound, Phase, Session};
use tokio::sync::mpsc::unbounded_channel;

fn at(secs: i64) -> Timestamp {
    Timestamp { secs, nanos: 0 }
}

fn names(users: &Vec<User>) -> Vec<String> {
    users.iter().map(|u| u.username.clone()).collect()
}

fn field(frame: &str, key: &str) -> String {
    let value: serde_json::Value = serde_json::from_str(frame).unwrap();
    value.get(key).unwrap().as_str().unwrap().to_string()
}

fn listed(frame: &str) -> Vec<String> {
    let value: serde_json::Value = serde_json::from_str(frame).unwrap();
    assert_eq!(value.get("type").unwrap().as_str().unwrap(), "userList");
    value
        .get("users")
        .unwrap()
        .as_array()
        .unwrap()
        .iter()
        .map(|u| u.get("username").unwrap().as_str().unwrap().to_string())
        .collect()
}

#[test]
fn socket_client_joins_and_says_hi_to_everyone() {
    let mut hub = ChatState::new();
    // two other connected clients, one of each kind
    let mut stream_peer = Session::stream(&mut hub);
    stream_peer.on_text(&mut hub, "sam");
    let (peer_tx, mut peer_rx) = unbounded_channel::<String>();
    let mut socket_peer = Session::socket(&mut hub, peer_tx);
    socket_peer.on_text(&mut hub, "{\"username\":\"pat\"}");
    while stream_peer.next_frame(&mut hub).is_some() {}
    while socket_peer.next_frame(&mut hub).is_some() {}
    while peer_rx.try_recv().is_ok() {}

    let (tx, mut rx) = unbounded_channel::<String>();
    let mut alice = Session::socket(&mut hub, tx);
    assert_eq!(alice.phase(), Phase::AwaitingName);
    alice.on_text(&mut hub, "{\"username\": \"alice\"}");
    assert_eq!(alice.phase(), Phase::Active);
    assert_eq!(alice.username(), "alice");
    assert!(names(&hub.get_users()).contains(&"alice".to_string()));
    let mut present = listed(&rx.try_recv().unwrap());
    present.sort();
    assert_eq!(present, vec!["alice".to_string(), "pat".to_string(), "sam".to_string()]);

    alice.on_text(&mut hub, "{\"content\":\"hi\"}");
    assert_eq!(alice.phase(), Phase::Active);

    let joined = stream_peer.next_frame(&mut hub).unwrap();
    assert!(joined.ends_with('\n'));
    assert_eq!(field(&joined, "username"), "alice");
    assert_eq!(field(&joined, "content"), "alice joined");
    let said = stream_peer.next_frame(&mut hub).unwrap();
    assert!(said.ends_with('\n'));
    assert_eq!(field(&said, "username"), "alice");
    assert_eq!(field(&said, "content"), "hi");
    assert!(stream_peer.next_frame(&mut hub).is_none());

    let joined = socket_peer.next_frame(&mut hub).unwrap();
    assert_eq!(field(&joined, "content"), "alice joined");
    let said = socket_peer.next_frame(&mut hub).unwrap();
    assert!(!said.ends_with('\n'));
    assert_eq!(field(&said, "username"), "alice");
    assert_eq!(field(&said, "content"), "hi");
    assert!(socket_peer.next_frame(&mut hub).is_none());
    let mut pushed = listed(&peer_rx.try_recv().unwrap());
    pushed.sort();
    assert_eq!(pushed, vec!["alice".to_string(), "pat".to_string(), "sam".to_string()]);
}

#[test]
fn disconnect_without_logout_is_announced() {
    let mut hub = ChatState::new();
    let (peer_tx, mut peer_rx) = unbounded_channel::<String>();
    let mut peer = Session::socket(&mut hub, peer_tx);
    peer.accept_at(&mut hub, Inbound::Name("pat".to_string()), at(1));
    let (tx, rx) = unbounded_channel::<String>();
    let mut bob = Session::socket(&mut hub, tx);
    bob.accept_at(&mut hub, Inbound::Name("bob".to_string()), at(2));
    assert_eq!(names(&hub.get_users()), vec!["pat".to_string(), "bob".to_string()]);
    while peer.next_frame(&mut hub).is_some() {}
    while peer_rx.try_recv().is_ok() {}

    // the read fails: the connection is gone, and so is its receiving end
    drop(rx);
    bob.accept_at(&mut hub, Inbound::Disconnected, at(3));
    assert_eq!(bob.phase(), Phase::Closing);
    assert_eq!(names(&hub.get_users()), vec!["pat".to_string()]);
    assert_eq!(hub.sink_count(), 1);

    let frame = peer.next_frame(&mut hub).unwrap();
    assert_eq!(
        frame,
        "{\"username\":\"bob\",\"content\":\"bob left\",\"timestamp\":\"1970-01-01T00:00:03Z\"}"
    );
    assert!(peer.next_frame(&mut hub).is_none());
    assert_eq!(listed(&peer_rx.try_recv().unwrap()), vec!["pat".to_string()]);
    assert!(peer_rx.try_recv().is_err());
}

#[test]
fn two_sessions_join_under_one_name() {
    let mut hub = ChatState::new();
    let mut one = Session::stream(&mut hub);
    let mut two = Session::stream(&mut hub);
    one.accept_at(&mut hub, Inbound::Name("carol".to_string()), at(1));
    two.accept_at(&mut hub, Inbound::Name("carol".to_string()), at(2));
    let users = hub.get_users();
    assert_eq!(users.len(), 1);
    assert_eq!(users[0].username, "carol");
    assert_eq!(users[0].last_seen, at(2));
}

#[test]
fn logout_ends_the_session_like_a_disconnect() {
    let mut hub = ChatState::new();
    let watcher = hub.subscribe();
    let (tx, mut rx) = unbounded_channel::<String>();
    let mut session = Session::socket(&mut hub, tx);
    session.on_text(&mut hub, "{\"username\":\"dana\"}");
    assert_eq!(listed(&rx.try_recv().unwrap()), vec!["dana".to_string()]);
    session.on_text(&mut hub, "{\"type\":\"logout\"}");
    assert_eq!(session.phase(), Phase::Closing);
    assert!(hub.get_users().is_empty());
    assert_eq!(hub.sink_count(), 0);
    // the snapshot after the leave still went to the session's own sink
    assert_eq!(listed(&rx.try_recv().unwrap()), Vec::<String>::new());
    assert_eq!(hub.receive(watcher).unwrap().content, "dana joined");
    assert_eq!(hub.receive(watcher).unwrap().content, "dana left");
    assert!(hub.receive(watcher).is_none());
}

#[test]
fn closing_happens_once() {
    let mut hub = ChatState::new();
    let watcher = hub.subscribe();
    let (tx, _rx) = unbounded_channel::<String>();
    let mut session = Session::socket(&mut hub, tx);
    session.on_text(&mut hub, "{\"username\":\"eve\"}");
    session.on_text(&mut hub, "{\"type\":\"logout\"}");
    // somebody else takes the name and the freed handles
    let (tx2, _rx2) = unbounded_channel::<String>();
    let mut other = Session::socket(&mut hub, tx2);
    other.on_text(&mut hub, "{\"username\":\"eve\"}");
    while hub.receive(watcher).is_some() {}
    // the read loop of the first session notices the end as well
    session.accept(&mut hub, Inbound::Disconnected);
    session.on_text(&mut hub, "{\"content\":\"late\"}");
    session.on_text(&mut hub, "{\"type\":\"logout\"}");
    assert_eq!(session.phase(), Phase::Closing);
    assert!(hub.receive(watcher).is_none());
    assert_eq!(names(&hub.get_users()), vec!["eve".to_string()]);
    assert_eq!(hub.sink_count(), 1);
    assert!(session.next_frame(&mut hub).is_none());
    other.on_text(&mut hub, "{\"content\":\"still here\"}");
    assert_eq!(hub.receive(watcher).unwrap().content, "still here");
}

#[test]
fn malformed_name_ends_the_session_without_a_join() {
    for first in ["not json", "{\"name\":\"x\"}", "{\"username\":7}", "[]", "\"alice\"", ""] {
        let mut hub = ChatState::new();
        let watcher = hub.subscribe();
        let (tx, mut rx) = unbounded_channel::<String>();
        let mut session = Session::socket(&mut hub, tx);
        assert_eq!(hub.sink_count(), 1);
        session.on_text(&mut hub, first);
        assert_eq!(session.phase(), Phase::Closing);
        assert!(hub.get_users().is_empty());
        assert!(hub.receive(watcher).is_none());
        assert_eq!(hub.sink_count(), 0);
        assert!(rx.try_recv().is_err());
    }
}

#[test]
fn disconnect_before_the_name_leaves_no_trace() {
    let mut hub = ChatState::new();
    let watcher = hub.subscribe();
    let mut session = Session::stream(&mut hub);
    session.accept(&mut hub, Inbound::Disconnected);
    assert_eq!(session.phase(), Phase::Closing);
    assert!(hub.get_users().is_empty());
    assert!(hub.receive(watcher).is_none());
    // the mailbox was given back
    assert_eq!(hub.subscribe(), 1);
}

#[test]
fn socket_frames_are_read_by_their_members() {
    let mut hub = ChatState::new();
    let watcher = hub.subscribe();
    let (tx, _rx) = unbounded_channel::<String>();
    let mut session = Session::socket(&mut hub, tx);
    session.on_text(&mut hub, "{\"username\":\"finn\",\"content\":\"ignored here\"}");
    assert_eq!(hub.receive(watcher).unwrap().content, "finn joined");
    assert!(hub.receive(watcher).is_none());
    // well-formed, but asks for nothing
    session.on_text(&mut hub, "{\"other\":1}");
    session.on_text(&mut hub, "{\"content\":42}");
    session.on_text(&mut hub, "{\"type\":\"ping\"}");
    session.on_text(&mut hub, "[1,2]");
    session.on_text(&mut hub, "{\"username\":\"other\"}");
    assert_eq!(session.phase(), Phase::Active);
    assert_eq!(session.username(), "finn");
    assert!(hub.receive(watcher).is_none());
    // chat, also beside a type that is no logout
    session.on_text(&mut hub, "{\"type\":\"chat\",\"content\":\"one\"}");
    session.on_text(&mut hub, "{\"content\":\"\"}");
    assert_eq!(hub.receive(watcher).unwrap().content, "one");
    let empty = hub.receive(watcher).unwrap();
    assert_eq!(empty.username, "finn");
    assert_eq!(empty.content, "");
    // a logout wins over content
    session.on_text(&mut hub, "{\"type\":\"logout\",\"content\":\"bye\"}");
    assert_eq!(session.phase(), Phase::Closing);
    assert_eq!(hub.receive(watcher).unwrap().content, "finn left");
    assert!(hub.receive(watcher).is_none());
}

#[test]
fn malformed_frame_ends_an_active_session() {
    let mut hub = ChatState::new();
    let watcher = hub.subscribe();
    let (tx, _rx) = unbounded_channel::<String>();
    let mut session = Session::socket(&mut hub, tx);
    session.on_text(&mut hub, "{\"username\":\"gail\"}");
    session.on_text(&mut hub, "{\"content\":");
    assert_eq!(session.phase(), Phase::Closing);
    assert!(hub.get_users().is_empty());
    assert_eq!(hub.receive(watcher).unwrap().content, "gail joined");
    assert_eq!(hub.receive(watcher).unwrap().content, "gail left");
}

#[test]
fn stream_session_takes_plain_text() {
    let mut hub = ChatState::new();
    let watcher = hub.subscribe();
    let mut session = Session::stream(&mut hub);
    session.on_bytes(&mut hub, "hank".as_bytes());
    assert_eq!(session.phase(), Phase::Active);
    assert_eq!(session.username(), "hank");
    assert_eq!(names(&hub.get_users()), vec!["hank".to_string()]);
    session.on_bytes(&mut hub, "{\"type\":\"logout\"}".as_bytes());
    assert_eq!(session.phase(), Phase::Active);
    session.on_bytes(&mut hub, &[0x68, 0x69, 0xff, 0x21]);
    session.on_text(&mut hub, "plain");
    assert_eq!(hub.receive(watcher).unwrap().content, "hank joined");
    let first = hub.receive(watcher).unwrap();
    assert_eq!(first.username, "hank");
    assert_eq!(first.content, "{\"type\":\"logout\"}");
    assert_eq!(hub.receive(watcher).unwrap().content, "hi\u{fffd}!");
    assert_eq!(hub.receive(watcher).unwrap().content, "plain");
    session.accept(&mut hub, Inbound::Disconnected);
    assert_eq!(session.phase(), Phase::Closing);
    assert!(hub.get_users().is_empty());
    assert_eq!(hub.receive(watcher).unwrap().content, "hank left");
}

#[test]
fn events_that_do_not_fit_the_phase() {
    let mut hub = ChatState::new();
    let watcher = hub.subscribe();
    // chat before the name ends the session without a join
    let mut early = Session::stream(&mut hub);
    early.accept_at(&mut hub, Inbound::Content("hello".to_string()), at(1));
    assert_eq!(early.phase(), Phase::Closing);
    assert!(hub.receive(watcher).is_none());
    // a second name and an ignored unit change nothing
    let mut session = Session::stream(&mut hub);
    session.accept_at(&mut hub, Inbound::Name("ida".to_string()), at(2));
    session.accept_at(&mut hub, Inbound::Name("joe".to_string()), at(3));
    session.accept_at(&mut hub, Inbound::Ignored, at(4));
    assert_eq!(session.phase(), Phase::Active);
    assert_eq!(session.username(), "ida");
    assert_eq!(names(&hub.get_users()), vec!["ida".to_string()]);
    assert_eq!(hub.receive(watcher).unwrap().content, "ida joined");
    assert!(hub.receive(watcher).is_none());
    session.accept_at(&mut hub, Inbound::Malformed, at(5));
    assert_eq!(session.phase(), Phase::Closing);
    let left = hub.receive(watcher).unwrap();
    assert_eq!(left.content, "ida left");
    assert_eq!(left.timestamp, at(5));
}

#[test]
fn frames_wait_until_the_session_is_active() {
    let mut hub = ChatState::new();
    let mut session = Session::stream(&mut hub);
    hub.say_at("kim".to_string(), "early".to_string(), at(1));
    assert!(session.next_frame(&mut hub).is_none());
    session.accept_at(&mut hub, Inbound::Name("lee".to_string()), at(2));
    assert_eq!(
        session.next_frame(&mut hub).unwrap(),
        "{\"username\":\"kim\",\"content\":\"early\",\"timestamp\":\"1970-01-01T00:00:01Z\"}\n"
    );
    assert_eq!(
        session.next_frame(&mut hub).unwrap(),
        "{\"username\":\"lee\",\"content\":\"lee joined\",\"timestamp\":\"1970-01-01T00:00:02Z\"}\n"
    );
    assert!(session.next_frame(&mut hub).is_none());
}

#[test]
fn interpret_reads_without_acting() {
    let mut hub = ChatState::new();
    let (tx, _rx) = unbounded_channel::<String>();
    let mut session = Session::socket(&mut hub, tx);
    assert!(matches!(session.interpret("{\"username\":\"mo\"}"), Inbound::Name(name) if name == "mo"));
    assert!(matches!(session.interpret("{\"content\":\"x\"}"), Inbound::Malformed));
    assert_eq!(session.phase(), Phase::AwaitingName);
    session.on_text(&mut hub, "{\"username\":\"mo\"}");
    assert!(matches!(session.interpret("{\"content\":\"x\"}"), Inbound::Content(text) if text == "x"));
    assert!(matches!(session.interpret("{\"type\":\"logout\"}"), Inbound::Logout));
    assert!(matches!(session.interpret("{\"type\":\"Logout\"}"), Inbound::Ignored));
    assert!(matches!(session.interpret("{}"), Inbound::Ignored));
    assert!(matches!(session.interpret("{"), Inbound::Malformed));
    session.accept(&mut hub, Inbound::Logout);
    assert!(matches!(session.interpret("{\"content\":\"x\"}"), Inbound::Ignored));
}

#[test]
fn first_stream_unit_that_is_no_utf8_ends_the_session_without_a_join() {
    let mut hub = ChatState::new();
    let watcher = hub.subscribe();
    let (tx, mut rx) = unbounded_channel::<String>();
    hub.register_ws(tx);
    let mut session = Session::stream(&mut hub);
    assert!(matches!(session.interpret_bytes(&[0xff, 0xfe]), Inbound::Malformed));
    session.on_bytes(&mut hub, &[0xff, 0xfe]);
    assert_eq!(session.phase(), Phase::Closing);
    assert_eq!(session.username(), "");
    assert!(hub.get_users().is_empty());
    assert!(hub.receive(watcher).is_none());
    assert!(rx.try_recv().is_err());
    // the mailbox was given back
    assert_eq!(hub.subscribe(), 1);
    // and nothing follows from what comes after
    session.on_bytes(&mut hub, "late".as_bytes());
    assert!(hub.get_users().is_empty());
    assert!(hub.receive(watcher).is_none());
}

#[test]
fn first_stream_unit_is_read_strictly_also_where_only_its_end_is_cut() {
    for first in [&[0x61u8, 0xe4, 0xbd][..], &[0xc0, 0x80][..], &[0xed, 0xa0, 0x80][..], &[0x80][..]] {
        let mut hub = ChatState::new();
        let watcher = hub.subscribe();
        let mut session = Session::stream(&mut hub);
        session.on_bytes(&mut hub, first);
        assert_eq!(session.phase(), Phase::Closing);
        assert!(hub.get_users().is_empty());
        assert!(hub.receive(watcher).is_none());
    }
}

#[test]
fn first_stream_unit_in_utf8_is_the_name() {
    let mut hub = ChatState::new();
    let watcher = hub.subscribe();
    let mut session = Session::stream(&mut hub);
    assert!(matches!(session.interpret_bytes("李 雷".as_bytes()), Inbound::Name(name) if name == "李 雷"));
    session.on_bytes(&mut hub, "李 雷".as_bytes());
    assert_eq!(session.phase(), Phase::Active);
    assert_eq!(session.username(), "李 雷");
    assert_eq!(names(&hub.get_users()), vec!["李 雷".to_string()]);
    assert_eq!(hub.receive(watcher).unwrap().content, "李 雷 joined");
    // later units are read with a replacement for what is no UTF-8
    assert!(matches!(session.interpret_bytes(&[0xff, 0xfe]), Inbound::Content(text) if text == "\u{fffd}\u{fffd}"));
    session.on_bytes(&mut hub, &[0xff, 0xfe]);
    assert_eq!(session.phase(), Phase::Active);
    assert_eq!(hub.receive(watcher).unwrap().content, "\u{fffd}\u{fffd}");
}

#[test]
fn first_socket_unit_that_is_no_utf8_ends_the_session_without_a_join() {
    let mut hub = ChatState::new();
    let watcher = hub.subscribe();
    let (tx, _rx) = unbounded_channel::<String>();
    let mut session = Session::socket(&mut hub, tx);
    session.on_bytes(&mut hub, b"{\"username\":\"a\xff\"}");
    assert_eq!(session.phase(), Phase::Closing);
    assert!(hub.get_users().is_empty());
    assert!(hub.receive(watcher).is_none());
    assert_eq!(hub.sink_count(), 0);
    let (tx2, _rx2) = unbounded_channel::<String>();
    let mut other = Session::socket(&mut hub, tx2);
    other.on_bytes(&mut hub, b"{\"username\":\"ann\"}");
    assert_eq!(other.phase(), Phase::Active);
    assert_eq!(other.username(), "ann");
}
