//! What holds of the hub and of its sessions whatever the clients do.

use vstd::prelude::*;
use crate::broadcast::{enqueue, ChatMessageView, CAPACITY};
use tokio::sync::mpsc::UnboundedSender;
use crate::chat::{arrival, departure, HubView};
use crate::clock::Timestamp;
use crate::handle::is_least_free;
use crate::presence::{
    has_name, lemma_position, lemma_with_user, lemma_without_user, position, UserView,
};
use crate::session::{
    ends_session, meaning_of_bytes, next_hub, next_session, released, InboundView, Phase,
    SessionView,
};
use crate::wire::utf8_text;

verus! {

/// The hub after the messages of `messages` were published one after the
/// other.
pub open spec fn publish_all(hub: HubView, messages: Seq<ChatMessageView>) -> HubView
    decreases messages.len(),
{
    if messages.len() == 0 {
        hub
    } else {
        publish_all(hub, messages.drop_last()).publish(messages.last())
    }
}

/// The last `count` of `messages`, or all of them where they are fewer.
pub open spec fn newest(messages: Seq<ChatMessageView>, count: nat) -> Seq<ChatMessageView> {
    if messages.len() <= count {
        messages
    } else {
        messages.subrange(messages.len() - count, messages.len() as int)
    }
}

/// Every step keeps a hub valid.
pub proof fn law_steps_keep_validity(
    hub: HubView,
    name: Seq<char>,
    at: Timestamp,
    message: ChatMessageView,
    id: nat,
    sink: UnboundedSender<String>,
    refused: Set<nat>,
)
    requires
        hub.valid(),
    ensures
        hub.add_user(name, at).valid(),
        hub.remove_user(name).valid(),
        hub.publish(message).valid(),
        hub.subscribe(id).valid(),
        hub.unsubscribe(id).valid(),
        hub.mailboxes.contains_key(id) && hub.mailboxes[id].len() > 0 ==> hub.advance(id).valid(),
        hub.register(id, sink).valid(),
        hub.unregister(id).valid(),
        hub.drop_sinks(refused).valid(),
{
    lemma_with_user(hub.users, UserView { username: name, last_seen: at });
    lemma_without_user(hub.users, name);
    assert(hub.publish(message).mailboxes.dom() =~= hub.mailboxes.dom());
    assert(hub.drop_sinks(refused).sinks.dom() =~= hub.sinks.dom().difference(refused));
    if hub.mailboxes.contains_key(id) {
        assert(hub.advance(id).mailboxes.dom() =~= hub.mailboxes.dom());
    }
}

/// Joining and leaving keep a hub valid.
pub proof fn law_join_and_leave_keep_validity(
    hub: HubView,
    name: Seq<char>,
    at: Timestamp,
    refused: Set<nat>,
)
    requires
        hub.valid(),
    ensures
        hub.join(name, at, refused).valid(),
        hub.leave(name, at, refused).valid(),
{
    lemma_with_user(hub.users, UserView { username: name, last_seen: at });
    lemma_without_user(hub.users, name);
    assert(hub.add_user(name, at).publish(arrival(name, at)).mailboxes.dom()
        =~= hub.mailboxes.dom());
    assert(hub.remove_user(name).publish(departure(name, at)).mailboxes.dom()
        =~= hub.mailboxes.dom());
    assert(hub.join(name, at, refused).sinks.dom() =~= hub.sinks.dom().difference(refused));
    assert(hub.leave(name, at, refused).sinks.dom() =~= hub.sinks.dom().difference(refused));
}

/// Who joined and then left is not in the snapshot that follows.
pub proof fn law_leave_after_join(
    hub: HubView,
    name: Seq<char>,
    joined_at: Timestamp,
    refused_on_join: Set<nat>,
    left_at: Timestamp,
    refused_on_leave: Set<nat>,
)
    requires
        hub.valid(),
    ensures
        !has_name(
            hub.join(name, joined_at, refused_on_join).leave(name, left_at, refused_on_leave).users,
            name,
        ),
{
    lemma_with_user(hub.users, UserView { username: name, last_seen: joined_at });
    lemma_without_user(hub.join(name, joined_at, refused_on_join).users, name);
}

/// Two who joined under different names are both in the snapshot that
/// follows.
pub proof fn law_both_joined_are_present(
    hub: HubView,
    first: Seq<char>,
    first_at: Timestamp,
    refused_on_first: Set<nat>,
    second: Seq<char>,
    second_at: Timestamp,
    refused_on_second: Set<nat>,
)
    requires
        hub.valid(),
        first != second,
    ensures
        has_name(
            hub.join(first, first_at, refused_on_first).join(
                second,
                second_at,
                refused_on_second,
            ).users,
            first,
        ),
        has_name(
            hub.join(first, first_at, refused_on_first).join(
                second,
                second_at,
                refused_on_second,
            ).users,
            second,
        ),
{
    lemma_with_user(hub.users, UserView { username: first, last_seen: first_at });
    lemma_with_user(
        hub.join(first, first_at, refused_on_first).users,
        UserView { username: second, last_seen: second_at },
    );
}

/// What is said reaches every subscriber of that moment, once, behind what
/// the subscriber already had to receive; a subscriber that was a full
/// mailbox behind loses its oldest message for it. Nobody subscribes or
/// unsubscribes by it.
pub proof fn law_say_reaches_every_subscriber(
    hub: HubView,
    id: nat,
    name: Seq<char>,
    content: Seq<char>,
    at: Timestamp,
)
    requires
        hub.mailboxes.contains_key(id),
    ensures
        hub.say(name, content, at).mailboxes.dom() == hub.mailboxes.dom(),
        hub.say(name, content, at).mailboxes[id].last() == (ChatMessageView {
            username: name,
            content,
            timestamp: at,
        }),
        hub.mailboxes[id].len() < CAPACITY ==> hub.say(name, content, at).mailboxes[id]
            == hub.mailboxes[id].push(ChatMessageView { username: name, content, timestamp: at }),
        hub.mailboxes[id].len() >= CAPACITY ==> hub.say(name, content, at).mailboxes[id]
            == hub.mailboxes[id].drop_first().push(
            ChatMessageView { username: name, content, timestamp: at },
        ),
{
    assert(hub.say(name, content, at).mailboxes.dom() =~= hub.mailboxes.dom());
}

/// Who subscribes after a message was published never receives it: the new
/// mailbox is empty, and whatever is published later, the mailbox holds
/// those later messages and nothing else.
pub proof fn law_no_backlog(
    hub: HubView,
    message: ChatMessageView,
    id: nat,
    later: Seq<ChatMessageView>,
)
    requires
        hub.valid(),
    ensures
        hub.publish(message).subscribe(id).mailboxes[id] == Seq::<ChatMessageView>::empty(),
        publish_all(hub.publish(message).subscribe(id), later).mailboxes[id] == newest(
            later,
            CAPACITY as nat,
        ),
{
    let fresh = hub.publish(message).subscribe(id);
    assert(hub.publish(message).mailboxes.dom() =~= hub.mailboxes.dom());
    law_lagging_subscriber_keeps_newest(fresh, id, later);
    assert(fresh.mailboxes[id] + later =~= later);
}

/// The leave of a name that is not present changes nothing in the store,
/// however often it is repeated.
pub proof fn law_leave_of_absent_keeps_store(
    hub: HubView,
    name: Seq<char>,
    first_at: Timestamp,
    refused_on_first: Set<nat>,
    second_at: Timestamp,
    refused_on_second: Set<nat>,
)
    requires
        !has_name(hub.users, name),
    ensures
        hub.remove_user(name) == hub,
        hub.leave(name, first_at, refused_on_first).users == hub.users,
        hub.leave(name, first_at, refused_on_first).leave(
            name,
            second_at,
            refused_on_second,
        ).users == hub.users,
{
    lemma_position(hub.users, name);
}

/// A snapshot broadcast drops exactly the sinks that refused it: every
/// other sink stays under its handle, and nothing else changes.
pub proof fn law_exactly_refused_sinks_dropped(hub: HubView, refused: Set<nat>, id: nat)
    ensures
        hub.drop_sinks(refused).sinks.contains_key(id) <==> hub.sinks.contains_key(id)
            && !refused.contains(id),
        hub.drop_sinks(refused).sinks.contains_key(id) ==> hub.drop_sinks(refused).sinks[id]
            == hub.sinks[id],
        hub.drop_sinks(refused).users == hub.users,
        hub.drop_sinks(refused).mailboxes == hub.mailboxes,
        hub.drop_sinks(refused).reserved == hub.reserved,
{
}

/// A sink handle belongs to one owner until that owner frees it: while it
/// is reserved, no registration returns it, also where a snapshot broadcast
/// has dropped its sink meanwhile.
pub proof fn law_reserved_handle_is_not_given_out(
    hub: HubView,
    refused: Set<nat>,
    held: nat,
    given: nat,
)
    requires
        hub.reserved.contains(held),
        is_least_free(hub.drop_sinks(refused).reserved, given),
    ensures
        given != held,
{
}

/// A subscriber that does not drain its mailbox has, after any run of
/// messages, the newest `CAPACITY` of what it had and what was published:
/// never more, and the oldest are the ones that went.
pub proof fn law_lagging_subscriber_keeps_newest(
    hub: HubView,
    id: nat,
    messages: Seq<ChatMessageView>,
)
    requires
        hub.valid(),
        hub.mailboxes.contains_key(id),
    ensures
        publish_all(hub, messages).mailboxes.contains_key(id),
        publish_all(hub, messages).mailboxes[id] == newest(
            hub.mailboxes[id] + messages,
            CAPACITY as nat,
        ),
        publish_all(hub, messages).mailboxes[id].len() <= CAPACITY,
    decreases messages.len(),
{
    if messages.len() == 0 {
        assert(hub.mailboxes[id] + messages =~= hub.mailboxes[id]);
    } else {
        let earlier = messages.drop_last();
        law_lagging_subscriber_keeps_newest(hub, id, earlier);
        let had = publish_all(hub, earlier).mailboxes[id];
        let all_earlier = hub.mailboxes[id] + earlier;
        let all = hub.mailboxes[id] + messages;
        assert(all =~= all_earlier.push(messages.last()));
        assert(publish_all(hub, messages).mailboxes[id] == enqueue(had, messages.last()));
        assert(enqueue(had, messages.last()) =~= newest(all, CAPACITY as nat));
    }
}

/// Two who join under one name leave one entry of that name, and it is the
/// later one's.
pub proof fn law_same_name_is_listed_once(
    hub: HubView,
    name: Seq<char>,
    first_at: Timestamp,
    refused_on_first: Set<nat>,
    second_at: Timestamp,
    refused_on_second: Set<nat>,
)
    requires
        hub.valid(),
    ensures
        ({
            let users = hub.join(name, first_at, refused_on_first).join(
                name,
                second_at,
                refused_on_second,
            ).users;
            &&& has_name(users, name)
            &&& users[position(users, name)] == UserView { username: name, last_seen: second_at }
            &&& forall|i: int|
                0 <= i < users.len() && (#[trigger] users[i]).username == name ==> i == position(
                    users,
                    name,
                )
            &&& users.len() == hub.join(name, first_at, refused_on_first).users.len()
        }),
{
    let once = hub.join(name, first_at, refused_on_first).users;
    let users = hub.join(name, first_at, refused_on_first).join(
        name,
        second_at,
        refused_on_second,
    ).users;
    lemma_with_user(hub.users, UserView { username: name, last_seen: first_at });
    lemma_with_user(once, UserView { username: name, last_seen: second_at });
    lemma_position(users, name);
    lemma_position(once, name);
    assert forall|i: int| 0 <= i < users.len() && (#[trigger] users[i]).username == name implies i
        == position(users, name) by {
        let at = position(users, name);
        if i < at {
            assert(users[i].username != users[at].username);
        } else if at < i {
            assert(users[at].username != users[i].username);
        }
    }
}

/// A closed session does nothing, whatever comes in: what a session does
/// when it ends, it does once.
pub proof fn law_closed_session_does_nothing(
    hub: HubView,
    session: SessionView,
    event: InboundView,
    at: Timestamp,
    refused: Set<nat>,
)
    requires
        session.phase == Phase::Closing,
    ensures
        next_session(session, event) == session,
        next_hub(hub, session, event, at, refused) == hub,
{
}

/// An active session that ends is closed, its name is no longer present,
/// and its mailbox and its sink handle are given back.
pub proof fn law_ending_session_cleans_up(
    hub: HubView,
    session: SessionView,
    event: InboundView,
    at: Timestamp,
    refused: Set<nat>,
)
    requires
        hub.valid(),
        session.phase == Phase::Active,
        ends_session(event),
    ensures
        next_session(session, event).phase == Phase::Closing,
        !has_name(next_hub(hub, session, event, at, refused).users, session.username),
        !next_hub(hub, session, event, at, refused).mailboxes.contains_key(session.subscription),
        session.sink matches Some(id) ==> !next_hub(
            hub,
            session,
            event,
            at,
            refused,
        ).reserved.contains(id),
{
    lemma_without_user(hub.users, session.username);
}

/// A session that ends before it got a name never joined: presence is as
/// it was, nothing was published, and only what the session held is given
/// back.
pub proof fn law_unnamed_session_leaves_no_trace(
    hub: HubView,
    session: SessionView,
    event: InboundView,
    at: Timestamp,
    refused: Set<nat>,
)
    requires
        session.phase == Phase::AwaitingName,
        !(event is Name),
    ensures
        next_session(session, event).phase == Phase::Closing,
        next_hub(hub, session, event, at, refused).users == hub.users,
        next_hub(hub, session, event, at, refused).mailboxes == hub.mailboxes.remove(
            session.subscription,
        ),
{
}

/// A first unit of bytes that is no UTF-8 is no name: the session ends
/// where it stands, gives back what it held, and the hub is otherwise as it
/// was.
pub proof fn law_unreadable_first_unit_never_joins(
    hub: HubView,
    session: SessionView,
    bytes: Seq<u8>,
    at: Timestamp,
    refused: Set<nat>,
)
    requires
        session.phase == Phase::AwaitingName,
        utf8_text(bytes) is None,
    ensures
        meaning_of_bytes(session.transport, session.phase, bytes) == InboundView::Malformed,
        next_session(
            session,
            meaning_of_bytes(session.transport, session.phase, bytes),
        ).phase == Phase::Closing,
        next_hub(
            hub,
            session,
            meaning_of_bytes(session.transport, session.phase, bytes),
            at,
            refused,
        ) == released(hub, session),
        released(hub, session).users == hub.users,
        released(hub, session).mailboxes == hub.mailboxes.remove(session.subscription),
{
}

} // verus!
