//! The presence store: who is in the room, and since when.

use vstd::prelude::*;
use crate::clock::Timestamp;

verus! {

/// A participant and the instant at which they were last seen.
#[derive(Debug)]
pub struct User {
    pub username: String,
    pub last_seen: Timestamp,
}

/// What a `User` stands for in contracts.
pub struct UserView {
    pub username: Seq<char>,
    pub last_seen: Timestamp,
}

impl View for User {
    type V = UserView;

    open spec fn view(&self) -> UserView {
        UserView { username: self.username@, last_seen: self.last_seen }
    }
}

impl Clone for User {
    fn clone(&self) -> (r: Self)
        ensures
            r == *self,
    {
        User { username: self.username.clone(), last_seen: self.last_seen }
    }
}

/// The views of a listing of users, in the same order.
pub open spec fn user_views(users: Seq<User>) -> Seq<UserView> {
    users.map_values(|u: User| u@)
}

/// The index of the first entry of `roster` that carries `name`, or
/// `roster.len()` where none does.
pub open spec fn position(roster: Seq<UserView>, name: Seq<char>) -> int
    decreases roster.len(),
{
    if roster.len() == 0 {
        0
    } else if roster[0].username == name {
        0
    } else {
        1 + position(roster.drop_first(), name)
    }
}

/// Whether some entry of `roster` carries `name`.
pub open spec fn has_name(roster: Seq<UserView>, name: Seq<char>) -> bool {
    exists|i: int| 0 <= i < roster.len() && (#[trigger] roster[i]).username == name
}

/// No two entries of `roster` carry the same name.
pub open spec fn distinct_names(roster: Seq<UserView>) -> bool {
    forall|i: int, j: int|
        0 <= i < j < roster.len() ==> (#[trigger] roster[i]).username != (#[trigger] roster[j]).username
}

/// `roster` after `user` arrived: an entry of the same name is overwritten
/// where it stands, a new name goes to the end.
pub open spec fn with_user(roster: Seq<UserView>, user: UserView) -> Seq<UserView> {
    let at = position(roster, user.username);
    if at < roster.len() {
        roster.update(at, user)
    } else {
        roster.push(user)
    }
}

/// `roster` after `name` left: its entry is taken out, the others keep
/// their order. A name that is absent changes nothing.
pub open spec fn without_user(roster: Seq<UserView>, name: Seq<char>) -> Seq<UserView> {
    let at = position(roster, name);
    if at < roster.len() {
        roster.remove(at)
    } else {
        roster
    }
}

/// `position` is within bounds, points at an entry of that name if at any,
/// and passes over no entry of that name: it is short of the length
/// exactly where the name is listed.
pub proof fn lemma_position(roster: Seq<UserView>, name: Seq<char>)
    ensures
        0 <= position(roster, name) <= roster.len(),
        position(roster, name) < roster.len() ==> roster[position(roster, name)].username == name,
        forall|j: int| 0 <= j < position(roster, name) ==> (#[trigger] roster[j]).username != name,
        has_name(roster, name) <==> position(roster, name) < roster.len(),
    decreases roster.len(),
{
    if roster.len() > 0 && roster[0].username != name {
        let rest = roster.drop_first();
        lemma_position(rest, name);
        assert forall|j: int| 0 <= j < position(roster, name) implies (#[trigger] roster[j]).username
            != name by {
            if j > 0 {
                assert(roster[j] == rest[j - 1]);
            }
        }
    }
}

/// The first index that carries `name` is its position; where no index
/// carries it, the position is the length.
pub proof fn lemma_position_is(roster: Seq<UserView>, name: Seq<char>, at: int)
    requires
        0 <= at <= roster.len(),
        forall|j: int| 0 <= j < at ==> (#[trigger] roster[j]).username != name,
        at < roster.len() ==> roster[at].username == name,
    ensures
        position(roster, name) == at,
{
    lemma_position(roster, name);
    let p = position(roster, name);
    if p < at {
        assert(roster[p].username != name);
    } else if at < p {
        assert(roster[at].username != name);
    }
}

/// Arrivals keep names distinct, the arrival is listed, and nobody else is
/// listed or unlisted by it.
pub proof fn lemma_with_user(roster: Seq<UserView>, user: UserView)
    requires
        distinct_names(roster),
    ensures
        distinct_names(with_user(roster, user)),
        has_name(with_user(roster, user), user.username),
        with_user(roster, user)[position(with_user(roster, user), user.username)] == user,
        forall|other: Seq<char>|
            other != user.username ==> (has_name(with_user(roster, user), other) <==> has_name(
                roster,
                other,
            )),
{
    let next = with_user(roster, user);
    let at = position(roster, user.username);
    lemma_position(roster, user.username);
    assert forall|i: int, j: int| 0 <= i < j < next.len() implies (#[trigger] next[i]).username != (
    #[trigger] next[j]).username by {
        if at < roster.len() {
            assert(roster[i].username != roster[j].username);
        } else if j < roster.len() {
            assert(roster[i].username != roster[j].username);
        } else {
            assert(roster[i].username != user.username);
        }
    }
    lemma_position_is(next, user.username, at);
    lemma_position(next, user.username);
    assert forall|other: Seq<char>| other != user.username implies (has_name(next, other)
        <==> has_name(roster, other)) by {
        lemma_position(roster, other);
        lemma_position(next, other);
        let p = position(roster, other);
        if p < roster.len() {
            assert(next[p] == roster[p]);
            assert forall|j: int| 0 <= j < p implies (#[trigger] next[j]).username != other by {
                assert(roster[j].username != other);
            }
            lemma_position_is(next, other, p);
        } else {
            assert forall|j: int| 0 <= j < next.len() implies (#[trigger] next[j]).username
                != other by {
                if j < roster.len() {
                    assert(roster[j].username != other);
                }
            }
            lemma_position_is(next, other, next.len() as int);
        }
    }
}

/// Departures keep names distinct, the one who left is no longer listed, and
/// nobody else is listed or unlisted by it.
pub proof fn lemma_without_user(roster: Seq<UserView>, name: Seq<char>)
    requires
        distinct_names(roster),
    ensures
        distinct_names(without_user(roster, name)),
        !has_name(without_user(roster, name), name),
        forall|other: Seq<char>|
            other != name ==> (has_name(without_user(roster, name), other) <==> has_name(
                roster,
                other,
            )),
{
    let next = without_user(roster, name);
    let at = position(roster, name);
    lemma_position(roster, name);
    assert forall|i: int, j: int| 0 <= i < j < next.len() implies (#[trigger] next[i]).username != (
    #[trigger] next[j]).username by {
        if at < roster.len() {
            let oi = if i < at { i } else { i + 1 };
            let oj = if j < at { j } else { j + 1 };
            assert(next[i] == roster[oi]);
            assert(next[j] == roster[oj]);
            assert(roster[oi].username != roster[oj].username);
        } else {
            assert(roster[i].username != roster[j].username);
        }
    }
    assert forall|j: int| 0 <= j < next.len() implies (#[trigger] next[j]).username != name by {
        if at < roster.len() {
            let oj = if j < at { j } else { j + 1 };
            assert(next[j] == roster[oj]);
            if oj < at {
                assert(roster[oj].username != name);
            } else {
                assert(roster[at].username != roster[oj].username);
            }
        } else {
            assert(roster[j].username != name);
        }
    }
    lemma_position_is(next, name, next.len() as int);
    assert forall|other: Seq<char>| other != name implies (has_name(next, other) <==> has_name(
        roster,
        other,
    )) by {
        lemma_position(roster, other);
        lemma_position(next, other);
        let p = position(roster, other);
        let q = position(next, other);
        if p < roster.len() {
            let np = if p < at { p } else { p - 1 };
            assert(next[np] == roster[p]);
            if q >= next.len() {
                assert(next[np].username != other);
            }
        }
        if q < next.len() {
            let oq = if at < roster.len() && q >= at { q + 1 } else { q };
            assert(next[q] == roster[oq]);
            if p >= roster.len() {
                assert(roster[oq].username != other);
            }
        }
    }
}

/// The presence store: one entry for each name that is present.
pub struct PresenceStore {
    entries: Vec<User>,
}

impl PresenceStore {
    /// No name is listed twice. This holds of every store at all times.
    #[verifier::type_invariant]
    spec fn names_are_distinct(self) -> bool {
        distinct_names(user_views(self.entries@))
    }

    /// The entries, in the order in which a snapshot lists them.
    ///
    /// Every store that code can build lists no name twice, and its roster
    /// is what it holds. The second arm gives a roster also to a value that
    /// exists in a proof alone, so that what holds of every roster is known
    /// of any store at hand.
    pub closed spec fn roster(&self) -> Seq<UserView> {
        if distinct_names(user_views(self.entries@)) {
            user_views(self.entries@)
        } else {
            Seq::empty()
        }
    }

    /// A roster lists no name twice.
    pub proof fn lemma_roster_distinct(&self)
        ensures
            distinct_names(self.roster()),
    {
    }

    /// An empty store.
    pub fn new() -> (r: Self)
        ensures
            r.roster() == Seq::<UserView>::empty(),
    {
        PresenceStore { entries: Vec::new() }
    }

    /// Where `name` stands among `entries`, or their number where it is absent.
    fn find(entries: &Vec<User>, name: &String) -> (at: usize)
        ensures
            at == position(user_views(entries@), name@),
    {
        let mut i: usize = 0;
        while i < entries.len()
            invariant
                i <= entries.len(),
                forall|j: int| 0 <= j < i ==> (#[trigger] user_views(entries@)[j]).username != name@,
            decreases entries.len() - i,
        {
            if entries[i].username == *name {
                proof {
                    lemma_position_is(user_views(entries@), name@, i as int);
                }
                return i;
            }
            i += 1;
        }
        proof {
            lemma_position_is(user_views(entries@), name@, i as int);
        }
        i
    }

    /// Records `username` as present since `now`. An entry of the same
    /// name is overwritten.
    pub fn add(&mut self, username: String, now: Timestamp)
        ensures
            final(self).roster() == with_user(
                old(self).roster(),
                UserView { username: username@, last_seen: now },
            ),
            distinct_names(final(self).roster()),
    {
        proof {
            use_type_invariant(&*self);
            lemma_with_user(self.roster(), UserView { username: username@, last_seen: now });
        }
        let mut entries: Vec<User> = Vec::new();
        core::mem::swap(&mut entries, &mut self.entries);
        let ghost before = user_views(entries@);
        let at = Self::find(&entries, &username);
        let user = User { username, last_seen: now };
        if at < entries.len() {
            entries[at] = user;
            assert(user_views(entries@) =~= before.update(at as int, user@));
        } else {
            entries.push(user);
            assert(user_views(entries@) =~= before.push(user@));
        }
        self.entries = entries;
    }

    /// Takes the entry of `username` out. A name that is absent changes nothing.
    pub fn remove(&mut self, username: &str)
        ensures
            final(self).roster() == without_user(old(self).roster(), username@),
            distinct_names(final(self).roster()),
    {
        proof {
            use_type_invariant(&*self);
            lemma_without_user(self.roster(), username@);
        }
        let mut entries: Vec<User> = Vec::new();
        core::mem::swap(&mut entries, &mut self.entries);
        let ghost before = user_views(entries@);
        let name = username.to_owned();
        let at = Self::find(&entries, &name);
        if at < entries.len() {
            entries.remove(at);
            assert(user_views(entries@) =~= before.remove(at as int));
        }
        self.entries = entries;
    }

    /// A copy of the entries as they stand.
    pub fn snapshot(&self) -> (r: Vec<User>)
        ensures
            user_views(r@) == self.roster(),
            distinct_names(user_views(r@)),
    {
        proof {
            use_type_invariant(self);
        }
        let mut copy: Vec<User> = Vec::new();
        let mut i: usize = 0;
        while i < self.entries.len()
            invariant
                i <= self.entries.len(),
                copy@ == self.entries@.take(i as int),
            decreases self.entries.len() - i,
        {
            copy.push(self.entries[i].clone());
            assert(copy@ =~= self.entries@.take(i + 1));
            i += 1;
        }
        assert(copy@ =~= self.entries@);
        copy
    }
}

} // verus!
