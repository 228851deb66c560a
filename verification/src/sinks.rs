//! The socket-sink registry: the outbound channels of the socket clients, for
//! what is pushed to them beside the chat itself.

use vstd::prelude::*;
use tokio::sync::mpsc::UnboundedSender;
use vstd::set_lib::lemma_set_subset_finite;
use crate::handle::{handles_below, is_least_free, lemma_handles_below};

verus! {

/// `tokio::sync::mpsc::UnboundedSender`: the sending half of an unbounded
/// channel. The registry holds such values and hands text to them; it never
/// looks inside one.
#[verifier::external_type_specification]
#[verifier::external_body]
#[verifier::reject_recursive_types(T)]
pub struct ExUnboundedSender<T>(UnboundedSender<T>);

/// Hands a copy of `text` to `sink` through `UnboundedSender::send`, and tells
/// whether the channel took it.
///
/// `send` never waits. It fails where the receiving half was closed or
/// dropped, which is for the other end to decide: nothing is promised of
/// the answer. (`send` ends the process where more than `usize::MAX / 2`
/// messages wait in one channel.)
#[verifier::external_body]
fn push(sink: &UnboundedSender<String>, text: &str) -> bool {
    sink.send(text.to_string()).is_ok()
}

/// What became of one offer of text to a sink.
#[derive(Clone, Copy, Debug, PartialEq, Eq, Structural)]
pub struct Offer {
    /// The handle of the sink.
    pub handle: usize,
    /// Whether the sink took the text.
    pub accepted: bool,
}

/// `offers` holds one offer for each handle of `live` and for no other, in
/// the order of the handles.
pub open spec fn one_for_each(offers: Seq<Offer>, live: Set<nat>) -> bool {
    &&& forall|k: int| 0 <= k < offers.len() ==> live.contains((#[trigger] offers[k]).handle as nat)
    &&& forall|k: int, l: int|
        0 <= k < l < offers.len() ==> (#[trigger] offers[k]).handle < (#[trigger] offers[l]).handle
    &&& forall|id: nat|
        live.contains(id) ==> exists|k: int|
            0 <= k < offers.len() && (#[trigger] offers[k]).handle == id
}

/// The handles of the offers that were not accepted.
pub open spec fn refused(offers: Seq<Offer>) -> Set<nat> {
    Set::new(
        |id: nat|
            exists|k: int|
                0 <= k < offers.len() && (#[trigger] offers[k]).handle == id && !offers[k].accepted,
    )
}

enum Slot {
    /// Nobody holds this handle.
    Free,
    /// The handle stands for this sink.
    Live(UnboundedSender<String>),
    /// The sink was dropped after a failed send; its owner still holds the
    /// handle.
    Gone,
}

/// The registry. A sink is known by the handle that `register` returned for
/// it. The handle stays reserved until `unregister` frees it, also where a
/// failed send has dropped the sink meanwhile: no other sink gets the handle
/// as long as its owner may still use it.
pub struct SinkRegistry {
    slots: Vec<Slot>,
}

impl SinkRegistry {
    /// The registered sinks, by handle.
    pub closed spec fn sinks(&self) -> Map<nat, UnboundedSender<String>> {
        Map::new(
            |id: nat| id < self.slots.len() && self.slots[id as int] is Live,
            |id: nat| self.slots[id as int]->Live_0,
        )
    }

    /// The handles that are given out: those of the registered sinks, and
    /// those whose sink was dropped and which were not freed yet.
    pub closed spec fn reserved(&self) -> Set<nat> {
        Set::new(|id: nat| id < self.slots.len() && !(self.slots[id as int] is Free))
    }

    /// Every registered sink has a reserved handle, and finitely many
    /// handles are reserved.
    pub proof fn lemma_sinks_reserved(&self)
        ensures
            self.sinks().dom().subset_of(self.reserved()),
            self.sinks().dom().finite(),
            self.reserved().finite(),
    {
        lemma_handles_below(self.slots@.len());
        assert(self.reserved().subset_of(handles_below(self.slots@.len())));
        lemma_set_subset_finite(handles_below(self.slots@.len()), self.reserved());
        lemma_set_subset_finite(self.reserved(), self.sinks().dom());
    }

    /// A registry without sinks.
    pub fn new() -> (r: Self)
        ensures
            r.sinks() == Map::<nat, UnboundedSender<String>>::empty(),
            r.reserved() == Set::<nat>::empty(),
    {
        let r = SinkRegistry { slots: Vec::new() };
        assert(r.sinks() =~= Map::<nat, UnboundedSender<String>>::empty());
        assert(r.reserved() =~= Set::<nat>::empty());
        r
    }

    /// Registers `sink` under the least handle that is not reserved, and
    /// returns the handle.
    pub fn register(&mut self, sink: UnboundedSender<String>) -> (id: usize)
        ensures
            is_least_free(old(self).reserved(), id as nat),
            final(self).sinks() == old(self).sinks().insert(id as nat, sink),
            final(self).reserved() == old(self).reserved().insert(id as nat),
    {
        let mut i: usize = 0;
        while i < self.slots.len() && !matches!(self.slots[i], Slot::Free)
            invariant
                i <= self.slots.len(),
                self.slots@ == old(self).slots@,
                forall|j: int| 0 <= j < i ==> !((#[trigger] self.slots[j]) is Free),
            decreases self.slots.len() - i,
        {
            i += 1;
        }
        if i < self.slots.len() {
            self.slots[i] = Slot::Live(sink);
        } else {
            self.slots.push(Slot::Live(sink));
        }
        assert(self.sinks() =~= old(self).sinks().insert(i as nat, sink));
        assert(self.reserved() =~= old(self).reserved().insert(i as nat));
        assert forall|lower: nat| lower < i implies old(self).reserved().contains(lower) by {
            assert(!(old(self).slots[lower as int] is Free));
        }
        i
    }

    /// Takes the sink of `id` out, if it is still there, and frees the
    /// handle. A handle that is not reserved changes nothing.
    pub fn unregister(&mut self, id: usize)
        ensures
            final(self).sinks() == old(self).sinks().remove(id as nat),
            final(self).reserved() == old(self).reserved().remove(id as nat),
    {
        if id < self.slots.len() {
            self.slots[id] = Slot::Free;
        }
        assert(self.sinks() =~= old(self).sinks().remove(id as nat));
        assert(self.reserved() =~= old(self).reserved().remove(id as nat));
    }

    /// The number of registered sinks.
    pub fn count(&self) -> (n: usize)
        ensures
            n == self.sinks().dom().len(),
    {
        let mut n: usize = 0;
        let mut i: usize = 0;
        let ghost all = self.sinks().dom();
        proof {
            assert(all.filter(|id: nat| id < 0) =~= Set::<nat>::empty());
        }
        while i < self.slots.len()
            invariant
                i <= self.slots.len(),
                n <= i,
                all == self.sinks().dom(),
                all.filter(|id: nat| id < i).finite(),
                n == all.filter(|id: nat| id < i).len(),
            decreases self.slots.len() - i,
        {
            let ghost seen = all.filter(|id: nat| id < i);
            let ghost next = all.filter(|id: nat| id < i + 1);
            if matches!(self.slots[i], Slot::Live(_)) {
                proof {
                    assert(next =~= seen.insert(i as nat));
                }
                n += 1;
            } else {
                proof {
                    assert(next =~= seen);
                }
            }
            i += 1;
        }
        proof {
            assert(all.filter(|id: nat| id < i) =~= all);
        }
        n
    }

    /// Offers `text` to every registered sink, in the order of their
    /// handles, and returns what became of each offer. Whether a sink takes
    /// the text is for its receiving end to decide.
    pub fn offer(&self, text: &str) -> (offers: Vec<Offer>)
        ensures
            one_for_each(offers@, self.sinks().dom()),
    {
        let mut offers: Vec<Offer> = Vec::new();
        let mut i: usize = 0;
        while i < self.slots.len()
            invariant
                i <= self.slots.len(),
                forall|k: int|
                    0 <= k < offers.len() ==> (#[trigger] offers[k]).handle < i
                        && self.slots[offers[k].handle as int] is Live,
                forall|k: int, l: int|
                    0 <= k < l < offers.len() ==> (#[trigger] offers[k]).handle < (
                    #[trigger] offers[l]).handle,
                forall|id: int|
                    0 <= id < i && (#[trigger] self.slots[id]) is Live ==> exists|k: int|
                        0 <= k < offers.len() && (#[trigger] offers[k]).handle == id,
            decreases self.slots.len() - i,
        {
            let ghost so_far = offers@;
            match &self.slots[i] {
                Slot::Live(sink) => {
                    let accepted = push(sink, text);
                    offers.push(Offer { handle: i, accepted });
                    assert(offers[so_far.len() as int].handle == i);
                },
                _ => {},
            }
            assert forall|id: int| 0 <= id < i && (#[trigger] self.slots[id]) is Live implies exists|
                k: int,
            |
                0 <= k < offers.len() && (#[trigger] offers[k]).handle == id by {
                let k = choose|k: int| 0 <= k < so_far.len() && (#[trigger] so_far[k]).handle == id;
                assert(offers[k].handle == id);
            }
            i += 1;
        }
        assert forall|id: nat| self.sinks().dom().contains(id) implies exists|k: int|
            0 <= k < offers.len() && (#[trigger] offers[k]).handle == id by {
            assert(self.slots[id as int] is Live);
        }
        offers
    }

    /// Drops the sinks whose offer was not accepted, and no others. Their
    /// handles stay reserved for their owners.
    pub fn drop_refused(&mut self, offers: &Vec<Offer>)
        ensures
            final(self).sinks() == old(self).sinks().remove_keys(refused(offers@)),
            final(self).reserved() == old(self).reserved(),
    {
        let mut k: usize = 0;
        while k < offers.len()
            invariant
                k <= offers.len(),
                self.slots.len() == old(self).slots.len(),
                self.reserved() == old(self).reserved(),
                self.sinks() == old(self).sinks().remove_keys(refused(offers@.take(k as int))),
            decreases offers.len() - k,
        {
            let ghost round = *self;
            let offer = offers[k];
            if !offer.accepted && offer.handle < self.slots.len() {
                if matches!(self.slots[offer.handle], Slot::Live(_)) {
                    self.slots[offer.handle] = Slot::Gone;
                }
            }
            proof {
                let id = offer.handle as nat;
                let done = refused(offers@.take(k as int));
                let more = refused(offers@.take(k + 1));
                assert(self.reserved() =~= round.reserved());
                assert forall|h: nat| more.contains(h) <==> (done.contains(h) || (h == id
                    && !offer.accepted)) by {
                    if more.contains(h) {
                        let w = choose|w: int|
                            0 <= w < offers@.take(k + 1).len() && (#[trigger] offers@.take(
                                k + 1,
                            )[w]).handle == h && !offers@.take(k + 1)[w].accepted;
                        if w < k {
                            assert(offers@.take(k as int)[w].handle == h);
                        }
                    }
                    if done.contains(h) {
                        let w = choose|w: int|
                            0 <= w < offers@.take(k as int).len() && (#[trigger] offers@.take(
                                k as int,
                            )[w]).handle == h && !offers@.take(k as int)[w].accepted;
                        assert(offers@.take(k + 1)[w].handle == h);
                    }
                    if h == id && !offer.accepted {
                        assert(offers@.take(k + 1)[k as int].handle == h);
                    }
                }
                if offer.accepted {
                    assert(self.sinks() =~= round.sinks());
                } else {
                    assert(self.sinks() =~= round.sinks().remove(id));
                }
                assert(self.sinks() =~= old(self).sinks().remove_keys(more)) by {
                    assert forall|h: nat| self.sinks().contains_key(h) <==> old(
                        self,
                    ).sinks().remove_keys(more).contains_key(h) by {
                        assert(more.contains(h) <==> (done.contains(h) || (h == id
                            && !offer.accepted)));
                    }
                }
            }
            k += 1;
        }
        assert(offers@.take(offers.len() as int) =~= offers@);
    }
}

} // verus!
