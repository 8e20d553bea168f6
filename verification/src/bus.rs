//! The event bus: multi-subscriber broadcast with bounded, lossy delivery.
//!
//! Every subscription has its own bounded queue. Publishing appends the
//! event to every queue; a full queue drops its oldest event first, so a
//! publisher is never blocked by a slow consumer. A subscription only ever
//! receives events published after it was made.

use vstd::prelude::*;
use crate::events::{DocumentEvent, EventModel};

verus! {

/// How many undelivered events one subscription can hold.
pub const BUS_CAPACITY: usize = 100;

/// Mathematical model of one subscription: its key and its pending events,
/// oldest first.
#[verifier::ext_equal]
pub ghost struct SubModel {
    pub key: u64,
    pub events: Seq<EventModel>,
}

/// Mathematical model of the bus: the next fresh key and all live
/// subscriptions.
#[verifier::ext_equal]
pub ghost struct BusModel {
    pub next: u64,
    pub subs: Seq<SubModel>,
}

struct SubQueue {
    key: u64,
    buf: Vec<DocumentEvent>,
}

impl View for SubQueue {
    type V = SubModel;

    closed spec fn view(&self) -> SubModel {
        SubModel { key: self.key, events: self.buf.deep_view() }
    }
}

impl DeepView for SubQueue {
    type V = SubModel;

    open spec fn deep_view(&self) -> SubModel {
        self.view()
    }
}

/// Appending to a bounded queue: a full queue loses its oldest event.
pub open spec fn push_capped(q: Seq<EventModel>, e: EventModel) -> Seq<EventModel> {
    if q.len() < BUS_CAPACITY {
        q.push(e)
    } else {
        q.drop_first().push(e)
    }
}

/// Bus well-formedness: subscription keys are unique, all below the next
/// fresh key, and no queue exceeds the capacity.
pub open spec fn bus_wf(b: BusModel) -> bool {
    &&& forall|i: int, j: int| 0 <= i < j < b.subs.len() ==> b.subs[i].key != b.subs[j].key
    &&& forall|i: int|
        0 <= i < b.subs.len() ==> b.subs[i].key < b.next && b.subs[i].events.len() <= BUS_CAPACITY
}

/// Some live subscription carries this key.
pub open spec fn has_sub(b: BusModel, k: u64) -> bool {
    exists|i: int| 0 <= i < b.subs.len() && b.subs[i].key == k
}

/// The index of the subscription with this key.
pub open spec fn idx_of_sub(b: BusModel, k: u64) -> int {
    choose|i: int| 0 <= i < b.subs.len() && b.subs[i].key == k
}

/// The pending events of the subscription with this key, oldest first.
pub open spec fn queue_of(b: BusModel, k: u64) -> Seq<EventModel> {
    b.subs[idx_of_sub(b, k)].events
}

/// In a well-formed bus the index of a key is the only one that carries it.
pub proof fn lemma_idx_of_sub(b: BusModel, i: int, k: u64)
    requires
        bus_wf(b),
        0 <= i < b.subs.len(),
        b.subs[i].key == k,
    ensures
        has_sub(b, k),
        idx_of_sub(b, k) == i,
{
    assert(has_sub(b, k));
    let j = idx_of_sub(b, k);
    assert(0 <= j < b.subs.len() && b.subs[j].key == k);
    if i < j {
        assert(b.subs[i].key != b.subs[j].key);
    } else if j < i {
        assert(b.subs[j].key != b.subs[i].key);
    }
}

/// What `publish` does to the bus model: every queue receives the event,
/// capped.
pub open spec fn spec_publish(b: BusModel, e: EventModel) -> BusModel {
    BusModel {
        next: b.next,
        subs: Seq::new(
            b.subs.len(),
            |i: int| SubModel { key: b.subs[i].key, events: push_capped(b.subs[i].events, e) },
        ),
    }
}

/// What `poll` does to the bus model: the oldest pending event of the
/// subscription leaves its queue; an unknown key or an empty queue yields
/// nothing and changes nothing.
pub open spec fn spec_poll(b: BusModel, k: u64) -> (BusModel, Option<EventModel>) {
    if has_sub(b, k) && queue_of(b, k).len() > 0 {
        let i = idx_of_sub(b, k);
        (
            BusModel {
                next: b.next,
                subs: b.subs.update(
                    i,
                    SubModel { key: k, events: b.subs[i].events.drop_first() },
                ),
            },
            Some(b.subs[i].events[0]),
        )
    } else {
        (b, None)
    }
}

/// The broadcast bus.
pub struct EventBus {
    next_key: u64,
    subs: Vec<SubQueue>,
}

impl View for EventBus {
    type V = BusModel;

    closed spec fn view(&self) -> BusModel {
        BusModel { next: self.next_key, subs: self.subs.deep_view() }
    }
}

impl EventBus {
    /// Bus invariant; see `bus_wf`.
    pub open spec fn wf(&self) -> bool {
        bus_wf(self@)
    }

    /// A bus with no subscriptions.
    pub fn new() -> (b: Self)
        ensures
            b.wf(),
            b@.subs == Seq::<SubModel>::empty(),
    {
        let b = EventBus { next_key: 0, subs: Vec::new() };
        proof {
            assert(b@.subs =~= Seq::<SubModel>::empty());
        }
        b
    }

    fn find_sub(&self, k: u64) -> (r: Option<usize>)
        ensures
            match r {
                Some(i) => 0 <= i < self@.subs.len() && self@.subs[i as int].key == k,
                None => !has_sub(self@, k),
            },
    {
        let n = self.subs.len();
        let mut i: usize = 0;
        while i < n
            invariant
                n == self@.subs.len(),
                i <= n,
                forall|j: int| 0 <= j < i ==> self@.subs[j].key != k,
            decreases n - i,
        {
            if self.subs[i].key == k {
                return Some(i);
            }
            i = i + 1;
        }
        None
    }

    /// Whether another subscription key can still be minted.
    pub fn has_fresh_keys(&self) -> (r: bool)
        ensures
            r == (self@.next < u64::MAX),
    {
        self.next_key < u64::MAX
    }

    /// Opens a fresh subscription and returns its key. The new queue is
    /// empty: only events published after this call are ever delivered to
    /// it.
    pub fn subscribe(&mut self) -> (k: u64)
        requires
            old(self).wf(),
            old(self)@.next < u64::MAX,
        ensures
            final(self).wf(),
            k == old(self)@.next,
            !has_sub(old(self)@, k),
            final(self)@.next == old(self)@.next + 1,
            final(self)@.subs == old(self)@.subs.push(SubModel { key: k, events: Seq::empty() }),
            has_sub(final(self)@, k),
            queue_of(final(self)@, k) == Seq::<EventModel>::empty(),
    {
        let k = self.next_key;
        let ghost b0 = self@;
        self.next_key = self.next_key + 1;
        self.subs.push(SubQueue { key: k, buf: Vec::new() });
        proof {
            assert(self@.subs =~~= b0.subs.push(SubModel { key: k, events: Seq::empty() }));
            if has_sub(b0, k) {
                let i = idx_of_sub(b0, k);
                assert(b0.subs[i].key < b0.next);
            }
            let n = b0.subs.len() as int;
            assert(self@.subs[n] == SubModel { key: k, events: Seq::<EventModel>::empty() });
            lemma_idx_of_sub(self@, n, k);
        }
        k
    }

    /// Publishes an event to every live subscription, lossily: a full queue
    /// first drops its oldest event. Never blocks; with no subscriptions
    /// the event is simply dropped.
    pub fn publish(&mut self, ev: &DocumentEvent)
        requires
            old(self).wf(),
        ensures
            final(self).wf(),
            final(self)@ == spec_publish(old(self)@, ev@),
    {
        let ghost b0 = self@;
        let n = self.subs.len();
        let mut i: usize = 0;
        while i < n
            invariant
                b0 == old(self)@,
                bus_wf(b0),
                n == self@.subs.len(),
                self@.subs.len() == b0.subs.len(),
                self@.next == b0.next,
                i <= n,
                forall|j: int|
                    0 <= j < i ==> self@.subs[j] == (SubModel {
                        key: b0.subs[j].key,
                        events: push_capped(b0.subs[j].events, ev@),
                    }),
                forall|j: int| i <= j < n ==> self@.subs[j] == b0.subs[j],
            decreases n - i,
        {
            let ghost prev = self@.subs;
            let ghost before = self@.subs[i as int].events;
            let mut q = self.subs.remove(i);
            proof {
                assert(q@.events =~~= before);
            }
            if q.buf.len() == BUS_CAPACITY {
                q.buf.remove(0);
                proof {
                    assert(q@.events =~~= before.drop_first());
                }
            }
            let ghost afterdrop = q@.events;
            let ev2 = ev.clone();
            q.buf.push(ev2);
            proof {
                assert(q@.events =~~= afterdrop.push(ev@));
                assert(b0.subs[i as int].events.len() <= BUS_CAPACITY);
                assert(q@.events =~~= push_capped(before, ev@));
            }
            self.subs.insert(i, q);
            proof {
                assert(self@.subs =~~= prev.update(
                    i as int,
                    SubModel {
                        key: b0.subs[i as int].key,
                        events: push_capped(b0.subs[i as int].events, ev@),
                    },
                ));
            }
            i = i + 1;
        }
        proof {
            assert(self@.subs =~~= spec_publish(b0, ev@).subs);
            assert forall|j: int| 0 <= j < self@.subs.len() implies self@.subs[j].key < self@.next
                && self@.subs[j].events.len() <= BUS_CAPACITY by {
                assert(b0.subs[j].events.len() <= BUS_CAPACITY);
            }
        }
    }

    /// Takes the oldest pending event of a subscription, if any.
    pub fn poll(&mut self, k: u64) -> (r: Option<DocumentEvent>)
        requires
            old(self).wf(),
        ensures
            final(self).wf(),
            final(self)@ == spec_poll(old(self)@, k).0,
            r.deep_view() == spec_poll(old(self)@, k).1,
    {
        let ghost b0 = self@;
        match self.find_sub(k) {
            Some(i) => {
                proof {
                    lemma_idx_of_sub(b0, i as int, k);
                }
                if self.subs[i].buf.len() > 0 {
                    let ev = self.subs[i].buf.remove(0);
                    proof {
                        assert(self@.subs[i as int].events =~~= b0.subs[i as int
                        ].events.drop_first());
                        assert(self@.subs =~~= spec_poll(b0, k).0.subs);
                    }
                    Some(ev)
                } else {
                    proof {
                        assert(self@.subs =~~= b0.subs);
                    }
                    None
                }
            },
            None => None,
        }
    }

    /// Closes a subscription: its queue is discarded and no later event is
    /// ever delivered to it. Safe on unknown keys.
    pub fn unsubscribe(&mut self, k: u64)
        requires
            old(self).wf(),
        ensures
            final(self).wf(),
            !has_sub(final(self)@, k),
            final(self)@.next == old(self)@.next,
            has_sub(old(self)@, k) ==> final(self)@.subs == old(self)@.subs.remove(
                idx_of_sub(old(self)@, k),
            ),
            !has_sub(old(self)@, k) ==> final(self)@ == old(self)@,
    {
        let ghost b0 = self@;
        match self.find_sub(k) {
            Some(i) => {
                proof {
                    lemma_idx_of_sub(b0, i as int, k);
                }
                self.subs.remove(i);
                proof {
                    assert(self@.subs =~~= b0.subs.remove(i as int));
                    let t = self@.subs;
                    assert forall|a: int| 0 <= a < t.len() implies t[a].key != k by {
                        let a0 = if a < i as int {
                            a
                        } else {
                            a + 1
                        };
                        assert(t[a] == b0.subs[a0]);
                        if b0.subs[a0].key == k {
                            lemma_idx_of_sub(b0, a0, k);
                        }
                    }
                    assert forall|a: int, b: int| 0 <= a < b < t.len() implies t[a].key
                        != t[b].key by {
                        let a0 = if a < i as int {
                            a
                        } else {
                            a + 1
                        };
                        let b1 = if b < i as int {
                            b
                        } else {
                            b + 1
                        };
                        assert(t[a] == b0.subs[a0] && t[b] == b0.subs[b1]);
                    }
                }
            },
            None => {},
        }
    }
}

} // verus!
