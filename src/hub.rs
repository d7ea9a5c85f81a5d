//! The registry of open connections and the events queued for each.
use vstd::prelude::*;

use crate::feed::{replay_spec, Event, EventView, TweepList, TweepView};

verus! {

/// An open connection: its id and the events not yet sent to it.
pub struct Connection {
    pub id: u64,
    pub outbox: Vec<Event>,
}

pub open spec fn events_view(es: Seq<Event>) -> Seq<EventView> {
    es.map_values(|e: Event| e@)
}

impl View for Connection {
    type V = (u64, Seq<EventView>);

    open spec fn view(&self) -> (u64, Seq<EventView>) {
        (self.id, events_view(self.outbox@))
    }
}

/// Every open connection, in order of joining, each with the events that
/// it is still to be sent, in order of emission.
pub struct Hub {
    pub connections: Vec<Connection>,
}

pub type HubView = Seq<(u64, Seq<EventView>)>;

impl View for Hub {
    type V = HubView;

    open spec fn view(&self) -> HubView {
        self.connections@.map_values(|c: Connection| c@)
    }
}

/// The hub after a connection joins while the record list is `list`.
pub open spec fn join_spec(h: HubView, id: u64, list: Seq<TweepView>) -> HubView {
    h.push((id, replay_spec(list)))
}

/// The hub after an event is published.
pub open spec fn publish_spec(h: HubView, e: EventView) -> HubView {
    Seq::new(h.len(), |i: int| (h[i].0, h[i].1.push(e)))
}

/// The hub after a run of events is published, in order.
pub open spec fn publish_all(h: HubView, es: Seq<EventView>) -> HubView
    decreases es.len(),
{
    if es.len() == 0 {
        h
    } else {
        publish_spec(publish_all(h, es.drop_last()), es.last())
    }
}

/// The hub without the connections whose ids are in `failed`.
pub open spec fn prune_spec(h: HubView, failed: Seq<u64>) -> HubView {
    h.filter(|c: (u64, Seq<EventView>)| !failed.contains(c.0))
}

impl Hub {
    pub fn new() -> (r: Hub)
        ensures
            r@ == Seq::<(u64, Seq<EventView>)>::empty(),
    {
        let r = Hub { connections: Vec::new() };
        assert(r@ =~= Seq::<(u64, Seq<EventView>)>::empty());
        r
    }

    /// Registers a connection once its handshake is done; it is first
    /// told of every record of the list, in list order.
    pub fn join(&mut self, id: u64, list: &TweepList)
        ensures
            final(self)@ == join_spec(old(self)@, id, list@),
    {
        let replay = list.replay();
        self.connections.push(Connection { id, outbox: replay });
        assert(final(self)@ =~= join_spec(old(self)@, id, list@));
    }

    /// Queues an event for every open connection.
    pub fn publish(&mut self, e: &Event)
        ensures
            final(self)@ == publish_spec(old(self)@, e@),
    {
        let ghost start = self@;
        let mut i: usize = 0;
        while i < self.connections.len()
            invariant
                i <= self.connections@.len(),
                self.connections@.len() == start.len(),
                start.len() == old(self)@.len(),
                start == old(self)@,
                forall|j: int| 0 <= j < i ==> #[trigger] self@[j] == (start[j].0, start[j].1.push(e@)),
                forall|j: int| i <= j < self.connections@.len() ==> #[trigger] self@[j] == start[j],
            decreases start.len() - i,
        {
            let copy = e.duplicate();
            let ghost before = self@;
            let mut c = Connection { id: 0, outbox: Vec::new() };
            std::mem::swap(&mut c, &mut self.connections[i]);
            assert(c@ == before[i as int]);
            let ghost old_box = c.outbox@;
            c.outbox.push(copy);
            assert(events_view(c.outbox@) =~= events_view(old_box).push(e@));
            self.connections.set(i, c);
            proof {
                assert forall|j: int| 0 <= j < self.connections@.len() && j != i implies #[trigger] self@[j] == before[j] by {
                }
            }
            i = i + 1;
        }
        assert(final(self)@ =~= publish_spec(old(self)@, e@));
    }

    /// Position of the first connection with this id, if any.
    pub fn position_of(&self, id: u64) -> (r: Option<usize>)
        ensures
            match r {
                Some(i) => i < self@.len() && self@[i as int].0 == id
                    && forall|k: int| 0 <= k < i ==> self@[k].0 != id,
                None => forall|k: int| 0 <= k < self@.len() ==> self@[k].0 != id,
            },
    {
        let mut i: usize = 0;
        while i < self.connections.len()
            invariant
                i <= self.connections@.len(),
                forall|k: int| 0 <= k < i ==> self@[k].0 != id,
            decreases self.connections@.len() - i,
        {
            if self.connections[i].id == id {
                return Some(i);
            }
            i = i + 1;
        }
        None
    }

    /// Hands out, and forgets, the events queued for the connection at
    /// `index`.
    pub fn take_outbox(&mut self, index: usize) -> (r: Vec<Event>)
        requires
            index < old(self)@.len(),
        ensures
            events_view(r@) == old(self)@[index as int].1,
            final(self)@ == old(self)@.update(index as int, (old(self)@[index as int].0, Seq::<EventView>::empty())),
    {
        let ghost before = self@;
        let mut c = Connection { id: 0, outbox: Vec::new() };
        std::mem::swap(&mut c, &mut self.connections[index]);
        let id = c.id;
        let emptied = Connection { id, outbox: Vec::new() };
        assert(events_view(emptied.outbox@) =~= Seq::<EventView>::empty());
        self.connections.set(index, emptied);
        assert(self@ =~= before.update(index as int, (before[index as int].0, Seq::<EventView>::empty())));
        c.outbox
    }

    /// Removes the connections whose ids are in `failed`, keeping the
    /// order of the others.
    pub fn prune(&mut self, failed: &Vec<u64>)
        ensures
            final(self)@ == prune_spec(old(self)@, failed@),
    {
        let mut kept: Vec<Connection> = Vec::new();
        let mut rest: Vec<Connection> = Vec::new();
        std::mem::swap(&mut rest, &mut self.connections);
        let ghost all = rest@.map_values(|c: Connection| c@);
        assert(all == old(self)@);
        let mut i: usize = 0;
        let n = rest.len();
        while i < n
            invariant
                n == rest@.len(),
                i <= n,
                all == old(self)@,
                all.len() == n,
                forall|j: int| i <= j < n ==> #[trigger] rest@[j]@ == all[j],
                kept@.map_values(|c: Connection| c@) == prune_spec(all.subrange(0, i as int), failed@),
            decreases n - i,
        {
            let mut c = Connection { id: 0, outbox: Vec::new() };
            std::mem::swap(&mut c, &mut rest[i]);
            let ghost cv = c@;
            assert(cv == all[i as int]);
            let mut found = false;
            let mut k: usize = 0;
            while k < failed.len()
                invariant
                    k <= failed@.len(),
                    found == (exists|m: int| 0 <= m < k && failed@[m] == c.id),
                decreases failed@.len() - k,
            {
                if failed[k] == c.id {
                    found = true;
                }
                k = k + 1;
            }
            proof {
                if found {
                    let m = choose|m: int| 0 <= m < k && failed@[m] == c.id;
                    assert(failed@.contains(c.id));
                } else {
                    assert(!failed@.contains(c.id));
                }
                assert(all.subrange(0, i + 1).drop_last() =~= all.subrange(0, i as int));
                lemma_filter_push(all.subrange(0, i as int), all[i as int], failed@);
                assert(all.subrange(0, i + 1) =~= all.subrange(0, i as int).push(all[i as int]));
            }
            let ghost kept_before = kept@;
            if !found {
                kept.push(c);
                assert(kept@.map_values(|c: Connection| c@) =~= kept_before.map_values(|c: Connection| c@).push(cv));
            }
            i = i + 1;
        }
        assert(all.subrange(0, n as int) =~= all);
        self.connections = kept;
    }
}

proof fn lemma_filter_push(h: HubView, c: (u64, Seq<EventView>), failed: Seq<u64>)
    ensures
        prune_spec(h.push(c), failed) == if failed.contains(c.0) {
            prune_spec(h, failed)
        } else {
            prune_spec(h, failed).push(c)
        },
{
    let f = |c: (u64, Seq<EventView>)| !failed.contains(c.0);
    assert(h.push(c).drop_last() =~= h);
    h.lemma_filter_push(c, f);
}

/// Publishing a run of events leaves each connection where it was and
/// appends the run to its outbox.
pub proof fn lemma_publish_all(h: HubView, es: Seq<EventView>)
    ensures
        publish_all(h, es).len() == h.len(),
        forall|i: int| 0 <= i < h.len() ==> #[trigger] publish_all(h, es)[i] == (h[i].0, h[i].1 + es),
    decreases es.len(),
{
    if es.len() > 0 {
        lemma_publish_all(h, es.drop_last());
        assert forall|i: int| 0 <= i < h.len() implies #[trigger] publish_all(h, es)[i] == (h[i].0, h[i].1 + es) by {
            assert(h[i].1 + es =~= (h[i].1 + es.drop_last()).push(es.last()));
        }
    } else {
        assert forall|i: int| 0 <= i < h.len() implies #[trigger] publish_all(h, es)[i] == (h[i].0, h[i].1 + es) by {
            assert(h[i].1 + es =~= h[i].1);
        }
    }
}

/// Two connections that join at different times are each queued every
/// event published after they joined, in order; each is first queued one
/// new-record event per record that the list held when it joined, in list
/// order, so the later one also learns of the records that came before it.
pub proof fn lemma_connections_see_events_in_order(
    h: HubView,
    a: u64,
    list_a: Seq<TweepView>,
    between: Seq<EventView>,
    b: u64,
    list_b: Seq<TweepView>,
    after: Seq<EventView>,
)
    ensures
        ({
            let h1 = publish_all(join_spec(h, a, list_a), between);
            let h2 = publish_all(join_spec(h1, b, list_b), after);
            &&& h2.len() == h.len() + 2
            &&& h2[h.len() as int] == (a, replay_spec(list_a) + between + after)
            &&& h2[h.len() as int + 1] == (b, replay_spec(list_b) + after)
        }),
{
    let h0 = join_spec(h, a, list_a);
    lemma_publish_all(h0, between);
    let h1 = publish_all(h0, between);
    let hb = join_spec(h1, b, list_b);
    lemma_publish_all(hb, after);
    assert(hb[h.len() as int] == h1[h.len() as int]);
    assert(replay_spec(list_a) + between + after == replay_spec(list_a) + (between + after)) by {
        assert(replay_spec(list_a) + between + after =~= replay_spec(list_a) + (between + after));
    }
}

} // verus!
