//! The node registry and the event dispatch step.
//!
//! The registry maps each canonical address to the monitoring state of one
//! node.  It is populated once at startup and never grows or shrinks
//! afterwards; every probe event is dispatched through `dispatch`, which
//! looks the address up, runs the availability state machine on that node
//! alone, and hands back the notification to deliver, if any.

use vstd::prelude::*;
use crate::clock::{WallClock, timestamp_text};
use crate::node::{
    Node, NodeView, Notification, down_body, down_subject, reached_fires, reached_step,
    restore_body, restore_subject, unreached_fires, unreached_step,
};

verus! {

/// One probe outcome, as delivered by the prober: every cycle yields exactly
/// one event per registered address.
pub enum Event {
    /// The node answered, with its round-trip time in microseconds.
    Reached { addr: String, rtt_micros: u64 },
    /// The node did not answer within the probe cycle.
    Unreached { addr: String },
}

/// The canonical address an event speaks about.
pub open spec fn addr_of(e: Event) -> Seq<char> {
    match e {
        Event::Reached { addr, .. } => addr@,
        Event::Unreached { addr } => addr@,
    }
}

/// The monitoring state of a freshly registered node.
pub open spec fn fresh_node(name: Seq<char>, now: int, wall: WallClock) -> NodeView {
    NodeView { name, last_seen_mono: now, last_seen_wall: wall, alerted: false }
}

/// The address-to-state map described by a sequence of registry entries;
/// later entries for the same address win, as repeated insertion would.
pub open spec fn map_of_entries(s: Seq<(String, Node)>) -> Map<Seq<char>, NodeView>
    decreases s.len(),
{
    if s.len() == 0 {
        Map::empty()
    } else {
        map_of_entries(s.drop_last()).insert(s.last().0@, s.last().1@)
    }
}

/// The map a run of `initialize` builds from resolved `(address, name)`
/// pairs: one fresh node per address, later pairs overriding earlier ones.
pub open spec fn registry_map_of(
    pairs: Seq<(Seq<char>, Seq<char>)>,
    now: int,
    wall: WallClock,
) -> Map<Seq<char>, NodeView>
    decreases pairs.len(),
{
    if pairs.len() == 0 {
        Map::empty()
    } else {
        registry_map_of(pairs.drop_last(), now, wall).insert(
            pairs.last().0,
            fresh_node(pairs.last().1, now, wall),
        )
    }
}

/// The `(address, name)` views of a resolved configuration.
pub open spec fn views_of_pairs(resolved: Seq<(String, String)>) -> Seq<(Seq<char>, Seq<char>)> {
    resolved.map_values(|p: (String, String)| (p.0@, p.1@))
}

/// No two entries share an address.
pub open spec fn unique_addrs(s: Seq<(String, Node)>) -> bool {
    forall|i: int, j: int|
        0 <= i < j < s.len() ==> (#[trigger] s[i]).0@ != (#[trigger] s[j]).0@
}

/// Every entry's node is well-formed.
pub open spec fn nodes_wf(s: Seq<(String, Node)>) -> bool {
    forall|i: int| 0 <= i < s.len() ==> (#[trigger] s[i]).1@.wf()
}

/// The fixed set of monitored nodes, keyed by canonical address.
pub struct Registry {
    entries: Vec<(String, Node)>,
}

impl View for Registry {
    type V = Map<Seq<char>, NodeView>;

    closed spec fn view(&self) -> Map<Seq<char>, NodeView> {
        map_of_entries(self.entries@)
    }
}

proof fn lemma_map_dom(s: Seq<(String, Node)>, a: Seq<char>)
    ensures
        map_of_entries(s).dom().contains(a) <==> exists|i: int|
            0 <= i < s.len() && (#[trigger] s[i]).0@ == a,
    decreases s.len(),
{
    if s.len() == 0 {
    } else {
        lemma_map_dom(s.drop_last(), a);
        if map_of_entries(s).dom().contains(a) {
            if a == s.last().0@ {
                assert(s[s.len() - 1].0@ == a);
            } else {
                let i = choose|i: int| 0 <= i < s.drop_last().len() && (#[trigger] s.drop_last()[i]).0@ == a;
                assert(s[i].0@ == a);
            }
        }
        if exists|i: int| 0 <= i < s.len() && (#[trigger] s[i]).0@ == a {
            let i = choose|i: int| 0 <= i < s.len() && (#[trigger] s[i]).0@ == a;
            if i == s.len() - 1 {
                assert(map_of_entries(s).dom().contains(a));
            } else {
                assert(s.drop_last()[i].0@ == a);
            }
        }
    }
}

proof fn lemma_map_at(s: Seq<(String, Node)>, i: int)
    requires
        unique_addrs(s),
        0 <= i < s.len(),
    ensures
        map_of_entries(s).dom().contains(s[i].0@),
        map_of_entries(s)[s[i].0@] == s[i].1@,
    decreases s.len(),
{
    if i == s.len() - 1 {
    } else {
        assert(unique_addrs(s.drop_last())) by {
            assert(forall|p: int, q: int|
                0 <= p < q < s.drop_last().len() ==> (#[trigger] s.drop_last()[p]).0@ != (
                #[trigger] s.drop_last()[q]).0@) by {
                assert(forall|p: int|
                    0 <= p < s.drop_last().len() ==> #[trigger] s.drop_last()[p] == s[p]);
            }
        }
        lemma_map_at(s.drop_last(), i);
        assert(s.drop_last()[i] == s[i]);
        assert(s[i].0@ != s.last().0@);
    }
}

proof fn lemma_map_update(s: Seq<(String, Node)>, i: int, e: (String, Node))
    requires
        unique_addrs(s),
        0 <= i < s.len(),
        e.0@ == s[i].0@,
    ensures
        map_of_entries(s.update(i, e)) == map_of_entries(s).insert(e.0@, e.1@),
        unique_addrs(s.update(i, e)),
    decreases s.len(),
{
    let s2 = s.update(i, e);
    assert(unique_addrs(s2)) by {
        assert(forall|p: int| 0 <= p < s2.len() ==> (#[trigger] s2[p]).0@ == s[p].0@);
    }
    if i == s.len() - 1 {
        assert(s2.drop_last() =~= s.drop_last());
        assert(s2.last() == e);
        assert(map_of_entries(s2) =~= map_of_entries(s).insert(e.0@, e.1@));
    } else {
        assert(unique_addrs(s.drop_last())) by {
            assert(forall|p: int|
                0 <= p < s.drop_last().len() ==> #[trigger] s.drop_last()[p] == s[p]);
        }
        lemma_map_update(s.drop_last(), i, e);
        assert(s2.drop_last() =~= s.drop_last().update(i, e));
        assert(s2.last() == s.last());
        assert(s[i].0@ != s.last().0@);
        assert(map_of_entries(s2) =~= map_of_entries(s).insert(e.0@, e.1@));
    }
}

impl Registry {
    /// Addresses are unique keys and every node is well-formed.
    pub closed spec fn wf(self) -> bool {
        &&& unique_addrs(self.entries@)
        &&& nodes_wf(self.entries@)
    }

    /// The index holding `addr`, if any.
    fn find(&self, addr: &String) -> (r: Option<usize>)
        ensures
            r matches Some(i) ==> i < self.entries@.len() && self.entries@[i as int].0@ == addr@,
            r is None ==> forall|i: int|
                0 <= i < self.entries@.len() ==> (#[trigger] self.entries@[i]).0@ != addr@,
    {
        let mut k: usize = 0;
        while k < self.entries.len()
            invariant
                k <= self.entries@.len(),
                forall|j: int| 0 <= j < k ==> (#[trigger] self.entries@[j]).0@ != addr@,
            decreases self.entries@.len() - k,
        {
            if self.entries[k].0 == *addr {
                return Some(k);
            }
            k += 1;
        }
        None
    }

    /// Looks a node up by canonical address; an absent address is a valid,
    /// silently ignored outcome.
    pub fn get(&self, addr: &String) -> (r: Option<&Node>)
        requires
            self.wf(),
        ensures
            r is Some <==> self@.dom().contains(addr@),
            r matches Some(n) ==> n@ == self@[addr@],
    {
        match self.find(addr) {
            Some(i) => {
                proof {
                    lemma_map_at(self.entries@, i as int);
                }
                Some(&self.entries[i].1)
            },
            None => {
                proof {
                    lemma_map_dom(self.entries@, addr@);
                }
                None
            },
        }
    }

    /// Populates the registry from resolved `(address, name)` pairs, every
    /// node counting as seen "now".  An empty address set is a fatal
    /// startup condition, reported as `None`.
    pub fn initialize(resolved: Vec<(String, String)>, now: u64, wall: WallClock) -> (r: Option<
        Registry,
    >)
        requires
            wall.wf(),
        ensures
            r is Some <==> resolved@.len() > 0,
            r matches Some(reg) ==> reg.wf() && reg@ == registry_map_of(
                views_of_pairs(resolved@),
                now as int,
                wall,
            ),
    {
        if resolved.len() == 0 {
            return None;
        }
        let ghost pairs = views_of_pairs(resolved@);
        let mut reg = Registry { entries: Vec::new() };
        let mut k: usize = 0;
        while k < resolved.len()
            invariant
                k <= resolved@.len(),
                pairs == views_of_pairs(resolved@),
                pairs.len() == resolved@.len(),
                unique_addrs(reg.entries@),
                nodes_wf(reg.entries@),
                map_of_entries(reg.entries@) == registry_map_of(
                    pairs.subrange(0, k as int),
                    now as int,
                    wall,
                ),
                wall.wf(),
            decreases resolved@.len() - k,
        {
            let addr = resolved[k].0.clone();
            let name = resolved[k].1.clone();
            let node = Node::new(name, now, wall);
            let ghost before = reg.entries@;
            match reg.find(&addr) {
                Some(i) => {
                    let _ = reg.entries.remove(i);
                    reg.entries.insert(i, (addr, node));
                    proof {
                        assert(reg.entries@ =~= before.update(i as int, reg.entries@[i as int]));
                        lemma_map_update(before, i as int, reg.entries@[i as int]);
                    }
                },
                None => {
                    reg.entries.push((addr, node));
                    proof {
                        assert(reg.entries@.drop_last() =~= before);
                        assert(unique_addrs(reg.entries@)) by {
                            assert(forall|p: int|
                                0 <= p < before.len() ==> #[trigger] reg.entries@[p] == before[p]);
                        }
                    }
                },
            }
            proof {
                assert(nodes_wf(reg.entries@));
                assert(pairs.subrange(0, k + 1).drop_last() =~= pairs.subrange(0, k as int));
                assert(pairs.subrange(0, k + 1).last() == pairs[k as int]);
                assert(map_of_entries(reg.entries@) == registry_map_of(
                    pairs.subrange(0, k + 1),
                    now as int,
                    wall,
                ));
            }
            k += 1;
        }
        proof {
            assert(pairs.subrange(0, resolved@.len() as int) =~= pairs);
        }
        Some(reg)
    }

    /// Dispatches one probe event, sampled at monotonic time `now` and
    /// wall-clock moment `wall`.  An address outside the registry changes
    /// nothing and emits nothing; a registered address steps that node's
    /// availability state machine and nothing else.  All timestamps are
    /// readings of one monotonic clock, so `now` never lags a stored
    /// last-seen moment.
    pub fn dispatch(
        &mut self,
        event: &Event,
        now: u64,
        wall: WallClock,
        threshold_millis: u64,
        alertto: &str,
        emailonrestore: bool,
    ) -> (r: Option<Notification>)
        requires
            old(self).wf(),
            wall.wf(),
            forall|a: Seq<char>|
                old(self)@.dom().contains(a) ==> (#[trigger] old(self)@[a]).last_seen_mono
                    <= now as int,
        ensures
            final(self).wf(),
            !old(self)@.dom().contains(addr_of(*event)) ==> final(self)@ == old(self)@ && r
                is None,
            old(self)@.dom().contains(addr_of(*event)) && *event is Unreached ==> {
                &&& final(self)@ == old(self)@.insert(
                    addr_of(*event),
                    unreached_step(
                        old(self)@[addr_of(*event)],
                        now as int,
                        threshold_millis as int,
                    ),
                )
                &&& (r is Some <==> unreached_fires(
                    old(self)@[addr_of(*event)],
                    now as int,
                    threshold_millis as int,
                ))
            },
            old(self)@.dom().contains(addr_of(*event)) && *event is Reached ==> {
                &&& final(self)@ == old(self)@.insert(
                    addr_of(*event),
                    reached_step(old(self)@[addr_of(*event)], now as int, wall),
                )
                &&& (r is Some <==> reached_fires(old(self)@[addr_of(*event)], emailonrestore))
            },
            *event is Unreached ==> (r matches Some(m) ==> {
                &&& m.recipient@ == alertto@
                &&& m.subject@ == down_subject(
                    old(self)@[addr_of(*event)].name,
                    timestamp_text(old(self)@[addr_of(*event)].last_seen_wall),
                )
                &&& m.body@ == down_body(
                    old(self)@[addr_of(*event)].name,
                    timestamp_text(old(self)@[addr_of(*event)].last_seen_wall),
                )
            }),
            *event is Reached ==> (r matches Some(m) ==> {
                &&& m.recipient@ == alertto@
                &&& m.subject@ == restore_subject(old(self)@[addr_of(*event)].name)
                &&& m.body@ == restore_body(old(self)@[addr_of(*event)].name)
            }),
    {
        let addr: &String = match event {
            Event::Reached { addr, .. } => addr,
            Event::Unreached { addr } => addr,
        };
        match self.find(addr) {
            None => {
                proof {
                    lemma_map_dom(self.entries@, addr@);
                }
                None
            },
            Some(i) => {
                proof {
                    lemma_map_at(self.entries@, i as int);
                }
                let ghost before = self.entries@;
                let mut entry = self.entries.remove(i);
                proof {
                    assert(entry == before[i as int]);
                    assert(old(self)@.dom().contains(addr@));
                    assert(old(self)@[addr@] == entry.1@);
                    assert(entry.1@.last_seen_mono <= now as int);
                }
                let notif = match event {
                    Event::Reached { .. } => entry.1.seen(alertto, emailonrestore, now, wall),
                    Event::Unreached { .. } => entry.1.idle(threshold_millis, alertto, now),
                };
                self.entries.insert(i, entry);
                proof {
                    assert(self.entries@ =~= before.update(i as int, self.entries@[i as int]));
                    lemma_map_update(before, i as int, self.entries@[i as int]);
                    assert(nodes_wf(self.entries@)) by {
                        assert(forall|p: int|
                            0 <= p < self.entries@.len() && p != i ==> #[trigger] self.entries@[p]
                                == before[p]);
                    }
                }
                notif
            },
        }
    }
}

} // verus!
