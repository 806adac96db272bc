//! The isolate manager: the pool of free loopback ports and the table of
//! live isolates, one per host slug.
use vstd::prelude::*;
use std::collections::BTreeSet;
use vstd::std_specs::iter::IteratorSpec;
use vstd::std_specs::cmp::OrdSpec;
use vstd::std_specs::btree::increasing_seq;
use crate::keyed::{find_key, key_index, keyed_map, keys_unique, lemma_key_index, lemma_keyed_len, lemma_keyed_push, lemma_keyed_remove, lemma_keyed_update};
use crate::store::Store;

verus! {

broadcast use {vstd::std_specs::btree::group_btree_axioms, vstd::laws_cmp::group_laws_cmp};

/// `p` is the least element of `s`.
pub open spec fn is_least(s: Set<u16>, p: u16) -> bool {
    s.contains(p) && forall|q: u16| s.contains(q) ==> p <= q
}

fn first_port(ports: &BTreeSet<u16>) -> (r: Option<u16>)
    ensures
        match r {
            None => ports@.is_empty(),
            Some(p) => is_least(ports@, p),
        },
{
    for p in it: ports.iter()
        invariant
            it.index() == 0,
            it.seq().unref().to_set() == ports@,
            it.seq().len() == ports@.len(),
            increasing_seq(it.seq()),
    {
        proof {
            let sq = it.seq();
            assert(vstd::laws_cmp::obeys_cmp::<&u16>());
            assert(vstd::laws_cmp::obeys_cmp::<u16>());
            vstd::std_specs::btree::axiom_increasing_seq_meaning(sq);
            assert(*sq[0] == *p);
            assert forall|q: u16| ports@.contains(q) implies *p <= q by {
                let j = choose|j: int| 0 <= j < sq.unref().len() && sq.unref()[j] == q;
                assert(sq.unref()[j] == *sq[j]);
                if j > 0 {
                    assert(<&u16 as OrdSpec>::cmp_spec(&sq[0], &sq[j]) is Less);
                }
            }
        }
        return Some(*p);
    }
    None
}

/// Lifecycle state of a live isolate. A failed isolate has no record: its
/// record is removed and its port returned.
#[derive(Clone, Copy, Debug, PartialEq, Eq, Structural)]
pub enum IsolateState {
    Starting,
    Ready,
}

/// The record of one live isolate: the port it holds and its state.
#[derive(Clone, Copy, Debug, PartialEq, Eq, Structural)]
pub struct Worker {
    pub port: u16,
    pub state: IsolateState,
}

/// The manager's state as mathematics.
pub struct WorkersView {
    /// Live isolates by host slug.
    pub running: Map<Seq<char>, Worker>,
    /// Ports in the pool.
    pub free: Set<u16>,
    /// Ports taken from the pool for a start that is not yet registered.
    pub in_flight: Set<u16>,
    /// The pool the manager was created with.
    pub pool: Set<u16>,
    /// The module registry.
    pub registry: Map<Seq<char>, Seq<char>>,
}

/// The ports held by live isolates.
pub open spec fn running_ports(running: Map<Seq<char>, Worker>) -> Set<u16> {
    Set::new(|p: u16| exists|k: Seq<char>| #[trigger] running.contains_key(k) && running[k].port == p)
}

impl WorkersView {
    /// Every port of the initial pool is in exactly one place: the pool, an
    /// in-flight start, or one live isolate.
    pub open spec fn wf(self) -> bool {
        &&& self.pool.finite()
        &&& self.running.dom().finite()
        &&& self.free.disjoint(self.in_flight)
        &&& self.free.disjoint(running_ports(self.running))
        &&& self.in_flight.disjoint(running_ports(self.running))
        &&& self.pool == self.free + self.in_flight + running_ports(self.running)
        &&& ports_distinct(self.running)
    }
}

/// No two live isolates hold the same port.
pub open spec fn ports_distinct(running: Map<Seq<char>, Worker>) -> bool {
    forall|a: Seq<char>, b: Seq<char>|
        #![trigger running[a], running[b]]
        running.contains_key(a) && running.contains_key(b) && a != b ==> running[a].port != running[b].port
}

/// Setting the record of `k` to `w`: the ports held are those of the other
/// records and `w.port`, and they stay distinct when `w.port` is not held by
/// another record.
pub proof fn lemma_running_ports_insert(m: Map<Seq<char>, Worker>, k: Seq<char>, w: Worker)
    requires
        ports_distinct(m),
    ensures
        running_ports(m.insert(k, w)) == (if m.contains_key(k) {
            running_ports(m).remove(m[k].port)
        } else {
            running_ports(m)
        }).insert(w.port),
        !running_ports(m).contains(w.port) || (m.contains_key(k) && m[k].port == w.port)
            ==> ports_distinct(m.insert(k, w)),
{
    let n = m.insert(k, w);
    let others = if m.contains_key(k) {
        running_ports(m).remove(m[k].port)
    } else {
        running_ports(m)
    };
    assert forall|p: u16| others.contains(p) implies running_ports(n).contains(p) by {
        let j = choose|j: Seq<char>| #[trigger] m.contains_key(j) && m[j].port == p;
        assert(j != k);
        assert(n.contains_key(j) && n[j].port == p);
    }
    assert forall|p: u16| running_ports(n).contains(p) && p != w.port implies others.contains(p) by {
        let j = choose|j: Seq<char>| #[trigger] n.contains_key(j) && n[j].port == p;
        assert(j != k);
        assert(m.contains_key(j) && m[j].port == p);
    }
    assert(n.contains_key(k) && n[k].port == w.port);
    assert(running_ports(n) =~= others.insert(w.port));
    if !running_ports(m).contains(w.port) || (m.contains_key(k) && m[k].port == w.port) {
        assert forall|a: Seq<char>, b: Seq<char>|
            #![trigger n[a], n[b]]
            n.contains_key(a) && n.contains_key(b) && a != b implies n[a].port != n[b].port by {
            if a == k {
                assert(m.contains_key(b) && running_ports(m).contains(m[b].port));
            } else if b == k {
                assert(m.contains_key(a) && running_ports(m).contains(m[a].port));
            }
        }
    }
}

/// Removing the record of `k`: its port is no longer held.
pub proof fn lemma_running_ports_remove(m: Map<Seq<char>, Worker>, k: Seq<char>)
    requires
        ports_distinct(m),
        m.contains_key(k),
    ensures
        running_ports(m.remove(k)) == running_ports(m).remove(m[k].port),
        ports_distinct(m.remove(k)),
{
    let n = m.remove(k);
    assert forall|p: u16| running_ports(m).contains(p) && p != m[k].port implies running_ports(n).contains(p) by {
        let j = choose|j: Seq<char>| #[trigger] m.contains_key(j) && m[j].port == p;
        assert(n.contains_key(j) && n[j].port == p);
    }
    assert forall|p: u16| running_ports(n).contains(p) implies running_ports(m).remove(m[k].port).contains(p) by {
        let j = choose|j: Seq<char>| #[trigger] n.contains_key(j) && n[j].port == p;
        assert(m.contains_key(j) && m[j].port == p);
    }
    assert(running_ports(n) =~= running_ports(m).remove(m[k].port));
}

pub struct Workers {
    running: Vec<(String, Worker)>,
    available_ports: BTreeSet<u16>,
    in_flight: Ghost<Set<u16>>,
    pool: Ghost<Set<u16>>,
    store: Store,
}

impl View for Workers {
    type V = WorkersView;

    closed spec fn view(&self) -> WorkersView {
        WorkersView {
            running: keyed_map(self.running@),
            free: self.available_ports@,
            in_flight: self.in_flight@,
            pool: self.pool@,
            registry: self.store@,
        }
    }
}

impl Workers {
    pub closed spec fn wf(&self) -> bool {
        &&& keys_unique(self.running@)
        &&& self.store.wf()
        &&& self@.wf()
    }

    /// A well-formed manager has a well-formed view.
    pub proof fn lemma_view_wf(&self)
        requires
            self.wf(),
        ensures
            self@.wf(),
    {
    }

    /// A manager with no live isolate, `ports` as its pool and `store` as its
    /// registry.
    pub fn new(store: Store, ports: Vec<u16>) -> (r: Workers)
        requires
            store.wf(),
        ensures
            r.wf(),
            r@.running == Map::<Seq<char>, Worker>::empty(),
            r@.free == ports@.to_set(),
            r@.in_flight == Set::<u16>::empty(),
            r@.pool == ports@.to_set(),
            r@.registry == store@,
    {
        let mut available_ports: BTreeSet<u16> = BTreeSet::new();
        let mut i: usize = 0;
        while i < ports.len()
            invariant
                i <= ports@.len(),
                available_ports@ == ports@.subrange(0, i as int).to_set(),
            decreases ports@.len() - i,
        {
            available_ports.insert(ports[i]);
            proof {
                assert(ports@.subrange(0, i + 1) =~= ports@.subrange(0, i as int).push(ports@[i as int]));
                ports@.subrange(0, i as int).lemma_push_to_set_commute(ports@[i as int]);
            }
            i = i + 1;
        }
        assert(ports@.subrange(0, i as int) =~= ports@);
        let r = Workers {
            running: Vec::new(),
            available_ports,
            in_flight: Ghost(Set::empty()),
            pool: Ghost(ports@.to_set()),
            store,
        };
        proof {
            vstd::seq_lib::seq_to_set_is_finite(ports@);
            assert(keyed_map(r.running@) =~= Map::<Seq<char>, Worker>::empty());
            assert(running_ports(r@.running) =~= Set::<u16>::empty());
            assert(r@.pool =~= r@.free + r@.in_flight + running_ports(r@.running));
        }
        r
    }

    /// The module registry.
    pub fn store(&self) -> (r: &Store)
        requires
            self.wf(),
        ensures
            r.wf(),
            r@ == self@.registry,
    {
        &self.store
    }

    /// The port of the live isolate for `hostname`, if there is one.
    pub fn get_existing_worker_port(&self, hostname: &str) -> (r: Option<u16>)
        requires
            self.wf(),
        ensures
            r == (if self@.running.contains_key(hostname@) {
                Some(self@.running[hostname@].port)
            } else {
                None::<u16>
            }),
    {
        match find_key(&self.running, hostname) {
            Some(i) => {
                proof {
                    lemma_key_index(self.running@, i as int);
                }
                Some(self.running[i].1.port)
            },
            None => None,
        }
    }

    /// The record of the live isolate for `hostname`, if there is one.
    pub fn get_existing_worker(&self, hostname: &str) -> (r: Option<Worker>)
        requires
            self.wf(),
        ensures
            r == (if self@.running.contains_key(hostname@) {
                Some(self@.running[hostname@])
            } else {
                None::<Worker>
            }),
    {
        match find_key(&self.running, hostname) {
            Some(i) => {
                proof {
                    lemma_key_index(self.running@, i as int);
                }
                Some(self.running[i].1)
            },
            None => None,
        }
    }

    /// Takes the least port out of the pool, for a start that is then
    /// registered.
    pub fn take_available_port(&mut self) -> (r: Option<u16>)
        requires
            old(self).wf(),
        ensures
            final(self).wf(),
            match r {
                None => old(self)@.free.is_empty() && final(self)@ == old(self)@,
                Some(p) => {
                    &&& is_least(old(self)@.free, p)
                    &&& final(self)@ == (WorkersView {
                        free: old(self)@.free.remove(p),
                        in_flight: old(self)@.in_flight.insert(p),
                        ..old(self)@
                    })
                },
            },
    {
        match first_port(&self.available_ports) {
            None => None,
            Some(p) => {
                self.available_ports.remove(&p);
                self.in_flight = Ghost(self.in_flight@.insert(p));
                proof {
                    let n = self@;
                    assert(n.pool =~= n.free + n.in_flight + running_ports(n.running));
                }
                Some(p)
            },
        }
    }

    /// Records a starting or ready isolate for `hostname` on a port taken
    /// from the pool.
    pub fn register_new_running_worker(&mut self, hostname: &str, worker: Worker)
        requires
            old(self).wf(),
            old(self)@.in_flight.contains(worker.port),
            !old(self)@.running.contains_key(hostname@),
        ensures
            final(self).wf(),
            final(self)@ == (WorkersView {
                running: old(self)@.running.insert(hostname@, worker),
                in_flight: old(self)@.in_flight.remove(worker.port),
                ..old(self)@
            }),
    {
        let key = hostname.to_owned();
        proof {
            lemma_keyed_push(self.running@, key, worker);
        }
        self.running.push((key, worker));
        self.in_flight = Ghost(self.in_flight@.remove(worker.port));
        proof {
            let o = old(self)@;
            let n = self@;
            lemma_running_ports_insert(o.running, hostname@, worker);
            assert(n.pool =~= n.free + n.in_flight + running_ports(n.running));
        }
    }

    /// Marks the isolate for `hostname` ready; false when there is none.
    pub fn mark_ready(&mut self, hostname: &str) -> (r: bool)
        requires
            old(self).wf(),
        ensures
            final(self).wf(),
            r == old(self)@.running.contains_key(hostname@),
            final(self)@ == (if r {
                WorkersView {
                    running: old(self)@.running.insert(
                        hostname@,
                        Worker { port: old(self)@.running[hostname@].port, state: IsolateState::Ready },
                    ),
                    ..old(self)@
                }
            } else {
                old(self)@
            }),
    {
        match find_key(&self.running, hostname) {
            Some(i) => {
                let ghost s0 = self.running@;
                proof {
                    lemma_key_index(s0, i as int);
                }
                let key = self.running[i].0.clone();
                let w = Worker { port: self.running[i].1.port, state: IsolateState::Ready };
                proof {
                    lemma_keyed_update(s0, i as int, w);
                }
                self.running.set(i, (key, w));
                assert(self.running@ == s0.update(i as int, (s0[i as int].0, w)));
                proof {
                    let o = old(self)@;
                    let n = self@;
                    lemma_running_ports_insert(o.running, hostname@, w);
                    assert(running_ports(o.running).contains(w.port));
                    assert(running_ports(n.running) =~= running_ports(o.running));
                    assert(n.pool =~= n.free + n.in_flight + running_ports(n.running));
                }
                true
            },
            None => false,
        }
    }

    /// Removes the record for `hostname` only while it still holds `port`,
    /// so that a late failure of an old start leaves a newer isolate alone.
    pub fn deregister_worker(&mut self, hostname: &str, port: u16) -> (r: bool)
        requires
            old(self).wf(),
        ensures
            final(self).wf(),
            r == holds_port(old(self)@, hostname@, port),
            final(self)@ == (if r {
                deregistered(old(self)@, hostname@)
            } else {
                old(self)@
            }),
    {
        match self.get_existing_worker(hostname) {
            Some(w) => {
                if w.port == port {
                    self.deregister(hostname);
                    true
                } else {
                    false
                }
            },
            None => false,
        }
    }

    /// Removes the record for `hostname` and returns its port to the pool.
    /// Does nothing when there is no record.
    pub fn deregister(&mut self, hostname: &str) -> (r: Option<u16>)
        requires
            old(self).wf(),
        ensures
            final(self).wf(),
            final(self)@ == deregistered(old(self)@, hostname@),
            r == (if old(self)@.running.contains_key(hostname@) {
                Some(old(self)@.running[hostname@].port)
            } else {
                None::<u16>
            }),
    {
        match find_key(&self.running, hostname) {
            Some(i) => {
                let ghost s0 = self.running@;
                proof {
                    lemma_key_index(s0, i as int);
                    lemma_keyed_remove(s0, i as int);
                }
                let (_, w) = self.running.remove(i);
                self.available_ports.insert(w.port);
                proof {
                    lemma_deregistered_wf(old(self)@, hostname@);
                    assert(self@ =~= deregistered(old(self)@, hostname@));
                }
                Some(w.port)
            },
            None => None,
        }
    }
}

/// The record of `slug` exists and holds `port`.
pub open spec fn holds_port(v: WorkersView, slug: Seq<char>, port: u16) -> bool {
    v.running.contains_key(slug) && v.running[slug].port == port
}

/// The manager after the record for `slug` is removed and its port
/// returned; unchanged when there is no such record.
pub open spec fn deregistered(v: WorkersView, slug: Seq<char>) -> WorkersView {
    if v.running.contains_key(slug) {
        WorkersView {
            running: v.running.remove(slug),
            free: v.free.insert(v.running[slug].port),
            ..v
        }
    } else {
        v
    }
}

/// The least element of a set of ports.
pub open spec fn least(s: Set<u16>) -> u16 {
    choose|p: u16| is_least(s, p)
}

/// A set of ports with an element has a least one.
pub proof fn lemma_least_exists(s: Set<u16>, q: u16)
    requires
        s.contains(q),
    ensures
        is_least(s, least(s)),
    decreases q,
{
    if exists|r: u16| s.contains(r) && r < q {
        let r = choose|r: u16| s.contains(r) && r < q;
        lemma_least_exists(s, r);
    } else {
        assert(is_least(s, q));
    }
}

pub proof fn lemma_least_unique(s: Set<u16>, p: u16)
    requires
        is_least(s, p),
    ensures
        least(s) == p,
{
    let q = least(s);
    assert(is_least(s, q));
    assert(p <= q && q <= p);
}

/// Removing a record keeps every port in exactly one place.
pub proof fn lemma_deregistered_wf(v: WorkersView, slug: Seq<char>)
    requires
        v.wf(),
    ensures
        deregistered(v, slug).wf(),
        deregistered(v, slug).pool == v.pool,
{
    if v.running.contains_key(slug) {
        let n = deregistered(v, slug);
        let port = v.running[slug].port;
        lemma_running_ports_remove(v.running, slug);
        assert(running_ports(v.running).contains(port));
        assert(n.pool =~= n.free + n.in_flight + running_ports(n.running));
    }
}

/// However the manager was driven, each port of its initial pool is either
/// free, taken for a start not yet registered, or held by exactly one live
/// isolate: the three counts add up to the size of the initial pool.
pub proof fn lemma_port_conservation(w: &Workers)
    requires
        w.wf(),
    ensures
        w@.running.dom().len() + w@.free.len() + w@.in_flight.len() == w@.pool.len(),
{
    let v = w@;
    let s = w.running@;
    lemma_keyed_len(s);
    let ps = s.map_values(|e: (String, Worker)| e.1.port);
    assert(ps.to_set() =~= running_ports(v.running)) by {
        assert forall|p: u16| ps.to_set().contains(p) implies running_ports(v.running).contains(p) by {
            let j = choose|j: int| 0 <= j < ps.len() && ps[j] == p;
            lemma_key_index(s, j);
            assert(v.running.contains_key(s[j].0@) && v.running[s[j].0@].port == p);
        }
        assert forall|p: u16| running_ports(v.running).contains(p) implies ps.to_set().contains(p) by {
            let k = choose|k: Seq<char>| #[trigger] v.running.contains_key(k) && v.running[k].port == p;
            let j = key_index(s, k);
            lemma_key_index(s, j);
            assert(ps[j] == p);
        }
    }
    assert(ps.no_duplicates()) by {
        assert forall|a: int, b: int| 0 <= a < ps.len() && 0 <= b < ps.len() && a != b implies ps[a] != ps[b] by {
            lemma_key_index(s, a);
            lemma_key_index(s, b);
            assert(v.running[s[a].0@] == s[a].1);
            assert(v.running[s[b].0@] == s[b].1);
            assert(s[a].0@ != s[b].0@);
        }
    }
    ps.unique_seq_to_set();
    let rp = running_ports(v.running);
    assert(v.free.subset_of(v.pool));
    assert(v.in_flight.subset_of(v.pool));
    assert(rp.subset_of(v.pool));
    vstd::set_lib::lemma_set_disjoint_lens(v.free, v.in_flight);
    vstd::set_lib::lemma_set_disjoint_lens(v.free + v.in_flight, rp);
}

} // verus!
