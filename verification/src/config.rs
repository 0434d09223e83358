//! Configuration: the connections an endpoint knows, keyed by name, and the
//! parameters of each.

use crate::identifier::FmtpIdentifier;
use crate::time::Duration;
use vstd::prelude::*;

verus! {

/// The role of an FMTP connection endpoint.
#[derive(Clone, Copy, Debug, PartialEq, Eq, Structural)]
pub enum Role {
    /// Initiates connections to servers.
    Client,
    /// Accepts incoming connections.
    Server,
}

/// The state that a connection should reach and keep.
#[derive(Clone, Copy, Debug, PartialEq, Eq, PartialOrd, Ord, Structural)]
pub enum Target {
    /// No connection.
    Idle,
    /// Connection established, no data transfer.
    Ready,
    /// Connection established and associated for data transfer.
    DataReady,
}

/// Configuration of a single FMTP connection.
#[derive(Clone, Debug, PartialEq, Eq)]
pub struct ConnectionConfig {
    /// Identifier of this end, sent in the identification handshake.
    pub local_id: FmtpIdentifier,
    /// Identifier expected from the remote end.
    pub remote_id: FmtpIdentifier,
    /// Identification timer.
    pub ti: Duration,
    /// Response timer (waiting for a heartbeat or data).
    pub tr: Duration,
    /// Heartbeat timer (a heartbeat is sent when no other data was sent).
    pub ts: Duration,
    /// Addresses (`host:port`) to try, in order, when connecting.
    pub remote_addresses: Vec<String>,
    /// Role of this end.
    pub role: Role,
    /// The state the connection should reach once set up.
    pub initial_target: Target,
    /// Time to wait before connecting again, if set.
    pub connect_retry_timer: Option<Duration>,
}

/// Values keyed by name; no name occurs twice.
#[derive(Debug)]
pub struct NameMap<V> {
    entries: Vec<(String, V)>,
}

/// Connection configurations keyed by connection name.
pub type ConnectionMap = NameMap<ConnectionConfig>;

impl<V> NameMap<V> {
    #[verifier::type_invariant]
    closed spec fn keys_distinct(self) -> bool {
        forall|i: int, j: int|
            0 <= i < self.entries@.len() && 0 <= j < self.entries@.len() && i != j
                ==> #[trigger] self.entries@[i].0@ != #[trigger] self.entries@[j].0@
    }

    /// The name stored at position `i`, for `0 <= i < count()`.
    pub closed spec fn key_at(self, i: int) -> Seq<char> {
        self.entries@[i].0@
    }

    /// The number of names in the map.
    pub closed spec fn count(self) -> nat {
        self.entries@.len()
    }

    closed spec fn has_key(self, k: Seq<char>) -> bool {
        exists|i: int| 0 <= i < self.entries@.len() && #[trigger] self.entries@[i].0@ == k
    }

    closed spec fn index_of(self, k: Seq<char>) -> int {
        choose|i: int| 0 <= i < self.entries@.len() && #[trigger] self.entries@[i].0@ == k
    }

    proof fn lemma_index_of(self, i: int)
        requires
            self.keys_distinct(),
            0 <= i < self.entries@.len(),
        ensures
            self.has_key(self.entries@[i].0@),
            self.index_of(self.entries@[i].0@) == i,
    {
        let k = self.entries@[i].0@;
        assert(self.entries@[i].0@ == k);
        let j = self.index_of(k);
        assert(0 <= j < self.entries@.len() && self.entries@[j].0@ == k);
    }
}

impl<V> View for NameMap<V> {
    type V = Map<Seq<char>, V>;

    closed spec fn view(&self) -> Map<Seq<char>, V> {
        Map::new(|k: Seq<char>| self.has_key(k), |k: Seq<char>| self.entries@[self.index_of(k)].1)
    }
}

impl<V> NameMap<V> {
    /// Every name in the map stands at some position below `count`.
    pub proof fn lemma_key_positioned(&self, k: Seq<char>)
        requires
            self@.contains_key(k),
        ensures
            exists|i: int| 0 <= i < self.count() && #[trigger] self.key_at(i) == k,
    {
        let i = self.index_of(k);
        assert(self.key_at(i) == k);
    }

    /// The name at every position below `count` is in the map.
    pub proof fn lemma_position_keyed(&self, i: int)
        requires
            0 <= i < self.count(),
        ensures
            self@.contains_key(self.key_at(i)),
    {
        assert(self.entries@[i].0@ == self.key_at(i));
    }

    /// An empty map.
    pub fn new() -> (m: NameMap<V>)
        ensures
            m@ == Map::<Seq<char>, V>::empty(),
            m.count() == 0,
    {
        let m = NameMap { entries: Vec::new() };
        assert(m@ =~= Map::<Seq<char>, V>::empty());
        m
    }

    /// The number of names in the map.
    pub fn len(&self) -> (n: usize)
        ensures
            n == self.count(),
            n == self@.dom().len(),
    {
        proof {
            use_type_invariant(self);
            self.lemma_dom_len();
        }
        self.entries.len()
    }

    proof fn lemma_dom_len(&self)
        requires
            self.keys_distinct(),
        ensures
            self@.dom().finite(),
            self@.dom().len() == self.count(),
        decreases self.entries@.len(),
    {
        let keys = self.entries@.map_values(|e: (String, V)| e.0@);
        assert forall|i: int, j: int| 0 <= i < keys.len() && 0 <= j < keys.len() && i != j
            implies keys[i] != keys[j] by {
            assert(self.entries@[i].0@ != self.entries@[j].0@);
        }
        keys.unique_seq_to_set();
        assert(self@.dom() =~= keys.to_set()) by {
            assert forall|k: Seq<char>| self@.dom().contains(k) implies keys.to_set().contains(k) by {
                let i = self.index_of(k);
                assert(keys[i] == k);
            }
            assert forall|k: Seq<char>| keys.to_set().contains(k) implies self@.dom().contains(k) by {
                let i = choose|i: int| 0 <= i < keys.len() && keys[i] == k;
                assert(self.entries@[i].0@ == k);
            }
        }
    }

    /// The name and value at position `i`.
    pub fn entry(&self, i: usize) -> (e: (&String, &V))
        requires
            i < self.count(),
        ensures
            e.0@ == self.key_at(i as int),
            self@.contains_key(e.0@),
            self@[e.0@] == *e.1,
    {
        proof {
            use_type_invariant(self);
            self.lemma_index_of(i as int);
        }
        let entry = &self.entries[i];
        (&entry.0, &entry.1)
    }

    /// The position of `k`, if the map holds it.
    fn position(&self, k: &String) -> (p: Option<usize>)
        ensures
            match p {
                Some(i) => i < self.entries@.len() && self.entries@[i as int].0@ == k@,
                None => !self.has_key(k@),
            },
    {
        let mut i: usize = 0;
        while i < self.entries.len()
            invariant
                i <= self.entries@.len(),
                forall|j: int| 0 <= j < i ==> #[trigger] self.entries@[j].0@ != k@,
            decreases self.entries@.len() - i,
        {
            if self.entries[i].0 == *k {
                return Some(i);
            }
            i = i + 1;
        }
        None
    }

    /// Whether the map holds the name `k`.
    pub fn contains_key(&self, k: &String) -> (b: bool)
        ensures
            b == self@.contains_key(k@),
    {
        self.position(k).is_some()
    }

    /// The value named `k`, if there is one.
    pub fn get(&self, k: &String) -> (c: Option<&V>)
        ensures
            match c {
                Some(c) => self@.contains_key(k@) && *c == self@[k@],
                None => !self@.contains_key(k@),
            },
    {
        proof {
            use_type_invariant(self);
        }
        match self.position(k) {
            Some(i) => {
                proof {
                    self.lemma_index_of(i as int);
                }
                Some(&self.entries[i].1)
            },
            None => None,
        }
    }

    proof fn lemma_update(self, i: int, kv: (String, V), next: NameMap<V>)
        requires
            self.keys_distinct(),
            0 <= i < self.entries@.len(),
            kv.0@ == self.entries@[i].0@,
            next.entries@ == self.entries@.update(i, kv),
        ensures
            next.keys_distinct(),
            next@ == self@.insert(kv.0@, kv.1),
    {
        assert(next.keys_distinct()) by {
            assert forall|a: int, b: int|
                0 <= a < next.entries@.len() && 0 <= b < next.entries@.len() && a != b
                    implies #[trigger] next.entries@[a].0@ != #[trigger] next.entries@[b].0@ by {
                assert(self.entries@[a].0@ != self.entries@[b].0@);
            }
        }
        assert forall|q: Seq<char>| next.has_key(q) <==> (q == kv.0@ || self.has_key(q)) by {
            if next.has_key(q) {
                let j = next.index_of(q);
                if j != i {
                    assert(self.entries@[j].0@ == q);
                }
            }
            if q == kv.0@ {
                assert(next.entries@[i].0@ == q);
            } else if self.has_key(q) {
                let j = self.index_of(q);
                assert(next.entries@[j].0@ == q);
            }
        }
        assert forall|q: Seq<char>| next.has_key(q) implies
            next.entries@[next.index_of(q)].1 == (if q == kv.0@ { kv.1 } else { self@[q] }) by {
            let j = next.index_of(q);
            next.lemma_index_of(j);
            if q != kv.0@ {
                self.lemma_index_of(j);
            }
        }
        assert(next@ =~= self@.insert(kv.0@, kv.1));
    }

    proof fn lemma_push(self, kv: (String, V), next: NameMap<V>)
        requires
            self.keys_distinct(),
            !self.has_key(kv.0@),
            next.entries@ == self.entries@.push(kv),
        ensures
            next.keys_distinct(),
            next@ == self@.insert(kv.0@, kv.1),
    {
        let n = self.entries@.len() as int;
        assert(next.keys_distinct()) by {
            assert forall|a: int, b: int|
                0 <= a < next.entries@.len() && 0 <= b < next.entries@.len() && a != b
                    implies #[trigger] next.entries@[a].0@ != #[trigger] next.entries@[b].0@ by {
                if a < n && b < n {
                    assert(self.entries@[a].0@ != self.entries@[b].0@);
                } else if a < n {
                    assert(self.entries@[a].0@ == next.entries@[a].0@);
                } else {
                    assert(self.entries@[b].0@ == next.entries@[b].0@);
                }
            }
        }
        assert forall|q: Seq<char>| next.has_key(q) <==> (q == kv.0@ || self.has_key(q)) by {
            if next.has_key(q) {
                let j = next.index_of(q);
                if j != n {
                    assert(self.entries@[j].0@ == q);
                }
            }
            if q == kv.0@ {
                assert(next.entries@[n].0@ == q);
            } else if self.has_key(q) {
                let j = self.index_of(q);
                assert(next.entries@[j].0@ == q);
            }
        }
        assert forall|q: Seq<char>| next.has_key(q) implies
            next.entries@[next.index_of(q)].1 == (if q == kv.0@ { kv.1 } else { self@[q] }) by {
            let j = next.index_of(q);
            next.lemma_index_of(j);
            if q != kv.0@ {
                self.lemma_index_of(j);
            }
        }
        assert(next@ =~= self@.insert(kv.0@, kv.1));
    }

    /// Names `v` as `k`, returning the value it replaces.
    pub fn insert(&mut self, k: String, v: V) -> (old_v: Option<V>)
        ensures
            final(self)@ == old(self)@.insert(k@, v),
            match old_v {
                Some(o) => old(self)@.contains_key(k@) && o == old(self)@[k@],
                None => !old(self)@.contains_key(k@),
            },
    {
        proof {
            use_type_invariant(&*self);
        }
        let ghost before = *self;
        let pos = self.position(&k);
        let mut entries: Vec<(String, V)> = Vec::new();
        std::mem::swap(&mut entries, &mut self.entries);
        let ghost kv = (k, v);
        match pos {
            Some(i) => {
                let mut item = (k, v);
                entries.set_and_swap(i, &mut item);
                proof {
                    before.lemma_update(i as int, kv, NameMap { entries });
                    before.lemma_index_of(i as int);
                }
                self.entries = entries;
                Some(item.1)
            },
            None => {
                entries.push((k, v));
                proof {
                    before.lemma_push(kv, NameMap { entries });
                }
                self.entries = entries;
                None
            },
        }
    }
}

impl<V> NameMap<V> {
    proof fn lemma_remove(self, i: int, next: NameMap<V>)
        requires
            self.keys_distinct(),
            0 <= i < self.entries@.len(),
            next.entries@ == self.entries@.remove(i),
        ensures
            next.keys_distinct(),
            next@ == self@.remove(self.entries@[i].0@),
    {
        let k = self.entries@[i].0@;
        assert(next.keys_distinct()) by {
            assert forall|a: int, b: int|
                0 <= a < next.entries@.len() && 0 <= b < next.entries@.len() && a != b
                    implies #[trigger] next.entries@[a].0@ != #[trigger] next.entries@[b].0@ by {
                let sa = if a < i { a } else { a + 1 };
                let sb = if b < i { b } else { b + 1 };
                assert(next.entries@[a] == self.entries@[sa]);
                assert(next.entries@[b] == self.entries@[sb]);
                assert(self.entries@[sa].0@ != self.entries@[sb].0@);
            }
        }
        assert forall|q: Seq<char>| next.has_key(q) <==> (q != k && self.has_key(q)) by {
            if next.has_key(q) {
                let j = next.index_of(q);
                let sj = if j < i { j } else { j + 1 };
                assert(next.entries@[j] == self.entries@[sj]);
                assert(self.entries@[sj].0@ == q);
                assert(self.entries@[i].0@ != self.entries@[sj].0@);
            }
            if q != k && self.has_key(q) {
                let j = self.index_of(q);
                assert(j != i);
                let nj = if j < i { j } else { j - 1 };
                assert(next.entries@[nj] == self.entries@[j]);
                assert(next.entries@[nj].0@ == q);
            }
        }
        assert forall|q: Seq<char>| next.has_key(q) implies next.entries@[next.index_of(q)].1 == self@[q] by {
            let j = next.index_of(q);
            next.lemma_index_of(j);
            let sj = if j < i { j } else { j + 1 };
            assert(next.entries@[j] == self.entries@[sj]);
            self.lemma_index_of(sj);
        }
        assert(next@ =~= self@.remove(k));
    }

    /// Removes the value named `k`, returning it.
    pub fn remove(&mut self, k: &String) -> (removed: Option<V>)
        ensures
            final(self)@ == old(self)@.remove(k@),
            match removed {
                Some(v) => old(self)@.contains_key(k@) && v == old(self)@[k@],
                None => !old(self)@.contains_key(k@),
            },
    {
        proof {
            use_type_invariant(&*self);
        }
        let ghost before = *self;
        match self.position(k) {
            Some(i) => {
                let mut entries: Vec<(String, V)> = Vec::new();
                std::mem::swap(&mut entries, &mut self.entries);
                let removed = entries.remove(i);
                proof {
                    before.lemma_remove(i as int, NameMap { entries });
                    before.lemma_index_of(i as int);
                }
                self.entries = entries;
                Some(removed.1)
            },
            None => {
                assert(self@ =~= before@.remove(k@));
                None
            },
        }
    }
}

impl<V: Clone> Clone for NameMap<V> {
    fn clone(&self) -> (c: Self)
        ensures
            c@.dom() == self@.dom(),
            forall|k: Seq<char>| #[trigger] c@.contains_key(k) ==> cloned::<V>(self@[k], c@[k]),
    {
        proof {
            use_type_invariant(self);
        }
        let mut entries: Vec<(String, V)> = Vec::new();
        let mut i: usize = 0;
        while i < self.entries.len()
            invariant
                i <= self.entries@.len(),
                entries@.len() == i,
                forall|j: int| 0 <= j < i ==> #[trigger] entries@[j].0@ == self.entries@[j].0@,
                forall|j: int| 0 <= j < i ==> cloned::<V>(self.entries@[j].1, #[trigger] entries@[j].1),
            decreases self.entries@.len() - i,
        {
            let entry = &self.entries[i];
            entries.push((entry.0.clone(), entry.1.clone()));
            i = i + 1;
        }
        let c = NameMap { entries };
        assert(c@.dom() =~= self@.dom()) by {
            assert forall|q: Seq<char>| c.has_key(q) <==> self.has_key(q) by {
                if c.has_key(q) {
                    let j = c.index_of(q);
                    assert(self.entries@[j].0@ == q);
                }
                if self.has_key(q) {
                    let j = self.index_of(q);
                    assert(c.entries@[j].0@ == q);
                }
            }
        }
        assert forall|k: Seq<char>| #[trigger] c@.contains_key(k) implies cloned::<V>(self@[k], c@[k]) by {
            let j = c.index_of(k);
            c.lemma_index_of(j);
            self.lemma_index_of(j);
        }
        c
    }
}

impl<V> Default for NameMap<V> {
    fn default() -> (m: Self)
        ensures
            m@ == Map::<Seq<char>, V>::empty(),
    {
        NameMap::new()
    }
}

/// Global FMTP configuration.
#[derive(Clone, Debug)]
pub struct Config {
    /// Address (`host:port`) that server connections are accepted on.
    pub bind_address: Option<String>,
    /// The configured connections, by name.
    pub connections: ConnectionMap,
    /// Identification timer of a server before the remote end has identified itself
    /// (and so before its connection configuration is known).
    pub server_ti: Option<Duration>,
}

/// How long a client waits before connecting again to the connection named `id`: its
/// retry timer, where it is a configured client connection.
pub open spec fn retry_delay_of(config: Config, id: Seq<char>) -> Option<Duration> {
    if config.connections@.contains_key(id) && config.connections@[id].role == Role::Client {
        config.connections@[id].connect_retry_timer
    } else {
        None
    }
}

impl Config {
    /// The name of a server connection, where there is one but no bind address.
    pub fn unbound_server(&self) -> (r: Option<&String>)
        ensures
            match r {
                Some(k) => {
                    &&& self.bind_address is None
                    &&& self.connections@.contains_key(k@)
                    &&& self.connections@[k@].role == Role::Server
                },
                None => self.bind_address is Some || forall|k: Seq<char>| #[trigger]
                    self.connections@.contains_key(k) ==> self.connections@[k].role != Role::Server,
            },
    {
        if self.bind_address.is_some() {
            return None;
        }
        let n = self.connections.len();
        let mut i: usize = 0;
        while i < n
            invariant
                n == self.connections.count(),
                i <= n,
                self.bind_address is None,
                forall|j: int| 0 <= j < i ==> self.connections@[#[trigger] self.connections.key_at(j)].role
                    != Role::Server,
            decreases n - i,
        {
            let (k, c) = self.connections.entry(i);
            if c.role == Role::Server {
                return Some(k);
            }
            i = i + 1;
        }
        proof {
            assert forall|k: Seq<char>| #[trigger] self.connections@.contains_key(k) implies
                self.connections@[k].role != Role::Server by {
                self.connections.lemma_key_positioned(k);
                let j = choose|j: int| 0 <= j < self.connections.count() && #[trigger] self.connections.key_at(j) == k;
                assert(self.connections@[self.connections.key_at(j)].role != Role::Server);
            }
        }
        None
    }

    /// The names of the client connections, each once.
    pub fn client_names(&self) -> (names: Vec<String>)
        ensures
            forall|i: int| 0 <= i < names@.len() ==> {
                &&& self.connections@.contains_key(#[trigger] names@[i]@)
                &&& self.connections@[names@[i]@].role == Role::Client
            },
            forall|k: Seq<char>| #[trigger]
                self.connections@.contains_key(k) && self.connections@[k].role == Role::Client
                    ==> exists|i: int| 0 <= i < names@.len() && #[trigger] names@[i]@ == k,
            forall|i: int, j: int| 0 <= i < names@.len() && 0 <= j < names@.len() && i != j
                ==> #[trigger] names@[i]@ != #[trigger] names@[j]@,
    {
        let n = self.connections.len();
        let mut names: Vec<String> = Vec::new();
        let ghost mut positions: Seq<int> = Seq::empty();
        let mut i: usize = 0;
        while i < n
            invariant
                n == self.connections.count(),
                i <= n,
                positions.len() == names@.len(),
                forall|a: int| 0 <= a < names@.len() ==> {
                    &&& 0 <= #[trigger] positions[a] < i
                    &&& names@[a]@ == self.connections.key_at(positions[a])
                },
                forall|a: int, b: int| 0 <= a < b < names@.len() ==> #[trigger] positions[a] < #[trigger] positions[b],
                forall|a: int| 0 <= a < names@.len() ==> {
                    &&& self.connections@.contains_key(#[trigger] names@[a]@)
                    &&& self.connections@[names@[a]@].role == Role::Client
                },
                forall|j: int| 0 <= j < i && self.connections@[#[trigger] self.connections.key_at(j)].role
                    == Role::Client ==> exists|a: int| 0 <= a < names@.len() && #[trigger] names@[a]@
                    == self.connections.key_at(j),
            decreases n - i,
        {
            let (k, c) = self.connections.entry(i);
            if c.role == Role::Client {
                let ghost before = names@;
                names.push(k.clone());
                proof {
                    positions = positions.push(i as int);
                    assert(names@[names@.len() - 1]@ == self.connections.key_at(i as int));
                    assert forall|j: int| 0 <= j < i + 1 && self.connections@[#[trigger] self.connections.key_at(j)].role
                        == Role::Client implies exists|a: int| 0 <= a < names@.len() && #[trigger] names@[a]@
                        == self.connections.key_at(j) by {
                        if j < i {
                            let a = choose|a: int| 0 <= a < before.len() && #[trigger] before[a]@
                                == self.connections.key_at(j);
                            assert(names@[a] == before[a]);
                        } else {
                            assert(names@[names@.len() - 1]@ == self.connections.key_at(j));
                        }
                    }
                }
            }
            i = i + 1;
        }
        proof {
            use_type_invariant(&self.connections);
            assert forall|k: Seq<char>| #[trigger]
                self.connections@.contains_key(k) && self.connections@[k].role == Role::Client
                    implies exists|i: int| 0 <= i < names@.len() && #[trigger] names@[i]@ == k by {
                self.connections.lemma_key_positioned(k);
                let j = choose|j: int| 0 <= j < self.connections.count() && #[trigger] self.connections.key_at(j) == k;
                assert(self.connections@[self.connections.key_at(j)].role == Role::Client);
            }
            assert forall|a: int, b: int| 0 <= a < names@.len() && 0 <= b < names@.len() && a != b
                implies #[trigger] names@[a]@ != #[trigger] names@[b]@ by {
                assert(positions[a] != positions[b]);
                assert(self.connections.entries@[positions[a]].0@ != self.connections.entries@[positions[b]].0@);
            }
        }
        names
    }

    /// How long a client waits before connecting again to the connection named `id`.
    pub fn retry_delay(&self, id: &String) -> (d: Option<Duration>)
        ensures
            d == retry_delay_of(*self, id@),
    {
        match self.connections.get(id) {
            Some(c) => if c.role == Role::Client {
                c.connect_retry_timer
            } else {
                None
            },
            None => None,
        }
    }
}

} // verus!
