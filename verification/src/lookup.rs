//! The server's table of peers: which address has which id.

use crate::table::{enumerates, lemma_prefix_grows, lemma_push_holds};
use std::collections::HashMap;
use vstd::prelude::*;

verus! {

broadcast use vstd::std_specs::hash::group_hash_axioms;

/// The address of a peer on the datagram transport, field by field.
#[allow(inconsistent_fields)]
#[derive(Debug, Clone, Copy, PartialEq, Eq, Hash, Structural)]
pub enum SocketAddress {
    V4 { ip: u32, port: u16 },
    V6 { ip: u128, port: u16, flowinfo: u32, scope_id: u32 },
}

/// One peer of the table: its id and its address.
pub type Binding = (usize, SocketAddress);

/// That no two bindings share an id or an address: the table is a one-to-one
/// relation between ids and addresses.
pub open spec fn one_to_one(bindings: Set<Binding>) -> bool {
    forall|a: Binding, b: Binding|
        bindings.contains(a) && bindings.contains(b) && (a.0 == b.0 || a.1 == b.1) ==> a == b
}

/// The mapping from id to address that a set of bindings stands for.
pub open spec fn by_id(bindings: Set<Binding>) -> Map<usize, SocketAddress> {
    Map::new(
        |id: usize| exists|socket: SocketAddress| bindings.contains((id, socket)),
        |id: usize| choose|socket: SocketAddress| bindings.contains((id, socket)),
    )
}

/// The mapping from address to id that a set of bindings stands for.
pub open spec fn by_socket(bindings: Set<Binding>) -> Map<SocketAddress, usize> {
    Map::new(
        |socket: SocketAddress| exists|id: usize| bindings.contains((id, socket)),
        |socket: SocketAddress| choose|id: usize| bindings.contains((id, socket)),
    )
}

/// The ids of a set of bindings.
pub open spec fn bound_ids(bindings: Set<Binding>) -> Set<usize> {
    by_id(bindings).dom()
}

/// The addresses of a set of bindings.
pub open spec fn bound_sockets(bindings: Set<Binding>) -> Set<SocketAddress> {
    by_socket(bindings).dom()
}

/// The bindings after `id` has been bound to `socket`: what either of them
/// was bound to before is unbound.
pub open spec fn bind(bindings: Set<Binding>, id: usize, socket: SocketAddress) -> Set<Binding> {
    bindings.filter(|b: Binding| b.0 != id && b.1 != socket).insert((id, socket))
}

/// The bindings after the peer at `socket` has been removed.
pub open spec fn unbind(bindings: Set<Binding>, socket: SocketAddress) -> Set<Binding> {
    bindings.filter(|b: Binding| b.1 != socket)
}

/// The two mappings of a one-to-one table are mutual inverses: an id maps to
/// an address exactly when the address maps to the id, and exactly then the
/// two are bound.
pub proof fn lemma_mappings_are_mutual_inverses(
    bindings: Set<Binding>,
    id: usize,
    socket: SocketAddress,
)
    requires
        one_to_one(bindings),
    ensures
        bindings.contains((id, socket)) <==> (by_id(bindings).contains_key(id) && by_id(
            bindings,
        )[id] == socket),
        bindings.contains((id, socket)) <==> (by_socket(bindings).contains_key(socket)
            && by_socket(bindings)[socket] == id),
{
    if by_id(bindings).contains_key(id) {
        let found = choose|found: SocketAddress| bindings.contains((id, found));
        assert(bindings.contains((id, found)));
        if bindings.contains((id, socket)) {
            assert((id, found) == (id, socket));
        }
    }
    if by_socket(bindings).contains_key(socket) {
        let found = choose|found: usize| bindings.contains((found, socket));
        assert(bindings.contains((found, socket)));
        if bindings.contains((id, socket)) {
            assert((found, socket) == (id, socket));
        }
    }
}

/// Binding and unbinding keep a table one-to-one.
pub proof fn lemma_changes_keep_one_to_one(
    bindings: Set<Binding>,
    id: usize,
    socket: SocketAddress,
)
    requires
        one_to_one(bindings),
    ensures
        one_to_one(bind(bindings, id, socket)),
        one_to_one(unbind(bindings, socket)),
        one_to_one(Set::<Binding>::empty()),
{
}

/// The table of the peers of a server. From id to address it is a hash
/// map. From address to id it is a list that is searched: an address is not
/// a number, and of a hash map keyed by anything else nothing can be proved.
pub struct ClientLookup {
    entries: Vec<Binding>,
    reverse_lookup: HashMap<usize, SocketAddress>,
}

impl ClientLookup {
    /// The bindings of the table.
    pub closed spec fn bindings(&self) -> Set<Binding> {
        self.entries@.to_set()
    }

    /// The table holds each binding once, is one-to-one, and holds the same
    /// bindings in both directions.
    pub closed spec fn wf(&self) -> bool {
        &&& self.entries@.no_duplicates()
        &&& one_to_one(self.entries@.to_set())
        &&& forall|id: usize, socket: SocketAddress|
            (self.reverse_lookup@.contains_key(id) && self.reverse_lookup@[id] == socket)
                <==> #[trigger] self.entries@.contains((id, socket))
    }

    /// A well-formed table is one-to-one.
    pub proof fn lemma_wf_is_one_to_one(&self)
        requires
            self.wf(),
        ensures
            one_to_one(self.bindings()),
            self.bindings().finite(),
    {
    }

    /// An empty table.
    pub fn new() -> (table: Self)
        ensures
            table.wf(),
            table.bindings() == Set::<Binding>::empty(),
    {
        let table = ClientLookup { entries: Vec::new(), reverse_lookup: HashMap::new() };
        assert(table.entries@.to_set() =~= Set::<Binding>::empty());
        table
    }

    /// The entries but those that bind `id` or `socket`.
    fn without(&self, id: Option<usize>, socket: SocketAddress) -> (kept: Vec<Binding>)
        requires
            self.wf(),
        ensures
            kept@.no_duplicates(),
            kept@.to_set() == self.bindings().filter(
                |b: Binding| (id matches Some(i) ==> b.0 != i) && b.1 != socket,
            ),
    {
        let ghost keep = |b: Binding| (id matches Some(i) ==> b.0 != i) && b.1 != socket;
        let mut kept: Vec<Binding> = Vec::new();
        let mut next: usize = 0;
        while next < self.entries.len()
            invariant
                next <= self.entries.len(),
                self.entries@.no_duplicates(),
                keep == |b: Binding| (id matches Some(i) ==> b.0 != i) && b.1 != socket,
                kept@.no_duplicates(),
                forall|b: Binding|
                    kept@.contains(b) <==> (self.entries@.take(next as int).contains(b) && keep(
                        b,
                    )),
            decreases self.entries.len() - next,
        {
            let entry = self.entries[next];
            proof {
                lemma_prefix_grows(self.entries@, next as int);
                lemma_push_holds(kept@, entry);
            }
            let same_id = match id {
                Some(i) => entry.0 == i,
                None => false,
            };
            if !same_id && !(entry.1 == socket) {
                kept.push(entry);
            }
            next = next + 1;
        }
        assert(self.entries@.take(self.entries.len() as int) =~= self.entries@);
        kept
    }

    /// Binds `id` to `socket`. What either of them was bound to before is
    /// unbound, so that the table stays one-to-one.
    pub fn register(&mut self, id: usize, socket: SocketAddress)
        requires
            old(self).wf(),
        ensures
            final(self).wf(),
            final(self).bindings() == bind(old(self).bindings(), id, socket),
    {
        let ghost before = self.entries@;
        let ghost by_id = self.reverse_lookup@;
        let displaced = self.lookup_socket(&socket);
        let mut kept = self.without(Some(id), socket);
        proof {
            lemma_push_holds(kept@, (id, socket));
            lemma_changes_keep_one_to_one(self.bindings(), id, socket);
            assert(!kept@.contains((id, socket))) by {
                if kept@.contains((id, socket)) {
                    assert(kept@.to_set().contains((id, socket)));
                }
            }
            assert forall|b: Binding|
                kept@.push((id, socket)).to_set().contains(b) <==> bind(
                    self.bindings(),
                    id,
                    socket,
                ).contains(b) by {
                assert(kept@.to_set().contains(b) <==> (self.bindings().contains(b) && b.0 != id
                    && b.1 != socket));
            }
            assert(kept@.push((id, socket)).to_set() =~= bind(self.bindings(), id, socket));
        }
        kept.push((id, socket));
        self.entries = kept;
        match displaced {
            Some(other) => {
                self.reverse_lookup.remove(&other);
            },
            None => {},
        }
        self.reverse_lookup.insert(id, socket);
        proof {
            assert forall|i: usize, s: SocketAddress|
                (self.reverse_lookup@.contains_key(i) && self.reverse_lookup@[i] == s)
                    <==> #[trigger] self.entries@.contains((i, s)) by {
                assert(self.entries@.contains((i, s)) <==> bind(
                    before.to_set(),
                    id,
                    socket,
                ).contains((i, s)));
                assert(before.contains((i, s)) <==> (by_id.contains_key(i) && by_id[i] == s));
                if i != id {
                    match displaced {
                        Some(other) => {
                            assert(before.contains((other, socket)));
                            assert(one_to_one(before.to_set()));
                            assert(before.to_set().contains((other, socket)));
                            assert(before.contains((i, s)) ==> before.to_set().contains((i, s)));
                            if before.contains((i, s)) && s == socket {
                                assert((i, s) == (other, socket));
                            }
                            if i == other && before.contains((i, s)) {
                                assert((i, s) == (other, socket));
                            }
                        },
                        None => {
                            if before.contains((i, s)) && s == socket {
                                assert(before.to_set().contains((i, socket)));
                            }
                        },
                    }
                }
            }
        }
    }

    /// The address of peer `id`, if it is in the table.
    pub fn lookup(&self, id: usize) -> (found: Option<SocketAddress>)
        requires
            self.wf(),
        ensures
            match found {
                Some(socket) => self.bindings().contains((id, socket)),
                None => !bound_ids(self.bindings()).contains(id),
            },
    {
        match self.reverse_lookup.get(&id) {
            Some(socket) => {
                assert(self.entries@.contains((id, *socket)));
                Some(*socket)
            },
            None => {
                assert forall|socket: SocketAddress| !self.bindings().contains((id, socket)) by {
                    if self.entries@.contains((id, socket)) {
                        assert(self.reverse_lookup@.contains_key(id));
                    }
                }
                None
            },
        }
    }

    /// The id of the peer at `socket`, if it is in the table.
    pub fn lookup_socket(&self, socket: &SocketAddress) -> (found: Option<usize>)
        ensures
            match found {
                Some(id) => self.bindings().contains((id, *socket)),
                None => !bound_sockets(self.bindings()).contains(*socket),
            },
    {
        let mut next: usize = 0;
        while next < self.entries.len()
            invariant
                next <= self.entries.len(),
                forall|i: int| 0 <= i < next ==> self.entries@[i].1 != *socket,
            decreases self.entries.len() - next,
        {
            if self.entries[next].1 == *socket {
                return Some(self.entries[next].0);
            }
            next = next + 1;
        }
        assert forall|id: usize| !self.bindings().contains((id, *socket)) by {
            if self.entries@.contains((id, *socket)) {
                let i = choose|i: int|
                    0 <= i < self.entries@.len() && self.entries@[i] == (id, *socket);
                assert(self.entries@[i].1 == *socket);
            }
        }
        None
    }

    /// Removes the peer at `socket` from both directions of the table.
    pub fn remove(&mut self, socket: &SocketAddress)
        requires
            old(self).wf(),
        ensures
            final(self).wf(),
            final(self).bindings() == unbind(old(self).bindings(), *socket),
    {
        let ghost before = self.entries@;
        let ghost by_id = self.reverse_lookup@;
        let displaced = self.lookup_socket(socket);
        let kept = self.without(None, *socket);
        proof {
            lemma_changes_keep_one_to_one(self.bindings(), 0, *socket);
            assert forall|b: Binding|
                kept@.to_set().contains(b) <==> unbind(self.bindings(), *socket).contains(b) by {
                assert(kept@.to_set().contains(b) <==> (self.bindings().contains(b) && b.1
                    != *socket));
            }
            assert(kept@.to_set() =~= unbind(self.bindings(), *socket));
        }
        self.entries = kept;
        match displaced {
            Some(other) => {
                self.reverse_lookup.remove(&other);
            },
            None => {},
        }
        proof {
            assert forall|i: usize, s: SocketAddress|
                (self.reverse_lookup@.contains_key(i) && self.reverse_lookup@[i] == s)
                    <==> #[trigger] self.entries@.contains((i, s)) by {
                assert(self.entries@.contains((i, s)) <==> unbind(
                    before.to_set(),
                    *socket,
                ).contains((i, s)));
                assert(before.contains((i, s)) <==> (by_id.contains_key(i) && by_id[i] == s));
                match displaced {
                    Some(other) => {
                        assert(before.contains((other, *socket)));
                        assert(one_to_one(before.to_set()));
                        assert(before.to_set().contains((other, *socket)));
                        assert(before.contains((i, s)) ==> before.to_set().contains((i, s)));
                        if before.contains((i, s)) && s == *socket {
                            assert((i, s) == (other, *socket));
                        }
                        if i == other && before.contains((i, s)) {
                            assert((i, s) == (other, *socket));
                        }
                    },
                    None => {
                        if before.contains((i, s)) && s == *socket {
                            assert(before.to_set().contains((i, *socket)));
                        }
                    },
                }
            }
        }
    }

    /// Whether a peer at `socket` is in the table.
    pub fn contains(&self, socket: &SocketAddress) -> (known: bool)
        ensures
            known == bound_sockets(self.bindings()).contains(*socket),
    {
        self.lookup_socket(socket).is_some()
    }

    /// The addresses of the table, each of them once.
    pub fn clients(&self) -> (sockets: Vec<SocketAddress>)
        requires
            self.wf(),
        ensures
            enumerates(sockets@, bound_sockets(self.bindings())),
            sockets@ == self.entries_view().map_values(|b: Binding| b.1),
    {
        let mut sockets: Vec<SocketAddress> = Vec::new();
        let mut next: usize = 0;
        while next < self.entries.len()
            invariant
                next <= self.entries.len(),
                sockets@ == self.entries@.take(next as int).map_values(|b: Binding| b.1),
            decreases self.entries.len() - next,
        {
            sockets.push(self.entries[next].1);
            proof {
                lemma_prefix_grows(self.entries@, next as int);
                assert(sockets@ =~= self.entries@.take(next as int + 1).map_values(
                    |b: Binding| b.1,
                ));
            }
            next = next + 1;
        }
        proof {
            assert forall|i: int, j: int|
                0 <= i < sockets@.len() && 0 <= j < sockets@.len() && i != j implies sockets@[i]
                != sockets@[j] by {
                assert(self.entries@.to_set().contains(self.entries@[i]));
                assert(self.entries@.to_set().contains(self.entries@[j]));
            }
            assert forall|socket: SocketAddress|
                bound_sockets(self.bindings()).contains(socket) <==> sockets@.contains(socket) by {
                if bound_sockets(self.bindings()).contains(socket) {
                    let id = choose|id: usize| self.bindings().contains((id, socket));
                    let i = choose|i: int|
                        0 <= i < self.entries@.len() && self.entries@[i] == (id, socket);
                    assert(sockets@[i] == socket);
                }
                if sockets@.contains(socket) {
                    let i = choose|i: int| 0 <= i < sockets@.len() && sockets@[i] == socket;
                    assert(self.entries@.contains(self.entries@[i]));
                    assert(self.bindings().contains((self.entries@[i].0, socket)));
                }
            }
        }
        sockets
    }

    /// The bindings in the order in which the table lists them.
    pub closed spec fn entries_view(&self) -> Seq<Binding> {
        self.entries@
    }

    /// The ids of the table, each of them once.
    pub fn ids(&self) -> (ids: Vec<usize>)
        requires
            self.wf(),
        ensures
            enumerates(ids@, bound_ids(self.bindings())),
            ids@ == self.entries_view().map_values(|b: Binding| b.0),
    {
        let mut ids: Vec<usize> = Vec::new();
        let mut next: usize = 0;
        while next < self.entries.len()
            invariant
                next <= self.entries.len(),
                ids@ == self.entries@.take(next as int).map_values(|b: Binding| b.0),
            decreases self.entries.len() - next,
        {
            ids.push(self.entries[next].0);
            proof {
                lemma_prefix_grows(self.entries@, next as int);
            }
            next = next + 1;
        }
        proof {
            assert forall|i: int, j: int|
                0 <= i < ids@.len() && 0 <= j < ids@.len() && i != j implies ids@[i] != ids@[j] by {
                assert(self.entries@.to_set().contains(self.entries@[i]));
                assert(self.entries@.to_set().contains(self.entries@[j]));
            }
            assert forall|id: usize| bound_ids(self.bindings()).contains(id) <==> ids@.contains(
                id,
            ) by {
                if bound_ids(self.bindings()).contains(id) {
                    let socket = choose|socket: SocketAddress|
                        self.bindings().contains((id, socket));
                    let i = choose|i: int|
                        0 <= i < self.entries@.len() && self.entries@[i] == (id, socket);
                    assert(ids@[i] == id);
                }
                if ids@.contains(id) {
                    let i = choose|i: int| 0 <= i < ids@.len() && ids@[i] == id;
                    assert(self.entries@.contains(self.entries@[i]));
                    assert(self.bindings().contains((id, self.entries@[i].1)));
                }
            }
        }
        ids
    }
}

} // verus!
