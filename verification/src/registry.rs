use vstd::prelude::*;
use crate::address::Address;

verus! {

/// Why a send could not be attempted.
#[derive(Clone, Copy, Debug, PartialEq, Eq, Structural)]
pub enum NetworkError {
    /// No connection is registered for the destination.
    NotConnected,
}

/// One write that the host is asked to attempt: these bytes, to the
/// connection registered for this address.
#[derive(Clone, Debug, PartialEq, Eq)]
pub struct Outbound {
    pub dest: Address,
    pub payload: Vec<u8>,
}

impl View for Outbound {
    type V = (Address, Seq<u8>);

    open spec fn view(&self) -> (Address, Seq<u8>) {
        (self.dest, self.payload@)
    }
}

/// Whether some entry is keyed by the address.
pub open spec fn has_peer<C>(entries: Seq<(Address, C)>, addr: Address) -> bool {
    exists|i: int| 0 <= i < entries.len() && (#[trigger] entries[i]).0 == addr
}

/// No address keys two entries.
pub open spec fn distinct_peers<C>(entries: Seq<(Address, C)>) -> bool {
    forall|i: int, j: int|
        0 <= i < j < entries.len() ==> (#[trigger] entries[i]).0 != (#[trigger] entries[j]).0
}

/// The place of the entry keyed by the address; meaningful where
/// `has_peer` holds.
pub open spec fn peer_index<C>(entries: Seq<(Address, C)>, addr: Address) -> int {
    choose|i: int| 0 <= i < entries.len() && (#[trigger] entries[i]).0 == addr
}

/// The entries after registering a connection: it takes the place of the one
/// the address had, or comes last where the address had none.
pub open spec fn with_peer<C>(entries: Seq<(Address, C)>, addr: Address, conn: C) -> Seq<(Address, C)> {
    if has_peer(entries, addr) {
        entries.update(peer_index(entries, addr), (addr, conn))
    } else {
        entries.push((addr, conn))
    }
}

/// The entries after deregistering an address: the others, in their order.
pub open spec fn without_peer<C>(entries: Seq<(Address, C)>, addr: Address) -> Seq<(Address, C)> {
    if has_peer(entries, addr) {
        entries.remove(peer_index(entries, addr))
    } else {
        entries
    }
}

/// The keys of the entries, in their order.
pub open spec fn peers_of<C>(entries: Seq<(Address, C)>) -> Seq<Address> {
    entries.map_values(|e: (Address, C)| e.0)
}

/// The writes that deliver one message to every entry, in their order.
pub open spec fn broadcast_of<C>(entries: Seq<(Address, C)>, msg: Seq<u8>) -> Seq<(Address, Seq<u8>)> {
    entries.map_values(|e: (Address, C)| (e.0, msg))
}

/// The views of a run of writes, in the same order.
pub open spec fn outbound_views(plan: Seq<Outbound>) -> Seq<(Address, Seq<u8>)> {
    plan.map_values(|o: Outbound| o@)
}

/// In a sequence without repeated keys, an entry's key is found at the
/// entry's own place.
pub proof fn lemma_peer_index_unique<C>(entries: Seq<(Address, C)>, i: int)
    requires
        distinct_peers(entries),
        0 <= i < entries.len(),
    ensures
        has_peer(entries, entries[i].0),
        peer_index(entries, entries[i].0) == i,
{
    let addr = entries[i].0;
    assert(has_peer(entries, addr));
    let k = peer_index(entries, addr);
    assert(0 <= k < entries.len() && entries[k].0 == addr);
    if k < i {
        assert(entries[k].0 != entries[i].0);
    } else if i < k {
        assert(entries[i].0 != entries[k].0);
    }
}

/// Registering keeps the keys distinct, makes the address a key, and changes
/// the number of entries by one exactly when the address was new.
pub proof fn lemma_with_peer<C>(entries: Seq<(Address, C)>, addr: Address, conn: C)
    requires
        distinct_peers(entries),
    ensures
        distinct_peers(with_peer(entries, addr, conn)),
        has_peer(with_peer(entries, addr, conn), addr),
        forall|other: Address|
            other != addr ==> (has_peer(with_peer(entries, addr, conn), other) <==> has_peer(entries, other)),
        with_peer(entries, addr, conn).len() == entries.len() + (if has_peer(entries, addr) { 0int } else { 1int }),
{
    let after = with_peer(entries, addr, conn);
    if has_peer(entries, addr) {
        let k = peer_index(entries, addr);
        assert(after[k].0 == addr);
        assert forall|i: int, j: int| 0 <= i < j < after.len() implies (#[trigger] after[i]).0 != (#[trigger] after[j]).0 by {
            assert(after[i].0 == entries[i].0);
            assert(after[j].0 == entries[j].0);
        }
        assert forall|other: Address| other != addr implies (has_peer(after, other) <==> has_peer(entries, other)) by {
            if has_peer(after, other) {
                let i = peer_index(after, other);
                assert(entries[i].0 == other);
            }
            if has_peer(entries, other) {
                let i = peer_index(entries, other);
                assert(after[i].0 == other);
            }
        }
    } else {
        let n = entries.len() as int;
        assert(after[n].0 == addr);
        assert forall|i: int, j: int| 0 <= i < j < after.len() implies (#[trigger] after[i]).0 != (#[trigger] after[j]).0 by {
            assert(after[i] == entries[i]);
            if j < n {
                assert(after[j] == entries[j]);
            }
        }
        assert forall|other: Address| other != addr implies (has_peer(after, other) <==> has_peer(entries, other)) by {
            if has_peer(after, other) {
                let i = peer_index(after, other);
                assert(i < n);
                assert(entries[i].0 == other);
            }
            if has_peer(entries, other) {
                let i = peer_index(entries, other);
                assert(after[i].0 == other);
            }
        }
    }
}

/// Deregistering keeps the keys distinct, leaves the address without an
/// entry, and changes the number of entries by one exactly when it had one.
pub proof fn lemma_without_peer<C>(entries: Seq<(Address, C)>, addr: Address)
    requires
        distinct_peers(entries),
    ensures
        distinct_peers(without_peer(entries, addr)),
        !has_peer(without_peer(entries, addr), addr),
        forall|other: Address|
            other != addr ==> (has_peer(without_peer(entries, addr), other) <==> has_peer(entries, other)),
        without_peer(entries, addr).len() == entries.len() - (if has_peer(entries, addr) { 1int } else { 0int }),
{
    let after = without_peer(entries, addr);
    if has_peer(entries, addr) {
        let k = peer_index(entries, addr);
        assert forall|i: int| 0 <= i < after.len() implies (#[trigger] after[i]) == entries[if i < k { i } else { i + 1 }] by {}
        assert forall|i: int, j: int| 0 <= i < j < after.len() implies (#[trigger] after[i]).0 != (#[trigger] after[j]).0 by {
            let a = if i < k { i } else { i + 1 };
            let b = if j < k { j } else { j + 1 };
            assert(after[i] == entries[a]);
            assert(after[j] == entries[b]);
        }
        if has_peer(after, addr) {
            let i = peer_index(after, addr);
            let a = if i < k { i } else { i + 1 };
            assert(after[i] == entries[a]);
            if a < k {
                assert(entries[a].0 != entries[k].0);
            } else {
                assert(entries[k].0 != entries[a].0);
            }
        }
        assert forall|other: Address| other != addr implies (has_peer(after, other) <==> has_peer(entries, other)) by {
            if has_peer(after, other) {
                let i = peer_index(after, other);
                let a = if i < k { i } else { i + 1 };
                assert(after[i] == entries[a]);
                assert(entries[a].0 == other);
            }
            if has_peer(entries, other) {
                let i = peer_index(entries, other);
                let a = if i < k { i } else { i - 1 };
                assert(after[a] == entries[i]);
                assert(after[a].0 == other);
            }
        }
    }
}

/// The listening socket, if one is installed, and the established
/// connections, one per remote address, in the order in which their
/// addresses were first registered. `L` is the host's listening socket and
/// `C` its transport handle; the registry owns both and never looks inside.
pub struct NetworkResource<L, C> {
    listener: Option<L>,
    streams: Vec<(Address, C)>,
}

impl<L, C> View for NetworkResource<L, C> {
    type V = Seq<(Address, C)>;

    closed spec fn view(&self) -> Seq<(Address, C)> {
        self.streams@
    }
}

impl<L, C> NetworkResource<L, C> {
    /// The installed listening socket.
    pub closed spec fn listening(&self) -> Option<L> {
        self.listener
    }

    /// At most one connection per remote address.
    pub open spec fn wf(&self) -> bool {
        distinct_peers(self@)
    }

    /// A registry that listens on the socket and has no connection yet.
    pub fn new(listener: L) -> (res: Self)
        ensures
            res.wf(),
            res.listening() == Some(listener),
            res@.len() == 0,
    {
        NetworkResource { listener: Some(listener), streams: Vec::new() }
    }

    /// Installs the listening socket, in place of the one installed before.
    pub fn set_listener(&mut self, listener: L)
        ensures
            final(self).listening() == Some(listener),
            final(self)@ == old(self)@,
    {
        self.listener = Some(listener);
    }

    /// The installed listening socket, for the host to accept on.
    pub fn listener(&self) -> (l: Option<&L>)
        ensures
            l.is_some() == self.listening().is_some(),
            l.is_some() ==> *l.unwrap() == self.listening().unwrap(),
    {
        self.listener.as_ref()
    }

    /// How many connections are registered.
    pub fn len(&self) -> (n: usize)
        ensures
            n == self@.len(),
    {
        self.streams.len()
    }

    /// The place of the connection registered for the address.
    fn find(&self, addr: &Address) -> (at: Option<usize>)
        requires
            self.wf(),
        ensures
            at.is_some() == has_peer(self@, *addr),
            at.is_some() ==> at.unwrap() == peer_index(self@, *addr) && at.unwrap() < self@.len(),
    {
        let mut i: usize = 0;
        while i < self.streams.len()
            invariant
                i <= self.streams@.len(),
                self.wf(),
                forall|k: int| 0 <= k < i ==> (#[trigger] self.streams@[k]).0 != *addr,
            decreases self.streams@.len() - i,
        {
            if self.streams[i].0 == *addr {
                proof {
                    lemma_peer_index_unique(self@, i as int);
                }
                return Some(i);
            }
            i += 1;
        }
        None
    }

    /// Whether a connection is registered for the address.
    pub fn is_connected(&self, addr: &Address) -> (b: bool)
        requires
            self.wf(),
        ensures
            b == has_peer(self@, *addr),
    {
        self.find(addr).is_some()
    }

    /// The connection registered for the address, for the host to read from
    /// or write to.
    pub fn connection(&self, addr: &Address) -> (conn: Option<&C>)
        requires
            self.wf(),
        ensures
            conn.is_some() == has_peer(self@, *addr),
            conn.is_some() ==> *conn.unwrap() == self@[peer_index(self@, *addr)].1,
    {
        match self.find(addr) {
            Some(i) => Some(&self.streams[i].1),
            None => None,
        }
    }

    /// Registers the connection for the address. A connection that the
    /// address already had is replaced and dropped.
    pub fn insert(&mut self, addr: Address, conn: C)
        requires
            old(self).wf(),
        ensures
            final(self).wf(),
            final(self)@ == with_peer(old(self)@, addr, conn),
            final(self).listening() == old(self).listening(),
    {
        proof {
            lemma_with_peer(self@, addr, conn);
        }
        match self.find(&addr) {
            Some(i) => {
                self.streams.set(i, (addr, conn));
            },
            None => {
                self.streams.push((addr, conn));
            },
        }
    }

    /// Deregisters the address and hands back the connection it had, if any.
    pub fn remove(&mut self, addr: &Address) -> (conn: Option<C>)
        requires
            old(self).wf(),
        ensures
            final(self).wf(),
            final(self)@ == without_peer(old(self)@, *addr),
            final(self).listening() == old(self).listening(),
            conn.is_some() == has_peer(old(self)@, *addr),
            conn.is_some() ==> conn.unwrap() == old(self)@[peer_index(old(self)@, *addr)].1,
    {
        proof {
            lemma_without_peer(self@, *addr);
        }
        match self.find(addr) {
            Some(i) => {
                let entry = self.streams.remove(i);
                Some(entry.1)
            },
            None => None,
        }
    }

    /// The registered addresses, in the registry's order: the connections
    /// that one polling pass visits.
    pub fn addresses(&self) -> (addrs: Vec<Address>)
        ensures
            addrs@ == peers_of(self@),
    {
        let mut addrs: Vec<Address> = Vec::new();
        let mut i: usize = 0;
        while i < self.streams.len()
            invariant
                i <= self.streams@.len(),
                addrs@ == peers_of(self@.take(i as int)),
            decreases self.streams@.len() - i,
        {
            addrs.push(self.streams[i].0);
            assert(self@.take(i + 1) == self@.take(i as int).push(self@[i as int]));
            assert(peers_of(self@.take(i + 1)) =~= peers_of(self@.take(i as int)).push(self@[i as int].0));
            i += 1;
        }
        assert(self@.take(i as int) == self@);
        addrs
    }

    /// Decides a send: the connection registered for the destination,
    /// together with the bytes to write to it, or `NotConnected` where none
    /// is registered. The host makes the write, and learns from it how many
    /// of the bytes went out; nothing is kept back for a second attempt.
    pub fn send<'a>(&'a self, dest: &Address, msg: &'a [u8]) -> (target: Result<(&'a C, &'a [u8]), NetworkError>)
        requires
            self.wf(),
        ensures
            match target {
                Ok((conn, bytes)) => {
                    &&& has_peer(self@, *dest)
                    &&& *conn == self@[peer_index(self@, *dest)].1
                    &&& bytes@ == msg@
                },
                Err(e) => !has_peer(self@, *dest) && e == NetworkError::NotConnected,
            },
    {
        match self.find(dest) {
            Some(i) => Ok((&self.streams[i].1, msg)),
            None => Err(NetworkError::NotConnected),
        }
    }

    /// The writes that deliver `msg` to every registered connection: one per
    /// connection, in the registry's order. The plan is fixed before any
    /// write is made, so what happens to one write changes nothing for the
    /// others.
    pub fn send_all(&self, msg: &[u8]) -> (plan: Vec<Outbound>)
        ensures
            outbound_views(plan@) == broadcast_of(self@, msg@),
    {
        let mut plan: Vec<Outbound> = Vec::new();
        let mut i: usize = 0;
        while i < self.streams.len()
            invariant
                i <= self.streams@.len(),
                outbound_views(plan@) == broadcast_of(self@.take(i as int), msg@),
            decreases self.streams@.len() - i,
        {
            let out = Outbound { dest: self.streams[i].0, payload: vstd::slice::slice_to_vec(msg) };
            let ghost before = plan@;
            plan.push(out);
            assert(self@.take(i + 1) == self@.take(i as int).push(self@[i as int]));
            assert(outbound_views(plan@) =~= outbound_views(before).push(out@));
            assert(broadcast_of(self@.take(i + 1), msg@) =~= broadcast_of(self@.take(i as int), msg@).push((self@[i as int].0, msg@)));
            i += 1;
        }
        assert(self@.take(i as int) == self@);
        plan
    }
}

impl<L, C> Default for NetworkResource<L, C> {
    /// A registry with neither listening socket nor connection.
    fn default() -> (res: Self)
        ensures
            res.wf(),
            res.listening().is_none(),
            res@.len() == 0,
    {
        NetworkResource { listener: None, streams: Vec::new() }
    }
}

} // verus!
