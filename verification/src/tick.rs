use vstd::prelude::*;
use crate::acceptor::{entries_after_accept, AcceptOutcome};
use crate::address::Address;
use crate::event::EventView;
use crate::handler::{entries_after_event, reaction_matches, Reaction};
use crate::registry::{
    broadcast_of, distinct_peers, has_peer, lemma_with_peer, lemma_without_peer,
};

verus! {

/// The entries after the acceptor has taken in a run of accepts, in order.
pub open spec fn entries_after_accepts<C>(entries: Seq<(Address, C)>, outcomes: Seq<AcceptOutcome<C>>) -> Seq<(Address, C)>
    decreases outcomes.len(),
{
    if outcomes.len() == 0 {
        entries
    } else {
        entries_after_accept(entries_after_accepts(entries, outcomes.drop_last()), outcomes.last())
    }
}

/// The entries after the handler has reacted to a run of events, in order.
pub open spec fn entries_after_events<C>(entries: Seq<(Address, C)>, events: Seq<EventView>) -> Seq<(Address, C)>
    decreases events.len(),
{
    if events.len() == 0 {
        entries
    } else {
        entries_after_event(entries_after_events(entries, events.drop_last()), events.last())
    }
}

/// How many of the accepts brought a connection.
pub open spec fn accepted_count<C>(outcomes: Seq<AcceptOutcome<C>>) -> nat
    decreases outcomes.len(),
{
    if outcomes.len() == 0 {
        0
    } else {
        accepted_count(outcomes.drop_last()) + (if outcomes.last() is Accepted { 1nat } else { 0nat })
    }
}

/// How many of the events are disconnects.
pub open spec fn reset_count(events: Seq<EventView>) -> nat
    decreases events.len(),
{
    if events.len() == 0 {
        0
    } else {
        reset_count(events.drop_last()) + (if events.last() is Disconnect { 1nat } else { 0nat })
    }
}

/// Each accepted connection comes from an address that has none at that
/// moment.
pub open spec fn accepts_are_new<C>(entries: Seq<(Address, C)>, outcomes: Seq<AcceptOutcome<C>>) -> bool {
    forall|i: int|
        0 <= i < outcomes.len() ==> match #[trigger] outcomes[i] {
            AcceptOutcome::Accepted(addr, _) => !has_peer(entries_after_accepts(entries, outcomes.take(i)), addr),
            _ => true,
        }
}

/// Each disconnect names an address that has a connection at that moment.
pub open spec fn resets_are_live<C>(entries: Seq<(Address, C)>, events: Seq<EventView>) -> bool {
    forall|i: int|
        0 <= i < events.len() ==> match #[trigger] events[i] {
            EventView::Disconnect(addr) => has_peer(entries_after_events(entries, events.take(i)), addr),
            _ => true,
        }
}

/// A run of accepts keeps the addresses distinct; where each comes from a
/// new address, the registry grows by one connection per accept.
pub proof fn lemma_accepts<C>(entries: Seq<(Address, C)>, outcomes: Seq<AcceptOutcome<C>>)
    requires
        distinct_peers(entries),
    ensures
        distinct_peers(entries_after_accepts(entries, outcomes)),
        accepts_are_new(entries, outcomes) ==> entries_after_accepts(entries, outcomes).len()
            == entries.len() + accepted_count(outcomes),
    decreases outcomes.len(),
{
    if outcomes.len() > 0 {
        let init = outcomes.drop_last();
        let mid = entries_after_accepts(entries, init);
        lemma_accepts(entries, init);
        match outcomes.last() {
            AcceptOutcome::Accepted(addr, conn) => {
                lemma_with_peer(mid, addr, conn);
            },
            _ => {},
        }
        if accepts_are_new(entries, outcomes) {
            assert forall|i: int| 0 <= i < init.len() implies match #[trigger] init[i] {
                AcceptOutcome::Accepted(addr, _) => !has_peer(entries_after_accepts(entries, init.take(i)), addr),
                _ => true,
            } by {
                assert(init[i] == outcomes[i]);
                assert(init.take(i) =~= outcomes.take(i));
            }
            assert(accepts_are_new(entries, init));
            let n = outcomes.len() - 1;
            assert(outcomes.take(n) =~= init);
            assert(outcomes[n] == outcomes.last());
        }
    }
}

/// A run of events keeps the addresses distinct; where each disconnect
/// names a connected address, the registry shrinks by one connection per
/// disconnect.
pub proof fn lemma_events<C>(entries: Seq<(Address, C)>, events: Seq<EventView>)
    requires
        distinct_peers(entries),
    ensures
        distinct_peers(entries_after_events(entries, events)),
        resets_are_live(entries, events) ==> entries_after_events(entries, events).len()
            == entries.len() - reset_count(events),
    decreases events.len(),
{
    if events.len() > 0 {
        let init = events.drop_last();
        let mid = entries_after_events(entries, init);
        lemma_events(entries, init);
        match events.last() {
            EventView::Disconnect(addr) => {
                lemma_without_peer(mid, addr);
            },
            _ => {},
        }
        if resets_are_live(entries, events) {
            assert forall|i: int| 0 <= i < init.len() implies match #[trigger] init[i] {
                EventView::Disconnect(addr) => has_peer(entries_after_events(entries, init.take(i)), addr),
                _ => true,
            } by {
                assert(init[i] == events[i]);
                assert(init.take(i) =~= events.take(i));
            }
            assert(resets_are_live(entries, init));
            let n = events.len() - 1;
            assert(events.take(n) =~= init);
            assert(events[n] == events.last());
        }
    }
}

/// Over one tick the number of connections changes by the accepts minus the
/// disconnects that the handler processed: the acceptor takes in the
/// accepts, the reader changes nothing in the registry, and the handler
/// reacts to the tick's events. This holds where every accepted address was
/// new when it was accepted and every disconnect named an address that was
/// connected when it was processed; an accept that replaces a connection, or
/// a second disconnect for one address, changes the count by nothing.
pub proof fn lemma_tick_connection_count<C>(
    entries: Seq<(Address, C)>,
    outcomes: Seq<AcceptOutcome<C>>,
    events: Seq<EventView>,
)
    requires
        distinct_peers(entries),
        accepts_are_new(entries, outcomes),
        resets_are_live(entries_after_accepts(entries, outcomes), events),
    ensures
        entries_after_events(entries_after_accepts(entries, outcomes), events).len() == entries.len()
            + accepted_count(outcomes) - reset_count(events),
{
    lemma_accepts(entries, outcomes);
    lemma_events(entries_after_accepts(entries, outcomes), events);
}

/// A second disconnect for the same address finds nothing to remove and
/// changes nothing: the handler answers it with `AlreadyGone`.
pub proof fn lemma_second_disconnect_is_noop<C>(entries: Seq<(Address, C)>, addr: Address)
    requires
        distinct_peers(entries),
    ensures
        ({
            let once = entries_after_event(entries, EventView::Disconnect(addr));
            &&& !has_peer(once, addr)
            &&& entries_after_event(once, EventView::Disconnect(addr)) == once
            &&& reaction_matches(once, EventView::Disconnect(addr), Reaction::AlreadyGone(addr))
        }),
{
    lemma_without_peer(entries, addr);
}

/// A message to all is one write to each registered connection, whatever
/// becomes of the writes to the others.
pub proof fn lemma_broadcast_reaches_every_peer<C>(entries: Seq<(Address, C)>, msg: Seq<u8>, i: int)
    requires
        0 <= i < entries.len(),
    ensures
        broadcast_of(entries, msg).len() == entries.len(),
        broadcast_of(entries, msg)[i] == (entries[i].0, msg),
{
}

} // verus!
