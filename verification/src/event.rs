use vstd::prelude::*;
use crate::address::Address;

verus! {

/// Something that happened to the network layer during a tick.
#[derive(Clone, Debug, PartialEq, Eq)]
pub enum NetworkEvent {
    /// The bytes of one read from the peer at the address.
    Message(Address, Vec<u8>),
    /// A connection to the address was just registered.
    Connect(Address),
    /// The peer at the address reset its connection.
    Disconnect(Address),
}

/// What a `NetworkEvent` says, with the payload as a sequence of bytes.
pub enum EventView {
    Message(Address, Seq<u8>),
    Connect(Address),
    Disconnect(Address),
}

impl View for NetworkEvent {
    type V = EventView;

    open spec fn view(&self) -> EventView {
        match *self {
            NetworkEvent::Message(addr, payload) => EventView::Message(addr, payload@),
            NetworkEvent::Connect(addr) => EventView::Connect(addr),
            NetworkEvent::Disconnect(addr) => EventView::Disconnect(addr),
        }
    }
}

/// The views of a run of events, in the same order.
pub open spec fn views_of(events: Seq<NetworkEvent>) -> Seq<EventView> {
    events.map_values(|e: NetworkEvent| e@)
}

} // verus!
