use vstd::prelude::*;
use crate::address::Address;
use crate::channel::{channel_log, channel_write, written};
use crate::event::{EventView, NetworkEvent};
use crate::payload::copy_payload;
use crate::registry::{peers_of, NetworkResource};
use shrev::EventChannel;

verus! {

/// The size of the buffer that one read fills: no read hands over more bytes
/// than this.
pub const READ_BUFFER_SIZE: usize = 128;

/// How one non-blocking read on a connection ended.
#[derive(Clone, Copy, Debug, PartialEq, Eq, Structural)]
pub enum ReadOutcome {
    /// The read put this many bytes at the start of the buffer.
    Read(usize),
    /// Nothing is available now.
    WouldBlock,
    /// The peer reset the connection.
    Reset,
    /// The read failed in another way.
    Failed,
}

/// One connection's read of a polling pass: whose it was, how it ended, and
/// the buffer it read into.
#[derive(Clone, Debug, PartialEq, Eq)]
pub struct Polled {
    pub addr: Address,
    pub outcome: ReadOutcome,
    pub buf: [u8; READ_BUFFER_SIZE],
}

/// The event that a read gives rise to: a message with the bytes read, where
/// there are any; a disconnect on a reset; nothing otherwise. A read of no
/// bytes means that nothing came, not that the stream ended.
pub open spec fn event_of_read(addr: Address, outcome: ReadOutcome, buf: Seq<u8>) -> Seq<EventView> {
    match outcome {
        ReadOutcome::Read(n) => if n > 0 {
            seq![EventView::Message(addr, buf.take(n as int))]
        } else {
            Seq::empty()
        },
        ReadOutcome::Reset => seq![EventView::Disconnect(addr)],
        _ => Seq::empty(),
    }
}

/// A read cannot have put more into the buffer than it holds.
pub open spec fn read_fits(outcome: ReadOutcome) -> bool {
    match outcome {
        ReadOutcome::Read(n) => n <= READ_BUFFER_SIZE,
        _ => true,
    }
}

/// The events of a whole polling pass, in the order of the reads.
pub open spec fn events_of_reads(reads: Seq<Polled>) -> Seq<EventView>
    decreases reads.len(),
{
    if reads.len() == 0 {
        Seq::empty()
    } else {
        events_of_reads(reads.drop_last()) + event_of_read(
            reads.last().addr,
            reads.last().outcome,
            reads.last().buf@,
        )
    }
}

/// A message carries at least one byte and at most a buffer's worth.
pub proof fn lemma_message_size(addr: Address, outcome: ReadOutcome, buf: Seq<u8>)
    requires
        read_fits(outcome),
        buf.len() == READ_BUFFER_SIZE,
    ensures
        event_of_read(addr, outcome, buf).len() <= 1,
        forall|i: int|
            0 <= i < event_of_read(addr, outcome, buf).len() ==> match #[trigger] event_of_read(addr, outcome, buf)[i] {
                EventView::Message(from, payload) => from == addr && 1 <= payload.len() <= READ_BUFFER_SIZE,
                EventView::Disconnect(from) => from == addr,
                EventView::Connect(_) => false,
            },
{
}

/// The component that turns what was read from the connections into events.
pub struct TcpNetworkListenerSystem;

impl TcpNetworkListenerSystem {
    /// The connections that this tick's pass reads from, one bounded read
    /// each: every registered one, in the registry's order.
    pub fn targets<L, C>(&self, resource: &NetworkResource<L, C>) -> (addrs: Vec<Address>)
        ensures
            addrs@ == peers_of(resource@),
    {
        resource.addresses()
    }

    /// The event for one read, if it gives rise to one.
    pub fn event_for(addr: Address, outcome: ReadOutcome, buf: &[u8; READ_BUFFER_SIZE]) -> (event: Option<NetworkEvent>)
        requires
            read_fits(outcome),
        ensures
            match event {
                Some(e) => event_of_read(addr, outcome, buf@) == seq![e@],
                None => event_of_read(addr, outcome, buf@) == Seq::<EventView>::empty(),
            },
    {
        match outcome {
            ReadOutcome::Read(n) => {
                if n > 0 {
                    let chunk = vstd::slice::slice_subrange(vstd::array::array_as_slice(buf), 0, n);
                    let payload = copy_payload(chunk);
                    assert(payload@ == buf@.take(n as int));
                    Some(NetworkEvent::Message(addr, payload))
                } else {
                    None
                }
            },
            ReadOutcome::Reset => Some(NetworkEvent::Disconnect(addr)),
            _ => None,
        }
    }

    /// Records one read: its event, if any, becomes the newest entry of the
    /// log. The connection itself is left registered whatever the outcome.
    pub fn on_read(
        &mut self,
        channel: &mut EventChannel<NetworkEvent>,
        addr: Address,
        outcome: ReadOutcome,
        buf: &[u8; READ_BUFFER_SIZE],
    )
        requires
            read_fits(outcome),
        ensures
            written(*old(channel), *final(channel), event_of_read(addr, outcome, buf@)),
    {
        match Self::event_for(addr, outcome, buf) {
            Some(event) => {
                channel_write(channel, event);
                assert(channel_log(*old(channel)).push(event@) =~= channel_log(*old(channel)) + seq![event@]);
            },
            None => {
                assert(channel_log(*old(channel)) + Seq::<EventView>::empty() =~= channel_log(*old(channel)));
            },
        }
    }

    /// Records a whole polling pass, read by read in the order given.
    pub fn run(&mut self, channel: &mut EventChannel<NetworkEvent>, reads: &Vec<Polled>)
        requires
            forall|i: int| 0 <= i < reads@.len() ==> read_fits((#[trigger] reads@[i]).outcome),
        ensures
            written(*old(channel), *final(channel), events_of_reads(reads@)),
    {
        let mut i: usize = 0;
        assert(channel_log(*old(channel)) + Seq::<EventView>::empty() =~= channel_log(*old(channel)));
        assert(reads@.take(0).len() == 0);
        while i < reads.len()
            invariant
                i <= reads@.len(),
                forall|k: int| 0 <= k < reads@.len() ==> read_fits((#[trigger] reads@[k]).outcome),
                written(*old(channel), *channel, events_of_reads(reads@.take(i as int))),
            decreases reads@.len() - i,
        {
            let polled = &reads[i];
            self.on_read(channel, polled.addr, polled.outcome, &polled.buf);
            proof {
                let upto = reads@.take(i + 1);
                assert(upto.drop_last() =~= reads@.take(i as int));
                assert(upto.last() == reads@[i as int]);
                assert(channel_log(*channel) =~= channel_log(*old(channel)) + events_of_reads(upto));
            }
            i += 1;
        }
        assert(reads@.take(i as int) =~= reads@);
    }
}

} // verus!
