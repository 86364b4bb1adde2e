use vstd::prelude::*;
use crate::address::Address;
use crate::channel::{channel_log, written, Subscription};
use crate::event::{views_of, EventView, NetworkEvent};
use crate::protocol::{is_ping, ping_bytes, pong, pong_bytes};
use crate::registry::{outbound_views, Outbound};
use shrev::EventChannel;

verus! {

/// The writes that answer an event: one `pong` to the sender of a message
/// whose whole payload is `ping`, and nothing for anything else.
pub open spec fn answers_of_event(event: EventView) -> Seq<(Address, Seq<u8>)> {
    match event {
        EventView::Message(addr, payload) => if payload == ping_bytes() {
            seq![(addr, pong_bytes())]
        } else {
            Seq::empty()
        },
        _ => Seq::empty(),
    }
}

/// The writes that answer a run of events, in the order of the events.
pub open spec fn answers_of_events(events: Seq<EventView>) -> Seq<(Address, Seq<u8>)>
    decreases events.len(),
{
    if events.len() == 0 {
        Seq::empty()
    } else {
        answers_of_events(events.drop_last()) + answers_of_event(events.last())
    }
}

/// The writes that an answer leaves to the host.
pub open spec fn sends_of_answer(answer: Option<Outbound>) -> Seq<(Address, Seq<u8>)> {
    match answer {
        Some(out) => seq![out@],
        None => Seq::empty(),
    }
}

/// The application logic on the receiving side: it answers `ping`.
pub struct Pong {
    reader_id: Subscription,
}

impl Pong {
    /// The responder's subscription to the event log.
    pub closed spec fn subscription(&self) -> Subscription {
        self.reader_id
    }

    /// Subscribes a new responder to the channel.
    pub fn new(channel: &mut EventChannel<NetworkEvent>) -> (system: Self)
        ensures
            written(*old(channel), *final(channel), Seq::empty()),
            system.subscription().belongs_to(*final(channel)),
            system.subscription().cursor() == channel_log(*old(channel)).len(),
    {
        Pong { reader_id: Subscription::new(channel) }
    }

    /// Advances the cursor to the end of the log and hands over the events
    /// it went past, oldest first.
    pub fn poll(&mut self, channel: &EventChannel<NetworkEvent>) -> (events: Vec<NetworkEvent>)
        requires
            old(self).subscription().belongs_to(*channel),
        ensures
            final(self).subscription().belongs_to(*channel),
            final(self).subscription().cursor() == channel_log(*channel).len(),
            views_of(events@) == channel_log(*channel).skip(old(self).subscription().cursor() as int),
    {
        self.reader_id.poll(channel)
    }

    /// One tick of the responder: it consumes the events written since its
    /// last tick and hands over the answers to them, in their order, for the
    /// host to write.
    pub fn run(&mut self, channel: &EventChannel<NetworkEvent>) -> (plan: Vec<Outbound>)
        requires
            old(self).subscription().belongs_to(*channel),
        ensures
            final(self).subscription().belongs_to(*channel),
            final(self).subscription().cursor() == channel_log(*channel).len(),
            outbound_views(plan@) == answers_of_events(
                channel_log(*channel).skip(old(self).subscription().cursor() as int),
            ),
    {
        let events = self.poll(channel);
        let mut plan: Vec<Outbound> = Vec::new();
        let mut i: usize = 0;
        assert(views_of(events@).take(0).len() == 0);
        assert(outbound_views(plan@) =~= Seq::<(Address, Seq<u8>)>::empty());
        while i < events.len()
            invariant
                i <= events@.len(),
                outbound_views(plan@) == answers_of_events(views_of(events@).take(i as int)),
            decreases events@.len() - i,
        {
            let ghost before = plan@;
            let answer = self.on_event(&events[i]);
            match answer {
                Some(out) => {
                    plan.push(out);
                    assert(outbound_views(plan@) =~= outbound_views(before) + seq![out@]);
                },
                None => {},
            }
            proof {
                let upto = views_of(events@).take(i + 1);
                assert(upto.drop_last() =~= views_of(events@).take(i as int));
                assert(upto.last() == events@[i as int]@);
                assert(outbound_views(plan@) =~= outbound_views(before) + sends_of_answer(answer));
            }
            i += 1;
        }
        assert(views_of(events@).take(i as int) =~= views_of(events@));
        plan
    }

    /// Answers one event: the write to attempt, if the event calls for one.
    pub fn on_event(&self, event: &NetworkEvent) -> (answer: Option<Outbound>)
        ensures
            sends_of_answer(answer) == answers_of_event(event@),
    {
        match event {
            NetworkEvent::Message(addr, payload) => {
                if is_ping(payload.as_slice()) {
                    Some(Outbound { dest: *addr, payload: pong() })
                } else {
                    None
                }
            },
            _ => None,
        }
    }
}

/// Sets up the responder.
pub struct PongSystemBundle;

impl PongSystemBundle {
    /// Builds the responder, subscribed to the channel.
    pub fn build(self, channel: &mut EventChannel<NetworkEvent>) -> (system: Pong)
        ensures
            written(*old(channel), *final(channel), Seq::empty()),
            system.subscription().belongs_to(*final(channel)),
            system.subscription().cursor() == channel_log(*old(channel)).len(),
    {
        Pong::new(channel)
    }
}

} // verus!
