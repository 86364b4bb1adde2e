use vstd::prelude::*;
use crate::event::{EventView, NetworkEvent, views_of};
use shrev::{EventChannel, ReaderId};

verus! {

/// `shrev::EventChannel`, the append-only event log with one cursor per
/// subscriber. Its insides are not visible to the verifier.
#[verifier::external_type_specification]
#[verifier::external_body]
#[verifier::reject_recursive_types(E)]
pub struct ExEventChannel<E>(EventChannel<E>);

/// `shrev::ReaderId`, the handle of one subscription to a channel.
#[verifier::external_type_specification]
#[verifier::external_body]
#[verifier::reject_recursive_types(T)]
pub struct ExReaderId<T: 'static>(ReaderId<T>);

/// Every event that was ever written to the channel, oldest first.
pub uninterp spec fn channel_log(channel: EventChannel<NetworkEvent>) -> Seq<EventView>;

/// Which channel this is. A channel keeps its identity through every write
/// and registration, and marks each reader that it registers with it.
pub uninterp spec fn channel_token(channel: EventChannel<NetworkEvent>) -> int;

/// The identity of the channel that registered the reader.
pub uninterp spec fn reader_token(reader: ReaderId<NetworkEvent>) -> int;

/// How many events of its channel's log the reader has gone past.
pub uninterp spec fn reader_cursor(reader: ReaderId<NetworkEvent>) -> nat;

/// `EventChannel::new`: a channel to which nothing has been written.
#[verifier::external_body]
pub(crate) fn channel_new() -> (channel: EventChannel<NetworkEvent>)
    ensures
        channel_log(channel).len() == 0,
{
    EventChannel::new()
}

/// `EventChannel::single_write`: the event becomes the newest entry of the
/// log; the channel stays the same instance.
#[verifier::external_body]
pub(crate) fn channel_write(channel: &mut EventChannel<NetworkEvent>, event: NetworkEvent)
    ensures
        channel_log(*final(channel)) == channel_log(*old(channel)).push(event@),
        channel_token(*final(channel)) == channel_token(*old(channel)),
{
    channel.single_write(event)
}

/// `EventChannel::register_reader`: the new reader belongs to this channel
/// and stands at the end of the log, so it will see only what is written
/// from now on. The log itself is untouched.
#[verifier::external_body]
pub(crate) fn channel_register(channel: &mut EventChannel<NetworkEvent>) -> (reader: ReaderId<NetworkEvent>)
    ensures
        channel_log(*final(channel)) == channel_log(*old(channel)),
        channel_token(*final(channel)) == channel_token(*old(channel)),
        reader_token(reader) == channel_token(*old(channel)),
        reader_cursor(reader) == channel_log(*old(channel)).len(),
{
    channel.register_reader()
}

/// `EventChannel::read`, with each event cloned out of the borrowed
/// iterator: the events written since the reader last read (or was
/// registered), oldest first; the reader then stands at the end of the log.
/// The channel panics on a reader that another channel registered, which the
/// precondition leaves out.
#[verifier::external_body]
pub(crate) fn channel_read(channel: &EventChannel<NetworkEvent>, reader: &mut ReaderId<NetworkEvent>) -> (events: Vec<NetworkEvent>)
    requires
        reader_token(*old(reader)) == channel_token(*channel),
    ensures
        reader_token(*final(reader)) == reader_token(*old(reader)),
        reader_cursor(*final(reader)) == channel_log(*channel).len(),
        views_of(events@) == channel_log(*channel).skip(reader_cursor(*old(reader)) as int),
{
    channel.read(reader).cloned().collect()
}

/// The second channel is the first one after exactly these events were
/// written to it, in this order.
pub open spec fn written(
    before: EventChannel<NetworkEvent>,
    after: EventChannel<NetworkEvent>,
    events: Seq<EventView>,
) -> bool {
    &&& channel_log(after) == channel_log(before) + events
    &&& channel_token(after) == channel_token(before)
}

/// A channel of its own for the pipeline's three components to share.
pub fn new_channel() -> (channel: EventChannel<NetworkEvent>)
    ensures
        channel_log(channel).len() == 0,
{
    channel_new()
}

/// A subscription: the reader together with what is known of it.
pub struct Subscription {
    reader: ReaderId<NetworkEvent>,
}

impl Subscription {
    /// The channel registered this subscription.
    pub closed spec fn belongs_to(&self, channel: EventChannel<NetworkEvent>) -> bool {
        reader_token(self.reader) == channel_token(channel)
    }

    /// How many events of the channel's log the subscriber has consumed.
    pub closed spec fn cursor(&self) -> nat {
        reader_cursor(self.reader)
    }

    /// Subscribes to the channel: only events written from now on are seen.
    pub fn new(channel: &mut EventChannel<NetworkEvent>) -> (sub: Self)
        ensures
            written(*old(channel), *final(channel), Seq::empty()),
            sub.belongs_to(*final(channel)),
            sub.cursor() == channel_log(*old(channel)).len(),
    {
        let reader = channel_register(channel);
        assert(channel_log(*channel) + Seq::<EventView>::empty() =~= channel_log(*channel));
        Subscription { reader }
    }

    /// Consumes everything written since the last call (or since the
    /// subscription began): those events, oldest first.
    pub fn poll(&mut self, channel: &EventChannel<NetworkEvent>) -> (events: Vec<NetworkEvent>)
        requires
            old(self).belongs_to(*channel),
        ensures
            final(self).belongs_to(*channel),
            final(self).cursor() == channel_log(*channel).len(),
            views_of(events@) == channel_log(*channel).skip(old(self).cursor() as int),
    {
        channel_read(channel, &mut self.reader)
    }
}

/// Writes follow one another: what the acceptor wrote comes before what the
/// reader wrote after it.
pub proof fn lemma_written_in_sequence(
    first: EventChannel<NetworkEvent>,
    second: EventChannel<NetworkEvent>,
    third: EventChannel<NetworkEvent>,
    earlier: Seq<EventView>,
    later: Seq<EventView>,
)
    requires
        written(first, second, earlier),
        written(second, third, later),
    ensures
        written(first, third, earlier + later),
{
    assert(channel_log(first) + (earlier + later) =~= (channel_log(first) + earlier) + later);
}

/// A subscriber that stood at the end of the log sees, at its next poll,
/// exactly what was written since, in the order in which it was written.
pub proof fn lemma_poll_sees_what_was_written(
    sub: Subscription,
    before: EventChannel<NetworkEvent>,
    after: EventChannel<NetworkEvent>,
    events: Seq<EventView>,
)
    requires
        sub.cursor() == channel_log(before).len(),
        written(before, after, events),
    ensures
        channel_log(after).skip(sub.cursor() as int) == events,
{
    assert(channel_log(after).skip(sub.cursor() as int) =~= events);
}

/// A subscription follows its channel through any number of writes.
pub proof fn lemma_subscription_survives_writes(
    sub: Subscription,
    before: EventChannel<NetworkEvent>,
    after: EventChannel<NetworkEvent>,
    events: Seq<EventView>,
)
    requires
        sub.belongs_to(before),
        written(before, after, events),
    ensures
        sub.belongs_to(after),
{
}

} // verus!
