//! Broker to overlay: the outbound relay loop's decision for each broker event.
use vstd::prelude::*;
use crate::broker::{subscribe_requests, BrokerSubscribe, RELAY_QOS};
use crate::topic::{opt_view, overlay_address, to_overlay_address};

verus! {

/// Content encoding attached to a value put on the overlay.
#[derive(Clone, Copy, Debug, PartialEq, Eq, Structural)]
pub enum PayloadEncoding {
    TextPlain,
}

/// A value to put on the overlay, through the publisher for `address`.
#[derive(Clone, Debug)]
pub struct OverlayPut {
    pub address: String,
    pub payload: Vec<u8>,
    pub encoding: PayloadEncoding,
}

impl OverlayPut {
    /// Address, payload and encoding.
    pub open spec fn view(&self) -> (Seq<char>, Seq<u8>, PayloadEncoding) {
        (self.address@, self.payload@, self.encoding)
    }
}

/// The overlay put that mirrors a broker message on `topic` carrying
/// `payload`: at the translated address, with the payload unchanged, tagged
/// as plain text.
pub open spec fn outbound_put_view(topic: Seq<char>, payload: Seq<u8>, prefix: Option<Seq<char>>) -> (
    Seq<char>,
    Seq<u8>,
    PayloadEncoding,
) {
    (overlay_address(topic, prefix), payload, PayloadEncoding::TextPlain)
}

/// An event of the broker client's event stream.
#[derive(Clone, Debug)]
pub enum BrokerEvent {
    /// A message arrived on a subscribed topic.
    Publish { topic: String, payload: Vec<u8> },
    /// The broker acknowledged a (re)connection.
    ConnAck,
    /// The client disconnected on purpose.
    Disconnect,
    /// Polling the event stream failed.
    TransportError { detail: String },
    /// Any other event, which the relay ignores.
    Other,
}

/// What the outbound relay loop does for one event.
#[derive(Clone, Debug)]
pub enum OutboundAction {
    /// Put a value on the overlay.
    Forward(OverlayPut),
    /// Issue these subscriptions on the broker again.
    Resubscribe(Vec<BrokerSubscribe>),
    /// End the loop cleanly.
    Shutdown,
    /// Log the failure and go on polling.
    Report(String),
    /// Go on polling.
    Continue,
}

/// The outbound relay loop's decisions, with the settings they depend on.
#[derive(Clone, Debug)]
pub struct OutboundRelay {
    /// Prefix put before every broker topic on the overlay.
    pub prefix: Option<String>,
    /// Broker subscriptions to issue again after each reconnection.
    pub subscriptions: Vec<String>,
}

impl OutboundRelay {
    /// A relay with the given prefix and broker subscriptions.
    pub fn new(prefix: Option<String>, subscriptions: Vec<String>) -> (r: Self)
        ensures
            r.prefix == prefix,
            r.subscriptions == subscriptions,
    {
        OutboundRelay { prefix, subscriptions }
    }

    /// The action for `event`: a message is forwarded to its translated
    /// address as plain text; a connection acknowledgement re-issues every
    /// configured subscription exactly once, in order, at the relay's quality
    /// of service; a disconnection ends the loop; a transport error is
    /// reported and polling goes on; anything else is ignored.
    pub fn step(&self, event: BrokerEvent) -> (r: OutboundAction)
        ensures
            match event {
                BrokerEvent::Publish { topic, payload } => r matches OutboundAction::Forward(p)
                    && p.view() == outbound_put_view(topic@, payload@, opt_view(self.prefix)),
                BrokerEvent::ConnAck => r matches OutboundAction::Resubscribe(v) && v@.len()
                    == self.subscriptions@.len() && forall|i: int|
                    0 <= i < v@.len() ==> (#[trigger] v@[i]).topic@ == self.subscriptions@[i]@
                        && v@[i].qos == RELAY_QOS,
                BrokerEvent::Disconnect => r is Shutdown,
                BrokerEvent::TransportError { detail } => r matches OutboundAction::Report(d)
                    && d@ == detail@,
                BrokerEvent::Other => r is Continue,
            },
    {
        match event {
            BrokerEvent::Publish { topic, payload } => {
                let address = to_overlay_address(topic.as_str(), &self.prefix);
                OutboundAction::Forward(
                    OverlayPut { address, payload, encoding: PayloadEncoding::TextPlain },
                )
            },
            BrokerEvent::ConnAck => OutboundAction::Resubscribe(
                subscribe_requests(&self.subscriptions),
            ),
            BrokerEvent::Disconnect => OutboundAction::Shutdown,
            BrokerEvent::TransportError { detail } => OutboundAction::Report(detail),
            BrokerEvent::Other => OutboundAction::Continue,
        }
    }
}

/// The overlay puts made by the loop that handles `events` one after
/// another, until the first disconnection.
pub open spec fn forwarded_puts(events: Seq<BrokerEvent>, prefix: Option<Seq<char>>) -> Seq<
    (Seq<char>, Seq<u8>, PayloadEncoding),
>
    decreases events.len(),
{
    if events.len() == 0 {
        Seq::empty()
    } else {
        match events[0] {
            BrokerEvent::Publish { topic, payload } => seq![
                outbound_put_view(topic@, payload@, prefix),
            ] + forwarded_puts(events.drop_first(), prefix),
            BrokerEvent::Disconnect => Seq::empty(),
            _ => forwarded_puts(events.drop_first(), prefix),
        }
    }
}

/// The put that mirrors a message event.
pub open spec fn put_of(e: BrokerEvent, prefix: Option<Seq<char>>) -> (
    Seq<char>,
    Seq<u8>,
    PayloadEncoding,
) {
    match e {
        BrokerEvent::Publish { topic, payload } => outbound_put_view(topic@, payload@, prefix),
        _ => arbitrary(),
    }
}

/// How many of the first `n` events are messages.
pub open spec fn messages_before(events: Seq<BrokerEvent>, n: int) -> nat
    decreases n,
{
    if n <= 0 || events.len() == 0 {
        0
    } else {
        (if events[0] is Publish { 1nat } else { 0nat }) + messages_before(events.drop_first(), n - 1)
    }
}

proof fn lemma_put_position(events: Seq<BrokerEvent>, prefix: Option<Seq<char>>, n: int)
    requires
        0 <= n < events.len(),
        events[n] is Publish,
        forall|k: int| 0 <= k < n ==> !(#[trigger] events[k] is Disconnect),
    ensures
        messages_before(events, n) < forwarded_puts(events, prefix).len(),
        forwarded_puts(events, prefix)[messages_before(events, n) as int] == put_of(events[n], prefix),
    decreases n,
{
    if n > 0 {
        let rest = events.drop_first();
        assert forall|k: int| 0 <= k < n - 1 implies !(#[trigger] rest[k] is Disconnect) by {
            assert(rest[k] == events[k + 1]);
        }
        assert(!(events[0] is Disconnect));
        lemma_put_position(rest, prefix, n - 1);
    }
}

proof fn lemma_messages_grow(events: Seq<BrokerEvent>, i: int, j: int)
    requires
        0 <= i < j <= events.len(),
        events[i] is Publish,
    ensures
        messages_before(events, i) < messages_before(events, j),
    decreases i,
{
    let rest = events.drop_first();
    if i > 0 {
        assert(rest[i - 1] == events[i]);
        lemma_messages_grow(rest, i - 1, j - 1);
    } else {
        assert(messages_before(rest, 0) == 0);
    }
}

/// Messages received in order are forwarded in that order: for two messages
/// of one event stream that arrive before any disconnection, the put for the
/// earlier one comes before the put for the later one.
pub proof fn lemma_forwarding_keeps_order(
    events: Seq<BrokerEvent>,
    prefix: Option<Seq<char>>,
    i: int,
    j: int,
)
    requires
        0 <= i < j < events.len(),
        events[i] is Publish,
        events[j] is Publish,
        forall|k: int| 0 <= k < j ==> !(#[trigger] events[k] is Disconnect),
    ensures
        exists|a: int, b: int|
            0 <= a < b < forwarded_puts(events, prefix).len() && forwarded_puts(events, prefix)[a]
                == put_of(events[i], prefix) && forwarded_puts(events, prefix)[b] == put_of(
                events[j],
                prefix,
            ),
{
    lemma_put_position(events, prefix, i);
    lemma_put_position(events, prefix, j);
    lemma_messages_grow(events, i, j);
    let a = messages_before(events, i) as int;
    let b = messages_before(events, j) as int;
    assert(0 <= a < b < forwarded_puts(events, prefix).len());
}

} // verus!
