//! Requests made of the broker fabric.
use vstd::prelude::*;

verus! {

/// Delivery guarantee of a broker publish or subscription.
#[derive(Clone, Copy, Debug, PartialEq, Eq, Structural)]
pub enum Qos {
    AtMostOnce,
    AtLeastOnce,
    ExactlyOnce,
}

/// The quality of service of every subscription and publish this relay makes
/// on the broker: delivery is best effort.
pub const RELAY_QOS: Qos = Qos::AtMostOnce;

/// A subscription to request from the broker.
#[derive(Clone, Debug)]
pub struct BrokerSubscribe {
    pub topic: String,
    pub qos: Qos,
}

/// A message to publish on the broker.
#[derive(Clone, Debug)]
pub struct BrokerPublish {
    pub topic: String,
    pub qos: Qos,
    pub retain: bool,
    pub payload: Vec<u8>,
}

impl BrokerPublish {
    /// Topic, quality of service, retain flag and payload.
    pub open spec fn view(&self) -> (Seq<char>, Qos, bool, Seq<u8>) {
        (self.topic@, self.qos, self.retain, self.payload@)
    }
}

/// The subscription requests for a list of broker topic patterns: one per
/// pattern, in the same order, each at the relay's quality of service.
pub fn subscribe_requests(patterns: &Vec<String>) -> (r: Vec<BrokerSubscribe>)
    ensures
        r@.len() == patterns@.len(),
        forall|i: int|
            0 <= i < r@.len() ==> (#[trigger] r@[i]).topic@ == patterns@[i]@ && r@[i].qos == RELAY_QOS,
{
    let mut r: Vec<BrokerSubscribe> = Vec::new();
    let mut i: usize = 0;
    while i < patterns.len()
        invariant
            0 <= i <= patterns@.len(),
            r@.len() == i,
            forall|j: int|
                0 <= j < i ==> (#[trigger] r@[j]).topic@ == patterns@[j]@ && r@[j].qos == RELAY_QOS,
        decreases patterns@.len() - i,
    {
        let topic = patterns[i].clone();
        r.push(BrokerSubscribe { topic, qos: RELAY_QOS });
        proof {
            assert(r@[i as int].topic@ == patterns@[i as int]@);
        }
        i = i + 1;
    }
    r
}

} // verus!
