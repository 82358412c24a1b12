//! Overlay to broker: what is published on the broker for an overlay sample.
use vstd::prelude::*;
use crate::broker::{BrokerPublish, Qos, RELAY_QOS};
use crate::configuration::ZenohTopic;
use crate::supervisor::{supervision_of, LoopExit, Supervision};
use crate::topic::to_broker_topic;

verus! {

/// A sample received on an overlay subscription.
#[derive(Clone, Debug)]
pub struct OverlaySample {
    pub key_expr: String,
    pub payload: Vec<u8>,
}

/// The broker publish for a sample with key-expression `key_expr` and payload
/// `payload`, received on a subscription whose retain flag is `retained`: the
/// key-expression verbatim as topic, the relay's quality of service, the
/// subscription's retain flag and the payload unchanged.
pub open spec fn inbound_publish_view(key_expr: Seq<char>, payload: Seq<u8>, retained: bool) -> (
    Seq<char>,
    Qos,
    bool,
    Seq<u8>,
) {
    (key_expr, RELAY_QOS, retained, payload)
}

/// The broker publish that mirrors `sample`, received on the subscription
/// for `relayed`.
pub fn inbound_publish(sample: OverlaySample, relayed: &ZenohTopic) -> (r: BrokerPublish)
    ensures
        r.view() == inbound_publish_view(sample.key_expr@, sample.payload@, relayed.retained),
{
    let topic = to_broker_topic(sample.key_expr.as_str());
    BrokerPublish { topic, qos: RELAY_QOS, retain: relayed.retained, payload: sample.payload }
}

/// The broker publishes made under supervision for `samples`, received in
/// order on one subscription whose retain flag is `retained`. `ends[i]` is
/// how handling the i-th sample ended the loop (a receive, decode or publish
/// failure), or `None` where it was published; after an end the loop goes on
/// with the next sample only if the supervisor restarts it.
pub open spec fn supervised_publishes(
    samples: Seq<(Seq<char>, Seq<u8>)>,
    ends: Seq<Option<LoopExit>>,
    retained: bool,
) -> Seq<(Seq<char>, Qos, bool, Seq<u8>)>
    decreases samples.len(),
{
    if samples.len() == 0 || ends.len() == 0 {
        Seq::empty()
    } else {
        let rest = supervised_publishes(samples.drop_first(), ends.drop_first(), retained);
        match ends[0] {
            None => seq![inbound_publish_view(samples[0].0, samples[0].1, retained)] + rest,
            Some(exit) => if supervision_of(exit) == Supervision::Restart {
                rest
            } else {
                Seq::empty()
            },
        }
    }
}

/// A failure on one sample does not stop the subscription's relay: every
/// later sample that is handled without failure is still published, since
/// the supervisor restarts the loop after each failure.
pub proof fn lemma_failure_does_not_stop_relay(
    samples: Seq<(Seq<char>, Seq<u8>)>,
    ends: Seq<Option<LoopExit>>,
    retained: bool,
    j: int,
)
    requires
        samples.len() == ends.len(),
        0 <= j < samples.len(),
        ends[j] is None,
        forall|i: int| 0 <= i < ends.len() && (#[trigger] ends[i]) is Some ==> ends[i]->0 is Failed,
    ensures
        exists|k: int|
            0 <= k < supervised_publishes(samples, ends, retained).len()
                && supervised_publishes(samples, ends, retained)[k] == inbound_publish_view(
                samples[j].0,
                samples[j].1,
                retained,
            ),
    decreases j,
{
    let rest = supervised_publishes(samples.drop_first(), ends.drop_first(), retained);
    let all = supervised_publishes(samples, ends, retained);
    let want = inbound_publish_view(samples[j].0, samples[j].1, retained);
    if j == 0 {
        assert(all[0] == want);
    } else {
        let es = ends.drop_first();
        assert forall|i: int| 0 <= i < es.len() && (#[trigger] es[i]) is Some implies es[i]->0 is Failed by {
            assert(es[i] == ends[i + 1]);
        }
        assert(samples.drop_first()[j - 1] == samples[j]);
        lemma_failure_does_not_stop_relay(samples.drop_first(), es, retained, j - 1);
        let k = choose|k: int| 0 <= k < rest.len() && rest[k] == want;
        match ends[0] {
            None => {
                assert(all[k + 1] == want);
            },
            Some(exit) => {
                assert(ends[0] is Some);
                assert(all == rest);
            },
        }
    }
}

} // verus!
