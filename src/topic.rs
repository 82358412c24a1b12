//! Translation between broker topics and overlay key-expressions.
use vstd::prelude::*;
use vstd::string::*;

verus! {

/// The overlay address for a broker topic: `prefix/topic` when a prefix is
/// configured, the topic itself otherwise.
pub open spec fn overlay_address(topic: Seq<char>, prefix: Option<Seq<char>>) -> Seq<char> {
    match prefix {
        Some(p) => p + seq!['/'] + topic,
        None => topic,
    }
}

/// The view of an optional string.
pub open spec fn opt_view(s: Option<String>) -> Option<Seq<char>> {
    match s {
        Some(v) => Some(v@),
        None => None,
    }
}

/// Maps a broker topic onto the overlay key-expression it is mirrored to.
pub fn to_overlay_address(broker_topic: &str, prefix: &Option<String>) -> (r: String)
    ensures
        r@ == overlay_address(broker_topic@, opt_view(*prefix)),
{
    match prefix {
        Some(p) => {
            let mut r = p.clone();
            r.append("/");
            r.append(broker_topic);
            proof {
                reveal_strlit("/");
            }
            r
        },
        None => String::from_str(broker_topic),
    }
}

/// The broker topic for an overlay sample: its key-expression, verbatim.
/// No configured prefix is stripped.
pub fn to_broker_topic(key_expr: &str) -> (r: String)
    ensures
        r@ == key_expr@,
{
    String::from_str(key_expr)
}

/// Translation adds the prefix and nothing else: with a prefix, the address
/// is the prefix, a `/`, and the address the topic has without one.
pub proof fn lemma_prefix_additive(topic: Seq<char>, prefix: Seq<char>)
    ensures
        overlay_address(topic, Some(prefix)) == prefix + seq!['/'] + overlay_address(topic, None),
        overlay_address(topic, Some(prefix)).len() == prefix.len() + 1 + topic.len(),
{
}

} // verus!
