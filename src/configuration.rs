//! The relay's settings, as delivered at startup.
use vstd::prelude::*;
use vstd::string::*;

verus! {

/// Settings of both fabrics.
#[derive(Clone, Debug)]
pub struct AppConfig {
    pub mqtt: MqttConfig,
    pub zenoh: ZenohConfig,
}

/// Settings of the overlay (zenoh) session.
#[derive(Clone, Debug)]
pub struct ZenohConfig {
    /// Endpoints to connect to
    pub connect: Vec<String>,
    /// Endpoints to listen on
    pub listen: Vec<String>,
    /// load zenoh configuration from file
    pub config_file_path: Option<String>,
    /// disable zenoh multicast scouting
    pub disable_multicast_scouting: bool,
    /// overlay key-expressions mirrored onto the broker
    pub relayed_topics: Vec<ZenohTopic>,
}

/// An overlay key-expression to mirror onto the broker.
#[derive(Clone, Debug)]
pub struct ZenohTopic {
    pub name: String,
    /// whether the broker should retain what is mirrored
    pub retained: bool,
}

/// Settings of the broker (MQTT) client.
#[derive(Clone, Debug)]
pub struct MqttConfig {
    /// address of MQTT broker
    /// defaults to localhost
    pub address: String,
    /// network port of MQTT broker
    /// defaults to 1883
    pub port: u16,
    pub client_id: String,
    /// topics to subscribe to on MQTT broker
    /// defaults to `#` (all topics)
    pub subscriptions: Vec<String>,
    /// prefix to add to all outgoing mqtt topics
    pub mqtt_relay_prefix: Option<String>,
}

pub const DEFAULT_MQTT_PORT: u16 = 1883;

/// The broker port used when none is configured.
pub fn default_mqtt_port() -> (r: u16)
    ensures
        r == DEFAULT_MQTT_PORT,
{
    DEFAULT_MQTT_PORT
}

/// The host name `localhost`.
pub open spec fn localhost() -> Seq<char> {
    seq!['l', 'o', 'c', 'a', 'l', 'h', 'o', 's', 't']
}

/// The broker address used when none is configured.
pub fn default_mqtt_host() -> (r: String)
    ensures
        r@ == localhost(),
{
    let r = String::from_str("localhost");
    proof {
        reveal_strlit("localhost");
        assert(r@ =~= localhost());
    }
    r
}

/// The broker topic filter that matches every topic.
pub open spec fn wildcard_topic() -> Seq<char> {
    seq!['#']
}

/// The broker subscriptions used when none are configured: the single
/// filter `#`, matching every topic.
pub fn default_mqtt_subscription() -> (r: Vec<String>)
    ensures
        r@.len() == 1,
        r@[0]@ == wildcard_topic(),
{
    let w = String::from_str("#");
    proof {
        reveal_strlit("#");
        assert(w@ =~= wildcard_topic());
    }
    let mut r: Vec<String> = Vec::new();
    r.push(w);
    r
}

/// What the configured overlay settings change in the session's
/// configuration: each field is `None` where it is left as it was.
#[derive(Clone, Debug)]
pub struct OverlayOverrides {
    /// Endpoints that replace those to connect to.
    pub connect: Option<Vec<String>>,
    /// Endpoints that replace those to listen on.
    pub listen: Option<Vec<String>>,
    /// Whether multicast scouting is enabled.
    pub multicast_scouting: Option<bool>,
}

/// The endpoints that replace the configured ones: none where the list is
/// empty, the list itself otherwise.
pub open spec fn endpoint_override(endpoints: Seq<Seq<char>>) -> Option<Seq<Seq<char>>> {
    if endpoints.len() == 0 {
        None
    } else {
        Some(endpoints)
    }
}

/// The view of an optional list of strings.
pub open spec fn opt_list_view(v: Option<Vec<String>>) -> Option<Seq<Seq<char>>> {
    match v {
        Some(l) => Some(l.deep_view()),
        None => None,
    }
}

fn copy_endpoints(endpoints: &Vec<String>) -> (r: Option<Vec<String>>)
    ensures
        opt_list_view(r) == endpoint_override(endpoints.deep_view()),
{
    if endpoints.len() == 0 {
        None
    } else {
        let v = endpoints.clone();
        assert(v.deep_view() =~= endpoints.deep_view());
        Some(v)
    }
}

impl ZenohConfig {
    /// The changes these settings make to the overlay session's
    /// configuration: non-empty endpoint lists replace the session's own,
    /// and asking to disable multicast scouting turns it off.
    pub fn overrides(&self) -> (r: OverlayOverrides)
        ensures
            opt_list_view(r.connect) == endpoint_override(self.connect.deep_view()),
            opt_list_view(r.listen) == endpoint_override(self.listen.deep_view()),
            r.multicast_scouting == (if self.disable_multicast_scouting {
                Some(false)
            } else {
                None::<bool>
            }),
    {
        let multicast_scouting = if self.disable_multicast_scouting {
            Some(false)
        } else {
            None
        };
        OverlayOverrides {
            connect: copy_endpoints(&self.connect),
            listen: copy_endpoints(&self.listen),
            multicast_scouting,
        }
    }
}

} // verus!
