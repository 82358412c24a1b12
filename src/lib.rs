//! A relay between an MQTT broker and a zenoh overlay: the decisions of both
//! relay loops, the table of overlay publishers, the supervision policy and
//! the topic translation between the two fabrics.
pub mod broker;
pub mod cache;
pub mod configuration;
pub mod inbound;
pub mod outbound;
pub mod supervisor;
pub mod topic;
