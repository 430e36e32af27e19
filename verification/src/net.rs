use vstd::prelude::*;

use crate::attestation::IdentityError;
use crate::b64::{b64_inv, b64_decode};

verus! {

/// The default gossip topic every node subscribes to for individual
/// attestations.
pub fn attestation_topic() -> (r: &'static str)
    ensures
        r@ == "civicverse-attestations"@,
{
    "civicverse-attestations"
}

/// The gossip topic aggregated batches are published on.
pub fn aggregate_topic() -> (r: &'static str)
    ensures
        r@ == "civicverse-craig-aggregates"@,
{
    "civicverse-craig-aggregates"
}

/// One thing the reactor finds ready: an outbound publish request from
/// another component, or a native network event.
pub enum ReactorEvent {
    /// A queued `(topic, bytes)` publish request.
    PublishRequest { topic: Vec<u8>, data: Vec<u8> },
    /// An inbound gossip message, already unwrapped to its payload bytes.
    InboundMessage { data: Vec<u8> },
    /// A local-discovery announcement of a new peer.
    PeerDiscovered,
    /// A local-discovery record that expired.
    PeerExpired,
    /// The transport began listening on an address.
    NewListenAddr,
    /// Anything else the transport reports.
    Other,
}

/// What the reactor does with one event.
pub enum ReactorAction {
    /// Publish the bytes on the gossip channel named by the topic.
    GossipPublish { topic: Vec<u8>, data: Vec<u8> },
    /// Fan the payload out verbatim to every subscriber.
    Deliver { data: Vec<u8> },
    /// Only worth a log line; the reactor carries on.
    Note,
}

/// The reactor's decision for one ready event: publish requests go out on
/// their topic, inbound gossip payloads are handed on verbatim, and
/// everything else is merely noted.
pub fn reactor_dispatch(event: ReactorEvent) -> (r: ReactorAction)
    ensures
        match event {
            ReactorEvent::PublishRequest { topic, data } => {
                r matches ReactorAction::GossipPublish { topic: t, data: d } && t@ == topic@ && d@
                    == data@
            },
            ReactorEvent::InboundMessage { data } => {
                r matches ReactorAction::Deliver { data: d } && d@ == data@
            },
            _ => r is Note,
        },
{
    match event {
        ReactorEvent::PublishRequest { topic, data } => ReactorAction::GossipPublish {
            topic,
            data,
        },
        ReactorEvent::InboundMessage { data } => ReactorAction::Deliver { data },
        _ => ReactorAction::Note,
    }
}

/// Reads an optional node-identity secret: absent stays absent, present must
/// be base64, and a bad writing is a fatal construction error.
pub fn decode_identity_secret(opt_secret: Option<&Vec<u8>>) -> (r: Result<
    Option<Vec<u8>>,
    IdentityError,
>)
    ensures
        match opt_secret {
            None => r matches Ok(o) && o is None,
            Some(s) => match r {
                Ok(o) => o matches Some(b) && b64_inv(s@) == Some(b@),
                Err(e) => e == IdentityError::BadEncoding && b64_inv(s@) is None,
            },
        },
{
    match opt_secret {
        None => Ok(None),
        Some(s) => match b64_decode(s) {
            Some(bytes) => Ok(Some(bytes)),
            None => Err(IdentityError::BadEncoding),
        },
    }
}

} // verus!
