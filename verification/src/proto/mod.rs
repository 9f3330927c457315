//! The messages exchanged with the relay and over the WebRTC data channel.
//! The types here carry the plain values of each message; their protobuf wire
//! encoding lives outside the verified library.
use vstd::prelude::*;
use vstd::string::*;

pub mod proto;

use self::proto::proto_message::Payload;
use self::proto::{ProtoLatencyTracker, ProtoMessage, ProtoMessageBase};

verus! {

/// Wraps `payload` in a message whose base carries the `payload_type` label
/// and the optional latency tracker.
pub fn create_message(payload: Payload, payload_type: &str, latency: Option<ProtoLatencyTracker>) -> (r:
    ProtoMessage)
    ensures
        r.payload == Some(payload),
        r.message_base is Some,
        r.message_base->0.payload_type@ == payload_type@,
        r.message_base->0.latency == latency,
{
    ProtoMessage {
        message_base: Some(ProtoMessageBase { payload_type: String::from_str(payload_type), latency }),
        payload: Some(payload),
    }
}

} // verus!
