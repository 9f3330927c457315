//! Plain message types, one per protobuf message.
use vstd::prelude::*;

pub mod proto_controller_state_batch;
pub mod proto_message;

verus! {

/// A point in time: seconds and nanoseconds since the Unix epoch, as the
/// protobuf well-known `Timestamp` carries it.
#[derive(Clone, Copy, Debug, PartialEq, Eq, Hash, Default)]
pub struct ProtoTimestamp {
    pub seconds: i64,
    pub nanos: i32,
}

#[derive(Clone, Debug, PartialEq, Eq, Hash, Default)]
pub struct ProtoTimestampEntry {
    pub stage: String,
    pub time: Option<ProtoTimestamp>,
}

#[derive(Clone, Debug, PartialEq, Default)]
pub struct ProtoLatencyTracker {
    pub sequence_id: String,
    pub timestamps: Vec<ProtoTimestampEntry>,
}

#[derive(Clone, Copy, Debug, PartialEq, Eq, Hash, Default)]
pub struct ProtoMouseMove {
    pub x: i32,
    pub y: i32,
}

#[derive(Clone, Copy, Debug, PartialEq, Eq, Hash, Default)]
pub struct ProtoMouseMoveAbs {
    pub x: i32,
    pub y: i32,
}

#[derive(Clone, Copy, Debug, PartialEq, Eq, Hash, Default)]
pub struct ProtoMouseWheel {
    pub x: i32,
    pub y: i32,
}

#[derive(Clone, Copy, Debug, PartialEq, Eq, Hash, Default)]
pub struct ProtoMouseKeyDown {
    pub key: i32,
}

#[derive(Clone, Copy, Debug, PartialEq, Eq, Hash, Default)]
pub struct ProtoMouseKeyUp {
    pub key: i32,
}

#[derive(Clone, Copy, Debug, PartialEq, Eq, Hash, Default)]
pub struct ProtoKeyDown {
    pub key: i32,
}

#[derive(Clone, Copy, Debug, PartialEq, Eq, Hash, Default)]
pub struct ProtoKeyUp {
    pub key: i32,
}

#[derive(Clone, Debug, PartialEq, Eq, Hash, Default)]
pub struct ProtoControllerAttach {
    pub id: String,
    pub session_slot: i32,
    pub session_id: String,
}

#[derive(Clone, Debug, PartialEq, Eq, Hash, Default)]
pub struct ProtoControllerDetach {
    pub session_slot: i32,
    pub session_id: String,
}

#[derive(Clone, Debug, PartialEq, Eq, Hash, Default)]
pub struct ProtoControllerRumble {
    pub session_slot: i32,
    pub session_id: String,
    pub low_frequency: i32,
    pub high_frequency: i32,
    pub duration: i32,
}

/// A batch of gamepad state: the buttons whose state changed (by Linux event
/// code) and the axes that are present.
#[derive(Clone, Debug, PartialEq, Default)]
pub struct ProtoControllerStateBatch {
    pub session_slot: i32,
    pub session_id: String,
    pub update_type: i32,
    pub sequence: u32,
    pub button_changed_mask: std::collections::HashMap<i32, bool>,
    pub left_stick_x: Option<i32>,
    pub left_stick_y: Option<i32>,
    pub right_stick_x: Option<i32>,
    pub right_stick_y: Option<i32>,
    pub left_trigger: Option<i32>,
    pub right_trigger: Option<i32>,
    pub dpad_x: Option<i32>,
    pub dpad_y: Option<i32>,
    pub changed_fields: Option<u32>,
}

#[derive(Clone, Debug, PartialEq, Eq, Hash, Default)]
pub struct RtcIceCandidateInit {
    pub candidate: String,
    pub sdp_m_line_index: Option<u32>,
    pub sdp_mid: Option<String>,
    pub username_fragment: Option<String>,
}

#[derive(Clone, Debug, PartialEq, Eq, Hash, Default)]
pub struct RtcSessionDescriptionInit {
    pub sdp: String,
    pub sdp_type: String,
}

#[derive(Clone, Debug, PartialEq, Eq, Hash, Default)]
pub struct ProtoIce {
    pub candidate: Option<RtcIceCandidateInit>,
}

#[derive(Clone, Debug, PartialEq, Eq, Hash, Default)]
pub struct ProtoSdp {
    pub sdp: Option<RtcSessionDescriptionInit>,
}

#[derive(Clone, Debug, PartialEq, Eq, Hash, Default)]
pub struct ProtoRaw {
    pub data: String,
}

#[derive(Clone, Debug, PartialEq, Eq, Hash, Default)]
pub struct ProtoClientRequestRoomStream {
    pub room_name: String,
    pub session_id: String,
}

#[derive(Clone, Debug, PartialEq, Eq, Hash, Default)]
pub struct ProtoClientDisconnected {
    pub session_id: String,
    pub controller_slots: Vec<i32>,
}

#[derive(Clone, Debug, PartialEq, Eq, Hash, Default)]
pub struct ProtoServerPushStream {
    pub room_name: String,
}

#[derive(Clone, Debug, PartialEq, Default)]
pub struct ProtoMessageBase {
    pub payload_type: String,
    pub latency: Option<ProtoLatencyTracker>,
}

#[derive(Clone, Debug, PartialEq, Default)]
pub struct ProtoMessage {
    pub message_base: Option<ProtoMessageBase>,
    pub payload: Option<proto_message::Payload>,
}

} // verus!
