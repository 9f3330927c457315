//! The payload a message carries.
use vstd::prelude::*;

use super::{
    ProtoClientDisconnected, ProtoClientRequestRoomStream, ProtoControllerAttach,
    ProtoControllerDetach, ProtoControllerRumble, ProtoControllerStateBatch, ProtoIce, ProtoKeyDown,
    ProtoKeyUp, ProtoMouseKeyDown, ProtoMouseKeyUp, ProtoMouseMove, ProtoMouseMoveAbs,
    ProtoMouseWheel, ProtoRaw, ProtoSdp, ProtoServerPushStream,
};

verus! {

#[derive(Clone, Debug, PartialEq)]
pub enum Payload {
    MouseMove(ProtoMouseMove),
    MouseMoveAbs(ProtoMouseMoveAbs),
    MouseWheel(ProtoMouseWheel),
    MouseKeyDown(ProtoMouseKeyDown),
    MouseKeyUp(ProtoMouseKeyUp),
    KeyDown(ProtoKeyDown),
    KeyUp(ProtoKeyUp),
    ControllerAttach(ProtoControllerAttach),
    ControllerDetach(ProtoControllerDetach),
    ControllerRumble(ProtoControllerRumble),
    ControllerStateBatch(ProtoControllerStateBatch),
    Ice(ProtoIce),
    Sdp(ProtoSdp),
    Raw(ProtoRaw),
    ClientRequestRoomStream(ProtoClientRequestRoomStream),
    ClientDisconnected(ProtoClientDisconnected),
    ServerPushStream(ProtoServerPushStream),
}

} // verus!
