//! The decisions of the WebRTC signaller that talks to the relay: the
//! messages it sends, what it does with the messages it receives, and how
//! data channel messages become input events.
use vstd::prelude::*;
use vstd::string::*;

use crate::input::controller::InputEvent;
use crate::proto::create_message;
use crate::proto::proto::proto_message::Payload;
use crate::proto::proto::{
    ProtoKeyDown, ProtoKeyUp, ProtoMouseKeyDown, ProtoMouseKeyUp, ProtoMouseMove, ProtoMouseMoveAbs,
    ProtoMouseWheel,
    ProtoControllerRumble, ProtoControllerStateBatch, ProtoIce, ProtoMessage, ProtoSdp,
    ProtoServerPushStream, RtcIceCandidateInit, RtcSessionDescriptionInit,
};
use crate::text::str_eq;

verus! {

broadcast use vstd::std_specs::hash::group_hash_axioms;

/// Why the signaller could not start.
#[derive(Debug, Clone, Copy, PartialEq, Eq)]
pub enum SignallerError {
    /// No room to push the stream to was set.
    RoomNotSet,
    /// No stream protocol to the relay was set.
    ProtocolNotSet,
}

impl SignallerError {
    /// The error's text.
    pub fn message(&self) -> (r: &'static str)
        ensures
            r@ == (match *self {
                SignallerError::RoomNotSet => "Stream room not set"@,
                SignallerError::ProtocolNotSet => "Stream protocol not set"@,
            }),
    {
        match self {
            SignallerError::RoomNotSet => "Stream room not set",
            SignallerError::ProtocolNotSet => "Stream protocol not set",
        }
    }
}

/// Whether `m` is the request that the relay take the stream for `room`.
pub open spec fn is_push_stream_message(m: ProtoMessage, room: String) -> bool {
    &&& m.payload == Some(Payload::ServerPushStream(ProtoServerPushStream { room_name: room }))
    &&& m.message_base matches Some(b) && b.payload_type@ == "push-stream-room"@ && b.latency is None
}

/// The message that asks the relay to take the stream for `room`.
pub fn push_stream_room_message(room: String) -> (r: ProtoMessage)
    ensures
        is_push_stream_message(r, room),
{
    create_message(
        Payload::ServerPushStream(ProtoServerPushStream { room_name: room }),
        "push-stream-room",
        None,
    )
}

/// What starting the signaller sends: the push-stream request for the room,
/// once both the room and the stream protocol are set.
pub fn start_message(room: Option<String>, protocol_set: bool) -> (r: Result<ProtoMessage, SignallerError>)
    ensures
        match room {
            None => r == Err::<ProtoMessage, SignallerError>(SignallerError::RoomNotSet),
            Some(name) => if !protocol_set {
                r == Err::<ProtoMessage, SignallerError>(SignallerError::ProtocolNotSet)
            } else {
                r matches Ok(m) && is_push_stream_message(m, name)
            },
        },
{
    match room {
        None => Err(SignallerError::RoomNotSet),
        Some(name) => if !protocol_set {
            Err(SignallerError::ProtocolNotSet)
        } else {
            Ok(push_stream_room_message(name))
        },
    }
}

/// The message that offers the local session description `sdp` to the peer.
pub fn sdp_offer_message(sdp: String) -> (r: ProtoMessage)
    ensures
        r.payload matches Some(Payload::Sdp(p)) && p.sdp matches Some(d) && d.sdp == sdp
            && d.sdp_type@ == "offer"@,
        r.message_base matches Some(b) && b.payload_type@ == "offer"@ && b.latency is None,
{
    create_message(
        Payload::Sdp(
            ProtoSdp {
                sdp: Some(RtcSessionDescriptionInit { sdp, sdp_type: String::from_str("offer") }),
            },
        ),
        "offer",
        None,
    )
}

/// The message that sends a local ICE candidate to the peer.
pub fn ice_candidate_message(candidate: &str, sdp_m_line_index: u32, sdp_mid: Option<String>) -> (r:
    ProtoMessage)
    ensures
        r.payload matches Some(Payload::Ice(p)) && p.candidate matches Some(c) && c.candidate@
            == candidate@ && c.sdp_m_line_index == Some(sdp_m_line_index) && c.sdp_mid == sdp_mid
            && c.username_fragment is None,
        r.message_base matches Some(b) && b.payload_type@ == "ice-candidate"@ && b.latency is None,
{
    create_message(
        Payload::Ice(
            ProtoIce {
                candidate: Some(
                    RtcIceCandidateInit {
                        candidate: String::from_str(candidate),
                        sdp_mid,
                        sdp_m_line_index: Some(sdp_m_line_index),
                        username_fragment: None,
                    },
                ),
            },
        ),
        "ice-candidate",
        None,
    )
}

/// What the signaller does on a message from the relay.
#[derive(Debug, Clone, PartialEq)]
pub enum SignalAction {
    /// Apply the peer's answer, given as SDP text.
    ApplyAnswer(String),
    /// Add the peer's ICE candidate.
    AddIceCandidate { sdp_m_line_index: u32, sdp_mid: Option<String>, candidate: String },
    /// The relay took the stream: request a session.
    RequestSession,
    /// The message carries nothing to act on.
    Nothing,
}

/// Why a message from the relay was refused.
#[derive(Debug, Clone, Copy, PartialEq, Eq)]
pub enum SignalError {
    /// An `answer` message without an SDP payload.
    AnswerNotDecoded,
    /// An `ice-candidate` message without an ICE payload.
    IceNotDecoded,
    /// A `push-stream-ok` message without a push-stream payload.
    PushStreamOkNotDecoded,
}

impl SignalError {
    /// The error's text.
    pub fn message(&self) -> (r: &'static str)
        ensures
            r@ == (match *self {
                SignalError::AnswerNotDecoded => "Failed to decode answer"@,
                SignalError::IceNotDecoded => "Failed to decode ICE candidate"@,
                SignalError::PushStreamOkNotDecoded => "Failed to decode push-stream-ok"@,
            }),
    {
        match self {
            SignalError::AnswerNotDecoded => "Failed to decode answer",
            SignalError::IceNotDecoded => "Failed to decode ICE candidate",
            SignalError::PushStreamOkNotDecoded => "Failed to decode push-stream-ok",
        }
    }
}

/// What to do on an `answer` message: apply the SDP it carries.
pub fn answer_action(msg: ProtoMessage) -> (r: Result<SignalAction, SignalError>)
    ensures
        match msg.payload {
            Some(Payload::Sdp(p)) => match p.sdp {
                Some(d) => r == Ok::<SignalAction, SignalError>(SignalAction::ApplyAnswer(d.sdp)),
                None => r == Ok::<SignalAction, SignalError>(SignalAction::Nothing),
            },
            _ => r == Err::<SignalAction, SignalError>(SignalError::AnswerNotDecoded),
        },
{
    match msg.payload {
        Some(Payload::Sdp(p)) => match p.sdp {
            Some(d) => Ok(SignalAction::ApplyAnswer(d.sdp)),
            None => Ok(SignalAction::Nothing),
        },
        _ => Err(SignalError::AnswerNotDecoded),
    }
}

/// What to do on an `ice-candidate` message: add the candidate it carries,
/// at media line 0 when none is given.
pub fn ice_candidate_action(msg: ProtoMessage) -> (r: Result<SignalAction, SignalError>)
    ensures
        match msg.payload {
            Some(Payload::Ice(p)) => match p.candidate {
                Some(c) => r == Ok::<SignalAction, SignalError>(
                    SignalAction::AddIceCandidate {
                        sdp_m_line_index: match c.sdp_m_line_index {
                            Some(i) => i,
                            None => 0,
                        },
                        sdp_mid: c.sdp_mid,
                        candidate: c.candidate,
                    },
                ),
                None => r == Ok::<SignalAction, SignalError>(SignalAction::Nothing),
            },
            _ => r == Err::<SignalAction, SignalError>(SignalError::IceNotDecoded),
        },
{
    match msg.payload {
        Some(Payload::Ice(p)) => match p.candidate {
            Some(c) => {
                let idx = match c.sdp_m_line_index {
                    Some(i) => i,
                    None => 0,
                };
                Ok(
                    SignalAction::AddIceCandidate {
                        sdp_m_line_index: idx,
                        sdp_mid: c.sdp_mid,
                        candidate: c.candidate,
                    },
                )
            },
            None => Ok(SignalAction::Nothing),
        },
        _ => Err(SignalError::IceNotDecoded),
    }
}

/// What to do on a `push-stream-ok` message: request a session.
pub fn push_stream_ok_action(msg: ProtoMessage) -> (r: Result<SignalAction, SignalError>)
    ensures
        match msg.payload {
            Some(Payload::ServerPushStream(_)) => r == Ok::<SignalAction, SignalError>(
                SignalAction::RequestSession,
            ),
            _ => r == Err::<SignalAction, SignalError>(SignalError::PushStreamOkNotDecoded),
        },
{
    match msg.payload {
        Some(Payload::ServerPushStream(_)) => Ok(SignalAction::RequestSession),
        _ => Err(SignalError::PushStreamOkNotDecoded),
    }
}

/// Whether a Linux gamepad button code is pressed in a changed-buttons map.
pub open spec fn pressed(m: Map<i32, bool>, code: i32) -> bool {
    m.contains_key(code) && m[code]
}

/// `bit` if the button `code` is pressed, else nothing.
pub open spec fn button_bit(m: Map<i32, bool>, code: i32, bit: u16) -> u16 {
    if pressed(m, code) {
        bit
    } else {
        0
    }
}

/// `bit` if `on`, else nothing.
pub open spec fn bit_if(on: bool, bit: u16) -> u16 {
    if on {
        bit
    } else {
        0
    }
}

/// The XInput mask of the buttons held: A 0x1000, B 0x2000, X 0x4000, Y
/// 0x8000, LB 0x0100, RB 0x0200, left stick 0x0040, right stick 0x0080,
/// Start 0x0010, Back 0x0020, Guide 0x0400.
#[verifier::opaque]
pub open spec fn xinput_mask(
    a: bool,
    b: bool,
    x: bool,
    y: bool,
    lb: bool,
    rb: bool,
    ls: bool,
    rs: bool,
    start: bool,
    back: bool,
    guide: bool,
) -> u16 {
    bit_if(a, 0x1000) | bit_if(b, 0x2000) | bit_if(x, 0x4000) | bit_if(y, 0x8000) | bit_if(lb, 0x0100)
        | bit_if(rb, 0x0200) | bit_if(ls, 0x0040) | bit_if(rs, 0x0080) | bit_if(start, 0x0010)
        | bit_if(back, 0x0020) | bit_if(guide, 0x0400)
}

/// The XInput button mask of the pressed Linux gamepad buttons: BTN_SOUTH
/// (304) is A, BTN_EAST (305) B, BTN_NORTH (307) Y, BTN_WEST (308) X, BTN_TL
/// (310) LB, BTN_TR (311) RB, BTN_THUMBL (317) and BTN_THUMBR (318) the stick
/// clicks, BTN_SELECT (314) Back, BTN_START (315) Start and BTN_MODE (316)
/// Guide; other codes count for nothing.
pub open spec fn spec_xinput_buttons(m: Map<i32, bool>) -> u16 {
    xinput_mask(
        pressed(m, 304),
        pressed(m, 305),
        pressed(m, 308),
        pressed(m, 307),
        pressed(m, 310),
        pressed(m, 311),
        pressed(m, 317),
        pressed(m, 318),
        pressed(m, 315),
        pressed(m, 314),
        pressed(m, 316),
    )
}

/// The Linux button codes that have an XInput button.
pub open spec fn is_mapped_button(code: i32) -> bool {
    code == 304 || code == 305 || code == 307 || code == 308 || code == 310 || code == 311 || code
        == 314 || code == 315 || code == 316 || code == 317 || code == 318
}

proof fn lemma_mask_or(
    a1: bool, b1: bool, x1: bool, y1: bool, lb1: bool, rb1: bool, ls1: bool, rs1: bool, st1: bool, bk1: bool, g1: bool,
    a2: bool, b2: bool, x2: bool, y2: bool, lb2: bool, rb2: bool, ls2: bool, rs2: bool, st2: bool, bk2: bool, g2: bool,
)
    ensures
        xinput_mask(a1 || a2, b1 || b2, x1 || x2, y1 || y2, lb1 || lb2, rb1 || rb2, ls1 || ls2, rs1 || rs2, st1 || st2, bk1 || bk2, g1 || g2)
            == xinput_mask(a1, b1, x1, y1, lb1, rb1, ls1, rs1, st1, bk1, g1) | xinput_mask(a2, b2, x2, y2, lb2, rb2, ls2, rs2, st2, bk2, g2),
        xinput_mask(a1, b1, x1, y1, lb1, rb1, ls1, rs1, st1, bk1, g1) & !0xF7F0u16 == 0,
        xinput_mask(false, false, false, false, false, false, false, false, false, false, false) == 0,
{
    reveal(xinput_mask);
    assert(xinput_mask(a1 || a2, b1 || b2, x1 || x2, y1 || y2, lb1 || lb2, rb1 || rb2, ls1 || ls2, rs1 || rs2, st1 || st2, bk1 || bk2, g1 || g2)
            == xinput_mask(a1, b1, x1, y1, lb1, rb1, ls1, rs1, st1, bk1, g1) | xinput_mask(a2, b2, x2, y2, lb2, rb2, ls2, rs2, st2, bk2, g2)) by (bit_vector);
    assert(xinput_mask(a1, b1, x1, y1, lb1, rb1, ls1, rs1, st1, bk1, g1) & !0xF7F0u16 == 0) by (bit_vector);
    assert(xinput_mask(false, false, false, false, false, false, false, false, false, false, false) == 0) by (bit_vector);
}

proof fn lemma_pressed_union(a: Map<i32, bool>, b: Map<i32, bool>, c: i32)
    requires
        a.dom().disjoint(b.dom()),
    ensures
        pressed(a.union_prefer_right(b), c) == (pressed(a, c) || pressed(b, c)),
{
    if b.contains_key(c) {
        assert(!a.dom().contains(c));
    }
}

/// The mask of two button maps with no code in common is the OR of their
/// masks; the mask only ever holds the eleven XInput button bits; an empty map,
/// and any map whose pressed codes have no XInput button, give no bit.
pub proof fn lemma_xinput_buttons_union(a: Map<i32, bool>, b: Map<i32, bool>)
    requires
        a.dom().disjoint(b.dom()),
    ensures
        spec_xinput_buttons(a.union_prefer_right(b)) == spec_xinput_buttons(a) | spec_xinput_buttons(b),
        spec_xinput_buttons(a) & !0xF7F0u16 == 0,
        spec_xinput_buttons(Map::<i32, bool>::empty()) == 0,
        (forall|c: i32| #[trigger] pressed(a, c) ==> !is_mapped_button(c)) ==> spec_xinput_buttons(a) == 0,
{
    lemma_union_mask(a, b);
    lemma_unmapped_mask(a);
    lemma_unmapped_mask(Map::<i32, bool>::empty());
}

#[verifier::rlimit(60)]
proof fn lemma_union_mask(a: Map<i32, bool>, b: Map<i32, bool>)
    requires
        a.dom().disjoint(b.dom()),
    ensures
        spec_xinput_buttons(a.union_prefer_right(b)) == spec_xinput_buttons(a) | spec_xinput_buttons(b),
        spec_xinput_buttons(a) & !0xF7F0u16 == 0,
{
    lemma_pressed_union(a, b, 304);
    lemma_pressed_union(a, b, 305);
    lemma_pressed_union(a, b, 307);
    lemma_pressed_union(a, b, 308);
    lemma_pressed_union(a, b, 310);
    lemma_pressed_union(a, b, 311);
    lemma_pressed_union(a, b, 314);
    lemma_pressed_union(a, b, 315);
    lemma_pressed_union(a, b, 316);
    lemma_pressed_union(a, b, 317);
    lemma_pressed_union(a, b, 318);
    let u = a.union_prefer_right(b);
    assert(spec_xinput_buttons(u) == xinput_mask(
        pressed(a, 304) || pressed(b, 304),
        pressed(a, 305) || pressed(b, 305),
        pressed(a, 308) || pressed(b, 308),
        pressed(a, 307) || pressed(b, 307),
        pressed(a, 310) || pressed(b, 310),
        pressed(a, 311) || pressed(b, 311),
        pressed(a, 317) || pressed(b, 317),
        pressed(a, 318) || pressed(b, 318),
        pressed(a, 315) || pressed(b, 315),
        pressed(a, 314) || pressed(b, 314),
        pressed(a, 316) || pressed(b, 316),
    ));
    lemma_mask_or(
        pressed(a, 304), pressed(a, 305), pressed(a, 308), pressed(a, 307), pressed(a, 310), pressed(a, 311),
        pressed(a, 317), pressed(a, 318), pressed(a, 315), pressed(a, 314), pressed(a, 316),
        pressed(b, 304), pressed(b, 305), pressed(b, 308), pressed(b, 307), pressed(b, 310), pressed(b, 311),
        pressed(b, 317), pressed(b, 318), pressed(b, 315), pressed(b, 314), pressed(b, 316),
    );
}

proof fn lemma_unmapped_mask(a: Map<i32, bool>)
    ensures
        (forall|c: i32| #[trigger] pressed(a, c) ==> !is_mapped_button(c)) ==> spec_xinput_buttons(a) == 0,
{
    if forall|c: i32| #[trigger] pressed(a, c) ==> !is_mapped_button(c) {
        assert(!pressed(a, 304) && !pressed(a, 305) && !pressed(a, 307) && !pressed(a, 308) && !pressed(a, 310)
            && !pressed(a, 311) && !pressed(a, 314) && !pressed(a, 315) && !pressed(a, 316) && !pressed(a, 317)
            && !pressed(a, 318));
        lemma_mask_or(
            false, false, false, false, false, false, false, false, false, false, false,
            false, false, false, false, false, false, false, false, false, false, false,
        );
    }
}

fn bit_if_pressed(buttons: &std::collections::HashMap<i32, bool>, code: i32, bit: u16) -> (r: u16)
    ensures
        r == button_bit(buttons@, code, bit),
{
    match buttons.get(&code) {
        Some(p) => if *p {
            bit
        } else {
            0
        },
        None => 0,
    }
}

/// Maps pressed Linux gamepad button codes (BTN_SOUTH = 304 and on) to the
/// XInput button mask.
pub fn linux_buttons_to_xinput(buttons: &std::collections::HashMap<i32, bool>) -> (r: u16)
    ensures
        r == spec_xinput_buttons(buttons@),
{
    proof {
        reveal(xinput_mask);
    }
    let a = bit_if_pressed(buttons, 304, 0x1000);
    let b = bit_if_pressed(buttons, 305, 0x2000);
    let x = bit_if_pressed(buttons, 308, 0x4000);
    let y = bit_if_pressed(buttons, 307, 0x8000);
    let lb = bit_if_pressed(buttons, 310, 0x0100);
    let rb = bit_if_pressed(buttons, 311, 0x0200);
    let ls = bit_if_pressed(buttons, 317, 0x0040);
    let rs = bit_if_pressed(buttons, 318, 0x0080);
    let start = bit_if_pressed(buttons, 315, 0x0010);
    let back = bit_if_pressed(buttons, 314, 0x0020);
    let guide = bit_if_pressed(buttons, 316, 0x0400);
    a | b | x | y | lb | rb | ls | rs | start | back | guide
}

/// `v` limited to `lo..=hi`.
pub open spec fn clamp(v: i32, lo: i32, hi: i32) -> i32 {
    if v < lo {
        lo
    } else if v > hi {
        hi
    } else {
        v
    }
}

/// A trigger value as the gamepad state takes it: clamped to the `i16` range,
/// then cut to its low byte.
pub open spec fn trigger_value(v: Option<i32>) -> u8 {
    clamp(
        match v {
            Some(x) => x,
            None => 0,
        },
        -32768i32,
        32767i32,
    ) as u8
}

/// An axis value as the gamepad state takes it: cut to its low 16 bits.
pub open spec fn axis_value(v: Option<i32>) -> i16 {
    (match v {
        Some(x) => x,
        None => 0,
    }) as i16
}

/// The gamepad state a controller batch describes.
pub open spec fn spec_gamepad_state(b: ProtoControllerStateBatch) -> InputEvent {
    InputEvent::GamepadState {
        slot: b.session_slot as u8,
        buttons: spec_xinput_buttons(b.button_changed_mask@),
        left_trigger: trigger_value(b.left_trigger),
        right_trigger: trigger_value(b.right_trigger),
        left_x: axis_value(b.left_stick_x),
        left_y: axis_value(b.left_stick_y),
        right_x: axis_value(b.right_stick_x),
        right_y: axis_value(b.right_stick_y),
    }
}

/// The input event a payload stands for: key presses, mouse motion, wheel and
/// buttons, and gamepad state; other payloads stand for none.
pub open spec fn spec_input_event(payload: Payload) -> Option<InputEvent> {
    match payload {
        Payload::KeyDown(k) => Some(
            InputEvent::KeyDown { key_code: k.key as u16, scan_code: k.key as u16 },
        ),
        Payload::KeyUp(k) => Some(InputEvent::KeyUp { key_code: k.key as u16, scan_code: k.key as u16 }),
        Payload::MouseMove(m) => Some(
            InputEvent::MouseMove { dx: m.x, dy: m.y, absolute: false, x: 0, y: 0 },
        ),
        Payload::MouseMoveAbs(m) => Some(
            InputEvent::MouseMove { dx: 0, dy: 0, absolute: true, x: m.x, y: m.y },
        ),
        Payload::MouseWheel(w) => Some(InputEvent::MouseWheel { delta: w.y }),
        Payload::MouseKeyDown(k) => Some(InputEvent::MouseButtonDown { button: k.key as u8 }),
        Payload::MouseKeyUp(k) => Some(InputEvent::MouseButtonUp { button: k.key as u8 }),
        Payload::ControllerStateBatch(b) => Some(spec_gamepad_state(b)),
        _ => None,
    }
}

/// What each input message means on the host: a key press is a key press and
/// a release a release, of the key the message names (its low 16 bits); a
/// mouse button press is a button press and a release a release, of the button
/// the message names (its low byte); relative motion moves by the message's
/// deltas, absolute motion moves to its position; the wheel turns by the
/// vertical amount; a gamepad batch gives the state of the slot it names, with
/// triggers in `0..=255` and stick values in the `i16` range taken as they are
/// and absent ones as 0; every other message is no input.
pub proof fn lemma_input_event_meaning(k: i32, x: i32, y: i32, b: ProtoControllerStateBatch, other: Payload)
    ensures
        spec_input_event(Payload::KeyDown(ProtoKeyDown { key: k })) == Some(
            InputEvent::KeyDown { key_code: k as u16, scan_code: k as u16 },
        ),
        spec_input_event(Payload::KeyUp(ProtoKeyUp { key: k })) == Some(
            InputEvent::KeyUp { key_code: k as u16, scan_code: k as u16 },
        ),
        spec_input_event(Payload::MouseKeyDown(ProtoMouseKeyDown { key: k })) == Some(
            InputEvent::MouseButtonDown { button: k as u8 },
        ),
        spec_input_event(Payload::MouseKeyUp(ProtoMouseKeyUp { key: k })) == Some(
            InputEvent::MouseButtonUp { button: k as u8 },
        ),
        spec_input_event(Payload::MouseMove(ProtoMouseMove { x, y })) == Some(
            InputEvent::MouseMove { dx: x, dy: y, absolute: false, x: 0, y: 0 },
        ),
        spec_input_event(Payload::MouseMoveAbs(ProtoMouseMoveAbs { x, y })) == Some(
            InputEvent::MouseMove { dx: 0, dy: 0, absolute: true, x, y },
        ),
        spec_input_event(Payload::MouseWheel(ProtoMouseWheel { x, y })) == Some(
            InputEvent::MouseWheel { delta: y },
        ),
        spec_input_event(Payload::ControllerStateBatch(b)) matches Some(
            InputEvent::GamepadState { slot, buttons, left_trigger, right_trigger, left_x, left_y, right_x, right_y },
        ) && slot == b.session_slot as u8 && buttons == spec_xinput_buttons(b.button_changed_mask@)
            && (b.left_trigger matches Some(t) ==> (0 <= t <= 255 ==> left_trigger == t))
            && (b.right_trigger matches Some(t) ==> (0 <= t <= 255 ==> right_trigger == t))
            && (b.left_trigger is None ==> left_trigger == 0)
            && (b.right_trigger is None ==> right_trigger == 0)
            && (b.left_stick_x matches Some(v) ==> (-32768 <= v <= 32767 ==> left_x == v))
            && (b.left_stick_y matches Some(v) ==> (-32768 <= v <= 32767 ==> left_y == v))
            && (b.right_stick_x matches Some(v) ==> (-32768 <= v <= 32767 ==> right_x == v))
            && (b.right_stick_y matches Some(v) ==> (-32768 <= v <= 32767 ==> right_y == v))
            && (b.left_stick_x is None ==> left_x == 0)
            && (b.left_stick_y is None ==> left_y == 0)
            && (b.right_stick_x is None ==> right_x == 0)
            && (b.right_stick_y is None ==> right_y == 0),
        !(other is KeyDown || other is KeyUp || other is MouseKeyDown || other is MouseKeyUp
            || other is MouseMove || other is MouseMoveAbs || other is MouseWheel
            || other is ControllerStateBatch) ==> spec_input_event(other) is None,
{
    let e = spec_input_event(Payload::ControllerStateBatch(b));
    if let Some(t) = b.left_trigger {
        if 0 <= t <= 255 {
            assert(t as u8 == t) by (bit_vector)
                requires
                    0 <= t <= 255,
            ;
        }
    }
    if let Some(t) = b.right_trigger {
        if 0 <= t <= 255 {
            assert(t as u8 == t) by (bit_vector)
                requires
                    0 <= t <= 255,
            ;
        }
    }
    if let Some(v) = b.left_stick_x {
        if -32768 <= v <= 32767 {
            assert(v as i16 == v) by (bit_vector)
                requires
                    -32768 <= v <= 32767,
            ;
        }
    }
    if let Some(v) = b.left_stick_y {
        if -32768 <= v <= 32767 {
            assert(v as i16 == v) by (bit_vector)
                requires
                    -32768 <= v <= 32767,
            ;
        }
    }
    if let Some(v) = b.right_stick_x {
        if -32768 <= v <= 32767 {
            assert(v as i16 == v) by (bit_vector)
                requires
                    -32768 <= v <= 32767,
            ;
        }
    }
    if let Some(v) = b.right_stick_y {
        if -32768 <= v <= 32767 {
            assert(v as i16 == v) by (bit_vector)
                requires
                    -32768 <= v <= 32767,
            ;
        }
    }
    assert((0i32 as u8) == 0u8) by (bit_vector);
    assert((0i32 as i16) == 0i16) by (bit_vector);
}

fn clamp_exec(v: i32, lo: i32, hi: i32) -> (r: i32)
    ensures
        r == clamp(v, lo, hi),
{
    if v < lo {
        lo
    } else if v > hi {
        hi
    } else {
        v
    }
}

fn or_zero(v: Option<i32>) -> (r: i32)
    ensures
        r == (match v {
            Some(x) => x,
            None => 0,
        }),
{
    match v {
        Some(x) => x,
        None => 0,
    }
}

/// The input event a payload stands for, if any.
pub fn proto_payload_to_input_event(payload: Payload) -> (r: Option<InputEvent>)
    ensures
        r == spec_input_event(payload),
{
    match payload {
        Payload::KeyDown(k) => Some(
            InputEvent::KeyDown { key_code: k.key as u16, scan_code: k.key as u16 },
        ),
        Payload::KeyUp(k) => Some(InputEvent::KeyUp { key_code: k.key as u16, scan_code: k.key as u16 }),
        Payload::MouseMove(m) => Some(
            InputEvent::MouseMove { dx: m.x, dy: m.y, absolute: false, x: 0, y: 0 },
        ),
        Payload::MouseMoveAbs(m) => Some(
            InputEvent::MouseMove { dx: 0, dy: 0, absolute: true, x: m.x, y: m.y },
        ),
        Payload::MouseWheel(w) => Some(InputEvent::MouseWheel { delta: w.y }),
        Payload::MouseKeyDown(k) => Some(InputEvent::MouseButtonDown { button: k.key as u8 }),
        Payload::MouseKeyUp(k) => Some(InputEvent::MouseButtonUp { button: k.key as u8 }),
        Payload::ControllerStateBatch(b) => {
            let buttons = linux_buttons_to_xinput(&b.button_changed_mask);
            Some(
                InputEvent::GamepadState {
                    slot: b.session_slot as u8,
                    buttons,
                    left_trigger: clamp_exec(or_zero(b.left_trigger), -32768, 32767) as u8,
                    right_trigger: clamp_exec(or_zero(b.right_trigger), -32768, 32767) as u8,
                    left_x: or_zero(b.left_stick_x) as i16,
                    left_y: or_zero(b.left_stick_y) as i16,
                    right_x: or_zero(b.right_stick_x) as i16,
                    right_y: or_zero(b.right_stick_y) as i16,
                },
            )
        },
        _ => None,
    }
}

/// The input event a data channel message stands for: only messages labelled
/// `input` with a payload carry one.
pub open spec fn spec_message_input_event(msg: ProtoMessage) -> Option<InputEvent> {
    match msg.message_base {
        Some(b) => if b.payload_type@ == "input"@ {
            match msg.payload {
                Some(p) => spec_input_event(p),
                None => None,
            }
        } else {
            None
        },
        None => None,
    }
}

/// The input event a data channel message stands for, if any.
pub fn input_event_for_message(msg: ProtoMessage) -> (r: Option<InputEvent>)
    ensures
        r == spec_message_input_event(msg),
{
    let is_input = match &msg.message_base {
        Some(b) => str_eq(b.payload_type.as_str(), "input"),
        None => false,
    };
    if !is_input {
        return None;
    }
    match msg.payload {
        Some(p) => proto_payload_to_input_event(p),
        None => None,
    }
}

/// The message that tells the client to rumble the gamepad in `slot`.
pub fn rumble_message(slot: u8, strong: u8, weak: u8, duration_ms: u32, session_id: String) -> (r:
    ProtoMessage)
    ensures
        r.payload == Some(
            Payload::ControllerRumble(
                ProtoControllerRumble {
                    session_slot: slot as i32,
                    session_id,
                    low_frequency: strong as i32,
                    high_frequency: weak as i32,
                    duration: duration_ms as i32,
                },
            ),
        ),
        r.message_base matches Some(b) && b.payload_type@ == "controller-rumble"@ && b.latency is None,
{
    create_message(
        Payload::ControllerRumble(
            ProtoControllerRumble {
                session_slot: slot as i32,
                session_id,
                low_frequency: strong as i32,
                high_frequency: weak as i32,
                duration: duration_ms as i32,
            },
        ),
        "controller-rumble",
        None,
    )
}

} // verus!
