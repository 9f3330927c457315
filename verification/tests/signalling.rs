use std::collections::HashMap;

use nestri_server::input::controller::{ControllerManager, InputEvent, RumbleEvent};
use nestri_server::nestrisink::{
    answer_action, ice_candidate_action, ice_candidate_message, input_event_for_message,
    linux_buttons_to_xinput, proto_payload_to_input_event, push_stream_ok_action,
    rumble_message, sdp_offer_message, start_message, SignalAction, SignalError, SignallerError,
};
use nestri_server::proto::create_message;
use nestri_server::proto::proto::proto_controller_state_batch::UpdateType;
use nestri_server::proto::proto::proto_message::Payload;
use nestri_server::proto::proto::{
    ProtoControllerStateBatch, ProtoIce, ProtoKeyDown, ProtoMessage, ProtoMouseKeyUp,
    ProtoMouseMove, ProtoMouseMoveAbs, ProtoMouseWheel, ProtoRaw, ProtoSdp,
    ProtoServerPushStream, RtcIceCandidateInit, RtcSessionDescriptionInit,
};

fn base_type(m: &ProtoMessage) -> String {
    m.message_base.as_ref().unwrap().payload_type.clone()
}

#[test]
fn create_message_labels_payload() {
    let m = create_message(Payload::Raw(ProtoRaw { data: "x".to_string() }), "raw", None);
    assert_eq!(base_type(&m), "raw");
    assert!(m.message_base.as_ref().unwrap().latency.is_none());
    assert_eq!(m.payload, Some(Payload::Raw(ProtoRaw { data: "x".to_string() })));
}

#[test]
fn start_sends_push_stream_room() {
    let m = start_message(Some("living-room".to_string()), true).unwrap();
    assert_eq!(base_type(&m), "push-stream-room");
    assert_eq!(
        m.payload,
        Some(Payload::ServerPushStream(ProtoServerPushStream { room_name: "living-room".to_string() }))
    );
    assert_eq!(start_message(None, true).map(|_| ()), Err(SignallerError::RoomNotSet));
    assert_eq!(
        start_message(Some("r".to_string()), false).map(|_| ()),
        Err(SignallerError::ProtocolNotSet)
    );
}

#[test]
fn offer_and_ice_messages() {
    let m = sdp_offer_message("v=0".to_string());
    assert_eq!(base_type(&m), "offer");
    match m.payload {
        Some(Payload::Sdp(ProtoSdp { sdp: Some(d) })) => {
            assert_eq!(d.sdp, "v=0");
            assert_eq!(d.sdp_type, "offer");
        }
        other => panic!("unexpected payload {:?}", other),
    }
    let m = ice_candidate_message("candidate:1", 2, Some("0".to_string()));
    assert_eq!(base_type(&m), "ice-candidate");
    match m.payload {
        Some(Payload::Ice(ProtoIce { candidate: Some(c) })) => {
            assert_eq!(c.candidate, "candidate:1");
            assert_eq!(c.sdp_m_line_index, Some(2));
            assert_eq!(c.sdp_mid, Some("0".to_string()));
            assert_eq!(c.username_fragment, None);
        }
        other => panic!("unexpected payload {:?}", other),
    }
}

#[test]
fn incoming_answer() {
    let sdp = RtcSessionDescriptionInit { sdp: "v=0 answer".to_string(), sdp_type: "answer".to_string() };
    let m = create_message(Payload::Sdp(ProtoSdp { sdp: Some(sdp) }), "answer", None);
    assert_eq!(answer_action(m), Ok(SignalAction::ApplyAnswer("v=0 answer".to_string())));
    let m = create_message(Payload::Sdp(ProtoSdp { sdp: None }), "answer", None);
    assert_eq!(answer_action(m), Ok(SignalAction::Nothing));
    let m = create_message(Payload::Raw(ProtoRaw::default()), "answer", None);
    assert_eq!(answer_action(m), Err(SignalError::AnswerNotDecoded));
}

#[test]
fn incoming_ice_candidate() {
    let c = RtcIceCandidateInit {
        candidate: "candidate:9".to_string(),
        sdp_m_line_index: None,
        sdp_mid: Some("video".to_string()),
        username_fragment: None,
    };
    let m = create_message(Payload::Ice(ProtoIce { candidate: Some(c) }), "ice-candidate", None);
    assert_eq!(
        ice_candidate_action(m),
        Ok(SignalAction::AddIceCandidate {
            sdp_m_line_index: 0,
            sdp_mid: Some("video".to_string()),
            candidate: "candidate:9".to_string(),
        })
    );
    let m = create_message(Payload::Raw(ProtoRaw::default()), "ice-candidate", None);
    assert_eq!(ice_candidate_action(m), Err(SignalError::IceNotDecoded));
}

#[test]
fn incoming_push_stream_ok() {
    let m = create_message(
        Payload::ServerPushStream(ProtoServerPushStream { room_name: "r".to_string() }),
        "push-stream-ok",
        None,
    );
    assert_eq!(push_stream_ok_action(m), Ok(SignalAction::RequestSession));
    let m = create_message(Payload::Raw(ProtoRaw::default()), "push-stream-ok", None);
    assert_eq!(push_stream_ok_action(m), Err(SignalError::PushStreamOkNotDecoded));
}

#[test]
fn keyboard_and_mouse_events() {
    assert_eq!(
        proto_payload_to_input_event(Payload::KeyDown(ProtoKeyDown { key: 65 })),
        Some(InputEvent::KeyDown { key_code: 65, scan_code: 65 })
    );
    assert_eq!(
        proto_payload_to_input_event(Payload::KeyDown(ProtoKeyDown { key: 0x1_0041 })),
        Some(InputEvent::KeyDown { key_code: 0x41, scan_code: 0x41 })
    );
    assert_eq!(
        proto_payload_to_input_event(Payload::MouseMove(ProtoMouseMove { x: -3, y: 4 })),
        Some(InputEvent::MouseMove { dx: -3, dy: 4, absolute: false, x: 0, y: 0 })
    );
    assert_eq!(
        proto_payload_to_input_event(Payload::MouseMoveAbs(ProtoMouseMoveAbs { x: 100, y: 200 })),
        Some(InputEvent::MouseMove { dx: 0, dy: 0, absolute: true, x: 100, y: 200 })
    );
    assert_eq!(
        proto_payload_to_input_event(Payload::MouseWheel(ProtoMouseWheel { x: 1, y: -120 })),
        Some(InputEvent::MouseWheel { delta: -120 })
    );
    assert_eq!(
        proto_payload_to_input_event(Payload::MouseKeyUp(ProtoMouseKeyUp { key: 2 })),
        Some(InputEvent::MouseButtonUp { button: 2 })
    );
    assert_eq!(proto_payload_to_input_event(Payload::Raw(ProtoRaw::default())), None);
}

#[test]
fn gamepad_state_from_batch() {
    let mut buttons = HashMap::new();
    buttons.insert(304, true);
    buttons.insert(305, false);
    buttons.insert(315, true);
    buttons.insert(999, true);
    let batch = ProtoControllerStateBatch {
        session_slot: 1,
        update_type: UpdateType::Delta as i32,
        button_changed_mask: buttons,
        left_trigger: Some(40000),
        right_trigger: Some(200),
        left_stick_x: Some(-5),
        right_stick_y: Some(70000),
        ..Default::default()
    };
    assert_eq!(
        proto_payload_to_input_event(Payload::ControllerStateBatch(batch)),
        Some(InputEvent::GamepadState {
            slot: 1,
            buttons: 0x1000 | 0x0010,
            left_trigger: 32767i32 as u8,
            right_trigger: 200,
            left_x: -5,
            left_y: 0,
            right_x: 0,
            right_y: 70000i32 as i16,
        })
    );
}

#[test]
fn xinput_mask_of_every_button() {
    let mut m = HashMap::new();
    for code in [304, 305, 307, 308, 310, 311, 314, 315, 316, 317, 318] {
        m.insert(code, true);
    }
    assert_eq!(linux_buttons_to_xinput(&m), 0xF7F0);
    assert_eq!(linux_buttons_to_xinput(&HashMap::new()), 0);
}

#[test]
fn only_input_messages_are_dispatched() {
    let m = create_message(Payload::KeyDown(ProtoKeyDown { key: 13 }), "input", None);
    assert_eq!(input_event_for_message(m), Some(InputEvent::KeyDown { key_code: 13, scan_code: 13 }));
    let m = create_message(Payload::KeyDown(ProtoKeyDown { key: 13 }), "other", None);
    assert_eq!(input_event_for_message(m), None);
    assert_eq!(input_event_for_message(ProtoMessage::default()), None);
}

#[test]
fn rumble_message_payload() {
    let m = rumble_message(2, 255, 10, 500, "session".to_string());
    assert_eq!(base_type(&m), "controller-rumble");
    match m.payload {
        Some(Payload::ControllerRumble(r)) => {
            assert_eq!(r.session_slot, 2);
            assert_eq!(r.low_frequency, 255);
            assert_eq!(r.high_frequency, 10);
            assert_eq!(r.duration, 500);
            assert_eq!(r.session_id, "session");
        }
        other => panic!("unexpected payload {:?}", other),
    }
}

#[test]
fn update_type_names() {
    assert_eq!(UpdateType::FullState.as_str_name(), "FULL_STATE");
    assert_eq!(UpdateType::Delta.as_str_name(), "DELTA");
}

#[test]
fn controller_values() {
    let _manager = ControllerManager::new();
    let r = RumbleEvent { large_motor: 1, small_motor: 2 };
    assert_eq!(r.large_motor + r.small_motor, 3);
}

#[test]
fn xinput_face_and_menu_buttons() {
    let one = |code: i32| {
        let mut m = HashMap::new();
        m.insert(code, true);
        linux_buttons_to_xinput(&m)
    };
    assert_eq!(one(304), 0x1000);
    assert_eq!(one(305), 0x2000);
    assert_eq!(one(307), 0x8000);
    assert_eq!(one(308), 0x4000);
    assert_eq!(one(314), 0x0020);
    assert_eq!(one(315), 0x0010);
    assert_eq!(one(316), 0x0400);
    assert_eq!(one(999), 0);
}

#[test]
fn xinput_mask_of_disjoint_maps_is_or() {
    let mut a = HashMap::new();
    a.insert(304, true);
    a.insert(307, true);
    a.insert(310, false);
    let mut b = HashMap::new();
    b.insert(314, true);
    b.insert(318, true);
    b.insert(12, true);
    let mut u = a.clone();
    u.extend(b.clone());
    assert_eq!(linux_buttons_to_xinput(&u), linux_buttons_to_xinput(&a) | linux_buttons_to_xinput(&b));
    assert_eq!(linux_buttons_to_xinput(&u) & !0xF7F0, 0);
    let mut off = HashMap::new();
    off.insert(304, false);
    off.insert(999, true);
    assert_eq!(linux_buttons_to_xinput(&off), 0);
}

#[test]
fn signalling_error_texts() {
    assert_eq!(SignalError::AnswerNotDecoded.message(), "Failed to decode answer");
    assert_eq!(SignalError::IceNotDecoded.message(), "Failed to decode ICE candidate");
    assert_eq!(SignalError::PushStreamOkNotDecoded.message(), "Failed to decode push-stream-ok");
    assert_eq!(SignallerError::RoomNotSet.message(), "Stream room not set");
    assert_eq!(SignallerError::ProtocolNotSet.message(), "Stream protocol not set");
}
