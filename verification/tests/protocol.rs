use nestri_server::p2p::p2p_protocol_stream::{dispatch_key, needs_start, read_step, Callback, ReadStep};
use nestri_server::proto::create_message;
use nestri_server::proto::proto::proto_message::Payload;
use nestri_server::proto::proto::{ProtoMessage, ProtoRaw};
use nestri_server::server::pipeline_description;

#[test]
fn callback_runs_handler_and_clones_share_it() {
    let cb = Callback::new(|m: ProtoMessage| m.message_base.map(|b| b.payload_type.len()));
    let msg = create_message(Payload::Raw(ProtoRaw::default()), "answer", None);
    let copy = cb.clone();
    assert_eq!(copy.call(msg.clone()), Some(6));
    assert_eq!(cb.call(ProtoMessage::default()), None);
}

#[test]
fn dispatch_by_payload_type() {
    let msg = create_message(Payload::Raw(ProtoRaw::default()), "ice-candidate", None);
    assert_eq!(dispatch_key(&msg), Some("ice-candidate"));
    assert_eq!(dispatch_key(&ProtoMessage::default()), None);
}

#[test]
fn restart_only_when_not_running() {
    assert!(!needs_start(true, true, true));
    assert!(needs_start(true, false, true));
    assert!(needs_start(false, false, false));
}

#[test]
fn pipeline_for_nvenc() {
    assert_eq!(
        pipeline_description(0, 60, "nvh264enc", 8000),
        "d3d11screencapturesrc monitor-index=0 ! video/x-raw(memory:D3D11Memory),framerate=60/1 ! d3d11convert ! nvh264enc bitrate=8000 ! h264parse ! rtph264pay pt=96 config-interval=-1 ! webrtcbin name=sendrecv bundle-policy=max-bundle stun-server=stun://stun.l.google.com:19302"
    );
}

#[test]
fn read_loop_steps() {
    let m = create_message(Payload::Raw(ProtoRaw { data: "x".to_string() }), "answer", None);
    assert_eq!(read_step(false, Some(&m)), ReadStep::Stop);
    assert_eq!(read_step(true, None), ReadStep::SkipUndecodable);
    assert_eq!(read_step(true, Some(&ProtoMessage::default())), ReadStep::SkipNoBase);
    assert_eq!(read_step(true, Some(&m)), ReadStep::Dispatch("answer".to_string()));
}
