use nestri_server::args::encoding_args::{
    CbrConfig, CqpConfig, LatencyControl, RateControl, VbrConfig,
};
use nestri_server::args::{AudioEncodingArgs, VideoEncodingArgs};
use nestri_server::enc_helper::{EncoderType, VideoCodec};
use nestri_server::server::stream_bitrate;

#[test]
fn rate_control_forms() {
    assert_eq!(RateControl::parse("cbr:8000"), RateControl::CBR(CbrConfig { target_bitrate: 8000 }));
    assert_eq!(
        RateControl::parse("vbr:6000:12000"),
        RateControl::VBR(VbrConfig { target_bitrate: 6000, max_bitrate: 12000 })
    );
    assert_eq!(RateControl::parse("cqp:28"), RateControl::CQP(CqpConfig { quality: 28 }));
    assert_eq!(RateControl::parse("cbr:20000"), RateControl::CBR(CbrConfig { target_bitrate: 20000 }));
}

#[test]
fn rate_control_defaults() {
    assert_eq!(RateControl::parse("cbr:fast"), RateControl::CBR(CbrConfig { target_bitrate: 8000 }));
    assert_eq!(
        RateControl::parse("vbr:x:9000"),
        RateControl::VBR(VbrConfig { target_bitrate: 6000, max_bitrate: 9000 })
    );
    assert_eq!(RateControl::parse("cqp:"), RateControl::CQP(CqpConfig { quality: 28 }));
    assert_eq!(RateControl::parse("abr:1"), RateControl::CBR(CbrConfig { target_bitrate: 8000 }));
    assert_eq!(RateControl::parse("cbr:1:2"), RateControl::CBR(CbrConfig { target_bitrate: 8000 }));
    assert_eq!(RateControl::parse(""), RateControl::CBR(CbrConfig { target_bitrate: 8000 }));
}

#[test]
fn video_args_rate_control() {
    let v = VideoEncodingArgs {
        encoder: None,
        codec: Some(VideoCodec::H264),
        encoder_type: Some(EncoderType::HARDWARE),
        latency_control: LatencyControl::default(),
        rate_control_str: "vbr:5000:9000".to_string(),
        keyframe_dist_secs: 2,
    };
    assert_eq!(v.rate_control(), RateControl::VBR(VbrConfig { target_bitrate: 5000, max_bitrate: 9000 }));
    assert_eq!(v.latency_control, LatencyControl::LowestLatency);
    let a = AudioEncodingArgs { encoder: None, bitrate_kbps: 128 };
    assert_eq!(a.bitrate_kbps, 128);
}

#[test]
fn stream_bitrate_per_mode() {
    assert_eq!(stream_bitrate(&RateControl::parse("cbr:12000")), 12000);
    assert_eq!(stream_bitrate(&RateControl::parse("vbr:5000:9000")), 5000);
    assert_eq!(stream_bitrate(&RateControl::parse("cqp:20")), 8000);
}

#[test]
fn rate_control_reads_back_printed_numbers() {
    for (t, m, q) in [(0u32, 1u32, 2u32), (5000, 9000, 28), (u32::MAX, 12345, u32::MAX)] {
        assert_eq!(RateControl::parse(&format!("cbr:{t}")), RateControl::CBR(CbrConfig { target_bitrate: t }));
        assert_eq!(
            RateControl::parse(&format!("vbr:{t}:{m}")),
            RateControl::VBR(VbrConfig { target_bitrate: t, max_bitrate: m })
        );
        assert_eq!(RateControl::parse(&format!("cqp:{q}")), RateControl::CQP(CqpConfig { quality: q }));
    }
}
