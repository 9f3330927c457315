use nestri_server::enc_helper::{
    candidates_for, encoder_type_from_arg, get_best_working_encoder, get_compatible_encoders,
    EncoderAPI, EncoderError, EncoderType, VideoCodec, VideoEncoderInfo,
};
use nestri_server::gpu::{GPUInfo, GPUVendor};

fn gpu(vendor: GPUVendor, idx: u32) -> GPUInfo {
    GPUInfo {
        vendor,
        adapter_idx: idx,
        device_name: "gpu".to_string(),
        vendor_id: "0000".to_string(),
        device_id: "0000".to_string(),
        vram_mb: 0,
    }
}

fn enc(name: &str, codec: VideoCodec, t: EncoderType) -> VideoEncoderInfo {
    VideoEncoderInfo { name: name.to_string(), codec, encoder_type: t, encoder_api: EncoderAPI::UNKNOWN }
}

#[test]
fn codec_names() {
    assert_eq!("H264".parse::<VideoCodec>(), Ok(VideoCodec::H264));
    assert_eq!("avc".parse::<VideoCodec>(), Ok(VideoCodec::H264));
    assert_eq!("HEVC".parse::<VideoCodec>(), Ok(VideoCodec::H265));
    assert_eq!("h.265".parse::<VideoCodec>(), Ok(VideoCodec::H265));
    assert_eq!("Av1".parse::<VideoCodec>(), Ok(VideoCodec::AV1));
    assert_eq!("vp9".parse::<VideoCodec>(), Err("Unknown codec: vp9".to_string()));
}

#[test]
fn api_names() {
    assert_eq!(EncoderAPI::NVENC.to_str(), "NVIDIA NVENC");
    assert_eq!(EncoderAPI::MF.to_str(), "Windows Media Foundation");
    assert_eq!(EncoderAPI::SOFTWARE.to_str(), "Software (x264)");
}

#[test]
fn nvidia_candidates_in_order() {
    let names: Vec<&str> = candidates_for(&GPUVendor::NVIDIA).iter().map(|c| c.name).collect();
    assert_eq!(names, vec!["nvh264enc", "nvh265enc", "mfh264enc", "x264enc"]);
    let names: Vec<&str> = candidates_for(&GPUVendor::UNKNOWN).iter().map(|c| c.name).collect();
    assert_eq!(names, vec!["mfh264enc", "x264enc", "openh264enc"]);
}

#[test]
fn compatible_encoders_follow_primary_gpu_and_registry() {
    let gpus = vec![gpu(GPUVendor::INTEL, 0), gpu(GPUVendor::NVIDIA, 1)];
    let available = vec!["x264enc".to_string(), "nvh264enc".to_string(), "qsvh264enc".to_string()];
    let encs = get_compatible_encoders(&gpus, &available);
    let names: Vec<&str> = encs.iter().map(|e| e.name.as_str()).collect();
    assert_eq!(names, vec!["nvh264enc", "x264enc"]);
    assert_eq!(encs[0].encoder_type, EncoderType::HARDWARE);
    assert_eq!(encs[0].encoder_api, EncoderAPI::NVENC);
    assert_eq!(encs[1].encoder_type, EncoderType::SOFTWARE);
}

#[test]
fn no_gpu_means_generic_candidates() {
    let available = vec!["openh264enc".to_string()];
    let encs = get_compatible_encoders(&[], &available);
    assert_eq!(encs.len(), 1);
    assert_eq!(encs[0].name, "openh264enc");
}

#[test]
fn best_encoder_filters_codec_then_type() {
    let encs = vec![
        enc("x264enc", VideoCodec::H264, EncoderType::SOFTWARE),
        enc("nvh265enc", VideoCodec::H265, EncoderType::HARDWARE),
        enc("nvh264enc", VideoCodec::H264, EncoderType::HARDWARE),
    ];
    let e = get_best_working_encoder(&encs, &Some(VideoCodec::H264), &Some(EncoderType::HARDWARE)).unwrap();
    assert_eq!(e.name, "nvh264enc");
    let e = get_best_working_encoder(&encs, &None, &None).unwrap();
    assert_eq!(e.name, "x264enc");
    let e = get_best_working_encoder(&encs, &Some(VideoCodec::H265), &Some(EncoderType::SOFTWARE)).unwrap();
    assert_eq!(e.name, "nvh265enc");
}

#[test]
fn best_encoder_fails_without_codec() {
    let encs = vec![enc("x264enc", VideoCodec::H264, EncoderType::SOFTWARE)];
    assert_eq!(
        get_best_working_encoder(&encs, &Some(VideoCodec::AV1), &None).map(|e| e.name),
        Err(EncoderError::NoSuitableEncoder)
    );
    assert!(get_best_working_encoder(&[], &None, &None).is_err());
}

#[test]
fn encoder_type_argument() {
    assert_eq!(encoder_type_from_arg("hardware"), EncoderType::HARDWARE);
    assert_eq!(encoder_type_from_arg("HardWare"), EncoderType::HARDWARE);
    assert_eq!(encoder_type_from_arg("software"), EncoderType::SOFTWARE);
    assert_eq!(encoder_type_from_arg("hard"), EncoderType::SOFTWARE);
}

#[test]
fn codec_from_lower_case_name() {
    assert_eq!(VideoCodec::from_lower_name("avc"), Some(VideoCodec::H264));
    assert_eq!(VideoCodec::from_lower_name("h.265"), Some(VideoCodec::H265));
    assert_eq!(VideoCodec::from_lower_name("hevc"), Some(VideoCodec::H265));
    assert_eq!(VideoCodec::from_lower_name("av1"), Some(VideoCodec::AV1));
    assert_eq!(VideoCodec::from_lower_name("HEVC"), None);
    assert_eq!(VideoCodec::from_lower_name("vp9"), None);
}

#[test]
fn encoder_error_text() {
    assert_eq!(EncoderError::NoSuitableEncoder.message(), "No suitable encoder found");
}
