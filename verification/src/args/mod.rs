//! The server's command-line configuration, as plain values.
use vstd::prelude::*;

pub mod encoding_args;

use self::encoding_args::{spec_rate_control, LatencyControl, RateControl};
use crate::enc_helper::{EncoderType, VideoCodec};

verus! {

#[derive(Debug, Clone)]
pub struct Args {
    pub app: AppArgs,
    pub device: DeviceArgs,
    pub encoding: EncodingArgs,
}

#[derive(Debug, Clone)]
pub struct AppArgs {
    /// Relay server URL (libp2p multiaddr).
    pub relay_url: String,
    /// Stream room name.
    pub room: String,
    /// Target framerate.
    pub framerate: u32,
    /// Verbose logging.
    pub verbose: bool,
    /// Monitor index to capture (0 = primary).
    pub monitor_index: u32,
    /// Hardware zero-copy path (experimental).
    pub zero_copy: bool,
}

#[derive(Debug, Clone)]
pub struct DeviceArgs {
    /// GPU vendor to use (nvidia/amd/intel).
    pub gpu_vendor: Option<String>,
    /// GPU device name substring filter.
    pub gpu_name: Option<String>,
    /// GPU adapter index (0-based, from DXGI).
    pub gpu_index: Option<u32>,
}

#[derive(Debug, Clone)]
pub struct EncodingArgs {
    pub video: VideoEncodingArgs,
    pub audio: AudioEncodingArgs,
}

#[derive(Debug, Clone)]
pub struct VideoEncodingArgs {
    /// A specific encoder to force (e.g. nvh264enc, mfh264enc, x264enc).
    pub encoder: Option<String>,
    /// Preferred video codec.
    pub codec: Option<VideoCodec>,
    /// Hardware or software encoding.
    pub encoder_type: Option<EncoderType>,
    /// Latency vs quality trade-off.
    pub latency_control: LatencyControl,
    /// Rate control mode text, such as `cbr:8000`.
    pub rate_control_str: String,
    /// Keyframe interval in seconds.
    pub keyframe_dist_secs: u32,
}

impl VideoEncodingArgs {
    /// The rate control mode the text option names.
    pub fn rate_control(&self) -> (r: RateControl)
        ensures
            r == spec_rate_control(self.rate_control_str@),
    {
        RateControl::parse(self.rate_control_str.as_str())
    }
}

#[derive(Debug, Clone)]
pub struct AudioEncodingArgs {
    /// Audio encoder name to force.
    pub encoder: Option<String>,
    /// Audio bitrate in kbps.
    pub bitrate_kbps: u32,
}

} // verus!
