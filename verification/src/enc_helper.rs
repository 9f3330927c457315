//! Video encoder selection: which GStreamer encoders suit the machine's GPU,
//! and which of the available ones the server uses.
use vstd::prelude::*;
use vstd::string::*;

use crate::gpu::{vendor_at_least, GPUInfo, GPUVendor};
use crate::text::{ascii_lower, ascii_lower_text, is_ascii_text, spec_to_lowercase, str_eq, to_lowercase};

verus! {

#[derive(Debug, Clone, Copy, PartialEq, Eq, Structural, Hash)]
pub enum VideoCodec {
    H264,
    H265,
    AV1,
}

/// The codec a name such as `h264`, `h.265`, `hevc` or `av1` stands for,
/// letter case aside; any other name is refused with a message naming it.
pub open spec fn spec_parse_codec(s: Seq<char>) -> Result<VideoCodec, Seq<char>> {
    match spec_codec_from_lower(spec_to_lowercase(s)) {
        Some(c) => Ok(c),
        None => Err("Unknown codec: "@ + s),
    }
}

/// The codec a lower-case name stands for, if any.
pub open spec fn spec_codec_from_lower(l: Seq<char>) -> Option<VideoCodec> {
    if l == "h264"@ || l == "h.264"@ || l == "avc"@ {
        Some(VideoCodec::H264)
    } else if l == "h265"@ || l == "h.265"@ || l == "hevc"@ {
        Some(VideoCodec::H265)
    } else if l == "av1"@ {
        Some(VideoCodec::AV1)
    } else {
        None
    }
}

/// Which names stand for which codec: `h264`, `h.264` and `avc` for H.264;
/// `h265`, `h.265` and `hevc` for H.265; `av1` for AV1; no other lower-case
/// name for any codec (so no name stands for two).
pub proof fn lemma_codec_names(l: Seq<char>)
    ensures
        spec_codec_from_lower(l) == Some(VideoCodec::H264) <==> (l == "h264"@ || l == "h.264"@ || l == "avc"@),
        spec_codec_from_lower(l) == Some(VideoCodec::H265) <==> (l == "h265"@ || l == "h.265"@ || l == "hevc"@),
        spec_codec_from_lower(l) == Some(VideoCodec::AV1) <==> l == "av1"@,
{
    reveal_strlit("h264");
    reveal_strlit("h.264");
    reveal_strlit("avc");
    reveal_strlit("h265");
    reveal_strlit("h.265");
    reveal_strlit("hevc");
    reveal_strlit("av1");
    if l == "h265"@ || l == "h.265"@ || l == "hevc"@ {
        assert(l != "h264"@ && l != "h.264"@ && l != "avc"@) by {
            if l.len() == 4 {
                assert(l[3] != "h264"@[3] || l[0] != "h264"@[0]);
            }
            if l.len() == 5 {
                assert(l[4] != "h.264"@[4]);
            }
        }
    }
    if l == "av1"@ {
        assert(l[0] != "avc"@[2] || l[2] != "avc"@[2]);
    }
}

impl VideoCodec {
    /// The codec a name stands for, letter case aside.
    pub fn parse_codec(s: &str) -> (r: Result<VideoCodec, String>)
        ensures
            match spec_parse_codec(s@) {
                Ok(c) => r == Ok::<VideoCodec, String>(c),
                Err(m) => r matches Err(e) && e@ == m,
            },
            is_ascii_text(s@) ==> spec_parse_codec(s@) == match spec_codec_from_lower(ascii_lower_text(s@)) {
                Some(c) => Ok::<VideoCodec, Seq<char>>(c),
                None => Err("Unknown codec: "@ + s@),
            },
    {
        let lower = to_lowercase(s);
        match VideoCodec::from_lower_name(lower.as_str()) {
            Some(c) => Ok(c),
            None => Err(String::from_str("Unknown codec: ").concat(s)),
        }
    }

    /// The codec a lower-case name (`h264`, `h.264`, `avc`, `h265`, `h.265`,
    /// `hevc`, `av1`) stands for, if any.
    pub fn from_lower_name(l: &str) -> (r: Option<VideoCodec>)
        ensures
            r == spec_codec_from_lower(l@),
    {
        if str_eq(l, "h264") || str_eq(l, "h.264") || str_eq(l, "avc") {
            Some(VideoCodec::H264)
        } else if str_eq(l, "h265") || str_eq(l, "h.265") || str_eq(l, "hevc") {
            Some(VideoCodec::H265)
        } else if str_eq(l, "av1") {
            Some(VideoCodec::AV1)
        } else {
            None
        }
    }
}

impl std::str::FromStr for VideoCodec {
    type Err = String;

    fn from_str(s: &str) -> (r: Result<Self, Self::Err>)
        ensures
            match spec_parse_codec(s@) {
                Ok(c) => r == Ok::<VideoCodec, String>(c),
                Err(m) => r matches Err(e) && e@ == m,
            },
            is_ascii_text(s@) ==> spec_parse_codec(s@) == match spec_codec_from_lower(ascii_lower_text(s@)) {
                Some(c) => Ok::<VideoCodec, Seq<char>>(c),
                None => Err("Unknown codec: "@ + s@),
            },
    {
        VideoCodec::parse_codec(s)
    }
}

#[derive(Debug, Clone, Copy, PartialEq, Eq, Structural)]
pub enum EncoderType {
    SOFTWARE,
    HARDWARE,
}

#[derive(Debug, Clone, Copy, PartialEq, Eq, Structural)]
pub enum EncoderAPI {
    NVENC,
    AMF,
    QSV,
    MF,
    SOFTWARE,
    UNKNOWN,
}

/// The display name of an encoder API.
pub open spec fn spec_api_name(api: EncoderAPI) -> Seq<char> {
    match api {
        EncoderAPI::NVENC => "NVIDIA NVENC"@,
        EncoderAPI::AMF => "AMD AMF"@,
        EncoderAPI::QSV => "Intel QuickSync"@,
        EncoderAPI::MF => "Windows Media Foundation"@,
        EncoderAPI::SOFTWARE => "Software (x264)"@,
        EncoderAPI::UNKNOWN => "Unknown"@,
    }
}

impl EncoderAPI {
    /// The display name of the API.
    pub fn to_str(&self) -> (r: &'static str)
        ensures
            r@ == spec_api_name(*self),
    {
        match self {
            EncoderAPI::NVENC => "NVIDIA NVENC",
            EncoderAPI::AMF => "AMD AMF",
            EncoderAPI::QSV => "Intel QuickSync",
            EncoderAPI::MF => "Windows Media Foundation",
            EncoderAPI::SOFTWARE => "Software (x264)",
            EncoderAPI::UNKNOWN => "Unknown",
        }
    }
}

/// An encoder the server can use.
#[derive(Debug)]
pub struct VideoEncoderInfo {
    /// GStreamer element name.
    pub name: String,
    pub codec: VideoCodec,
    pub encoder_type: EncoderType,
    pub encoder_api: EncoderAPI,
}

/// The plain values of a [`VideoEncoderInfo`].
pub struct VideoEncoderInfoView {
    pub name: Seq<char>,
    pub codec: VideoCodec,
    pub encoder_type: EncoderType,
    pub encoder_api: EncoderAPI,
}

impl View for VideoEncoderInfo {
    type V = VideoEncoderInfoView;

    open spec fn view(&self) -> VideoEncoderInfoView {
        VideoEncoderInfoView {
            name: self.name@,
            codec: self.codec,
            encoder_type: self.encoder_type,
            encoder_api: self.encoder_api,
        }
    }
}

impl Clone for VideoEncoderInfo {
    fn clone(&self) -> (r: Self)
        ensures
            r@ == self@,
    {
        VideoEncoderInfo {
            name: self.name.clone(),
            codec: self.codec,
            encoder_type: self.encoder_type,
            encoder_api: self.encoder_api,
        }
    }
}

/// An encoder worth probing for on a GPU of some vendor.
pub struct Candidate {
    pub name: &'static str,
    pub codec: VideoCodec,
    pub api: EncoderAPI,
    pub hw: bool,
}

/// The plain values of a [`Candidate`].
pub struct CandidateView {
    pub name: Seq<char>,
    pub codec: VideoCodec,
    pub api: EncoderAPI,
    pub hw: bool,
}

impl View for Candidate {
    type V = CandidateView;

    open spec fn view(&self) -> CandidateView {
        CandidateView { name: self.name@, codec: self.codec, api: self.api, hw: self.hw }
    }
}

pub open spec fn cand(name: Seq<char>, codec: VideoCodec, api: EncoderAPI, hw: bool) -> CandidateView {
    CandidateView { name, codec, api, hw }
}

/// The encoders to probe for on a GPU of `vendor`, most preferred first: the
/// vendor's own hardware encoders, then Media Foundation, then software.
pub open spec fn spec_candidates(vendor: GPUVendor) -> Seq<CandidateView> {
    match vendor {
        GPUVendor::NVIDIA => seq![
            cand("nvh264enc"@, VideoCodec::H264, EncoderAPI::NVENC, true),
            cand("nvh265enc"@, VideoCodec::H265, EncoderAPI::NVENC, true),
            cand("mfh264enc"@, VideoCodec::H264, EncoderAPI::MF, true),
            cand("x264enc"@, VideoCodec::H264, EncoderAPI::SOFTWARE, false),
        ],
        GPUVendor::AMD => seq![
            cand("amfh264enc"@, VideoCodec::H264, EncoderAPI::AMF, true),
            cand("mfh264enc"@, VideoCodec::H264, EncoderAPI::MF, true),
            cand("x264enc"@, VideoCodec::H264, EncoderAPI::SOFTWARE, false),
        ],
        GPUVendor::INTEL => seq![
            cand("qsvh264enc"@, VideoCodec::H264, EncoderAPI::QSV, true),
            cand("mfh264enc"@, VideoCodec::H264, EncoderAPI::MF, true),
            cand("x264enc"@, VideoCodec::H264, EncoderAPI::SOFTWARE, false),
        ],
        GPUVendor::UNKNOWN => seq![
            cand("mfh264enc"@, VideoCodec::H264, EncoderAPI::MF, true),
            cand("x264enc"@, VideoCodec::H264, EncoderAPI::SOFTWARE, false),
            cand("openh264enc"@, VideoCodec::H264, EncoderAPI::SOFTWARE, false),
        ],
    }
}

/// The encoders to probe for on a GPU of `vendor`, most preferred first.
pub fn candidates_for(vendor: &GPUVendor) -> (r: Vec<Candidate>)
    ensures
        r@.map_values(|c: Candidate| c@) == spec_candidates(*vendor),
{
    let r = match vendor {
        GPUVendor::NVIDIA => vec![
            Candidate { name: "nvh264enc", codec: VideoCodec::H264, api: EncoderAPI::NVENC, hw: true },
            Candidate { name: "nvh265enc", codec: VideoCodec::H265, api: EncoderAPI::NVENC, hw: true },
            Candidate { name: "mfh264enc", codec: VideoCodec::H264, api: EncoderAPI::MF, hw: true },
            Candidate { name: "x264enc", codec: VideoCodec::H264, api: EncoderAPI::SOFTWARE, hw: false },
        ],
        GPUVendor::AMD => vec![
            Candidate { name: "amfh264enc", codec: VideoCodec::H264, api: EncoderAPI::AMF, hw: true },
            Candidate { name: "mfh264enc", codec: VideoCodec::H264, api: EncoderAPI::MF, hw: true },
            Candidate { name: "x264enc", codec: VideoCodec::H264, api: EncoderAPI::SOFTWARE, hw: false },
        ],
        GPUVendor::INTEL => vec![
            Candidate { name: "qsvh264enc", codec: VideoCodec::H264, api: EncoderAPI::QSV, hw: true },
            Candidate { name: "mfh264enc", codec: VideoCodec::H264, api: EncoderAPI::MF, hw: true },
            Candidate { name: "x264enc", codec: VideoCodec::H264, api: EncoderAPI::SOFTWARE, hw: false },
        ],
        GPUVendor::UNKNOWN => vec![
            Candidate { name: "mfh264enc", codec: VideoCodec::H264, api: EncoderAPI::MF, hw: true },
            Candidate { name: "x264enc", codec: VideoCodec::H264, api: EncoderAPI::SOFTWARE, hw: false },
            Candidate { name: "openh264enc", codec: VideoCodec::H264, api: EncoderAPI::SOFTWARE, hw: false },
        ],
    };
    assert(r@.map_values(|c: Candidate| c@) =~= spec_candidates(*vendor));
    r
}

/// The vendor of the GPU the server prefers among `gpus` (NVIDIA, then AMD,
/// then Intel, then any other), or `UNKNOWN` when there is none.
pub open spec fn spec_primary_vendor(gpus: Seq<GPUInfo>) -> GPUVendor
    decreases gpus.len(),
{
    if gpus.len() == 0 {
        GPUVendor::UNKNOWN
    } else {
        let r = spec_primary_vendor(gpus.drop_last());
        if gpus.last().vendor.spec_rank() < r.spec_rank() {
            gpus.last().vendor
        } else {
            r
        }
    }
}

/// The vendor preferred for encoding is that of one of the GPUs, and is
/// preferred to, or the same as, every GPU's vendor (NVIDIA, then AMD, then
/// Intel, then any other); with no GPU it is `UNKNOWN`.
pub proof fn lemma_primary_vendor_choice(gpus: Seq<GPUInfo>)
    ensures
        gpus.len() == 0 ==> spec_primary_vendor(gpus) == GPUVendor::UNKNOWN,
        gpus.len() > 0 ==> exists|i: int| 0 <= i < gpus.len() && #[trigger] gpus[i].vendor == spec_primary_vendor(gpus),
        forall|j: int| 0 <= j < gpus.len() ==> vendor_at_least(spec_primary_vendor(gpus), #[trigger] gpus[j].vendor),
    decreases gpus.len(),
{
    if gpus.len() > 0 {
        let t = gpus.drop_last();
        lemma_primary_vendor_choice(t);
        assert forall|j: int| 0 <= j < gpus.len() implies vendor_at_least(spec_primary_vendor(gpus), #[trigger] gpus[j].vendor) by {
            if j < gpus.len() - 1 {
                assert(gpus[j] == t[j]);
                assert(vendor_at_least(spec_primary_vendor(t), t[j].vendor));
            }
        }
        if t.len() > 0 {
            let k = choose|i: int| 0 <= i < t.len() && #[trigger] t[i].vendor == spec_primary_vendor(t);
            assert(gpus[k] == t[k]);
        }
        assert(gpus[gpus.len() - 1] == gpus.last());
    }
}

/// The vendor of the GPU the server prefers among `gpus`.
pub fn primary_vendor(gpus: &[GPUInfo]) -> (r: GPUVendor)
    ensures
        r == spec_primary_vendor(gpus@),
{
    let mut best = GPUVendor::UNKNOWN;
    let mut i: usize = 0;
    while i < gpus.len()
        invariant
            i <= gpus@.len(),
            best == spec_primary_vendor(gpus@.take(i as int)),
        decreases gpus.len() - i,
    {
        assert(gpus@.take(i + 1).drop_last() == gpus@.take(i as int));
        if gpus[i].vendor.rank() < best.rank() {
            best = gpus[i].vendor;
        }
        i = i + 1;
    }
    assert(gpus@.take(gpus@.len() as int) == gpus@);
    best
}

/// The encoder a candidate becomes once it is found available.
pub open spec fn spec_encoder_of(c: CandidateView) -> VideoEncoderInfoView {
    VideoEncoderInfoView {
        name: c.name,
        codec: c.codec,
        encoder_type: if c.hw {
            EncoderType::HARDWARE
        } else {
            EncoderType::SOFTWARE
        },
        encoder_api: c.api,
    }
}

/// The candidates whose name is among `available`, as encoders, in order.
pub open spec fn spec_available_encoders(cands: Seq<CandidateView>, available: Seq<Seq<char>>) -> Seq<
    VideoEncoderInfoView,
>
    decreases cands.len(),
{
    if cands.len() == 0 {
        Seq::empty()
    } else {
        let rest = spec_available_encoders(cands.drop_last(), available);
        if available.contains(cands.last().name) {
            rest.push(spec_encoder_of(cands.last()))
        } else {
            rest
        }
    }
}

/// The hardware encoding interface of a GPU vendor's own, if it has one:
/// NVENC for NVIDIA, AMF for AMD, QuickSync for Intel.
pub open spec fn vendor_api(v: GPUVendor) -> Option<EncoderAPI> {
    match v {
        GPUVendor::NVIDIA => Some(EncoderAPI::NVENC),
        GPUVendor::AMD => Some(EncoderAPI::AMF),
        GPUVendor::INTEL => Some(EncoderAPI::QSV),
        GPUVendor::UNKNOWN => None,
    }
}

/// The GStreamer element of a vendor's own H.264 hardware encoder.
pub open spec fn vendor_h264_element(v: GPUVendor) -> Seq<char> {
    match v {
        GPUVendor::NVIDIA => "nvh264enc"@,
        GPUVendor::AMD => "amfh264enc"@,
        GPUVendor::INTEL => "qsvh264enc"@,
        GPUVendor::UNKNOWN => "mfh264enc"@,
    }
}

/// What the encoder candidates of each vendor are: a GPU of a known vendor
/// is tried first with its own H.264 hardware encoder; every list holds the
/// Media Foundation hardware encoder and a software fallback last; no list
/// offers the hardware interface of another vendor; a candidate is hardware
/// exactly when it is not software; AMD and Intel are followed by
/// `mfh264enc` and then `x264enc`.
pub proof fn lemma_candidates_shape(v: GPUVendor)
    ensures
        spec_candidates(v).len() >= 2,
        vendor_api(v) matches Some(api) ==> spec_candidates(v)[0] == cand(
            vendor_h264_element(v),
            VideoCodec::H264,
            api,
            true,
        ),
        exists|i: int| 0 <= i < spec_candidates(v).len() && #[trigger] spec_candidates(v)[i] == cand(
            "mfh264enc"@,
            VideoCodec::H264,
            EncoderAPI::MF,
            true,
        ),
        spec_candidates(v).last().api == EncoderAPI::SOFTWARE && !spec_candidates(v).last().hw,
        forall|i: int| 0 <= i < spec_candidates(v).len() ==> (#[trigger] spec_candidates(v)[i]).hw == (
            spec_candidates(v)[i].api != EncoderAPI::SOFTWARE),
        forall|i: int| 0 <= i < spec_candidates(v).len() ==> match (#[trigger] spec_candidates(v)[i]).api {
            EncoderAPI::NVENC | EncoderAPI::AMF | EncoderAPI::QSV => vendor_api(v) == Some(
                spec_candidates(v)[i].api,
            ),
            _ => true,
        },
        (v == GPUVendor::AMD || v == GPUVendor::INTEL) ==> spec_candidates(v).len() == 3 && spec_candidates(v)[1]
            == cand("mfh264enc"@, VideoCodec::H264, EncoderAPI::MF, true) && spec_candidates(v)[2] == cand(
            "x264enc"@,
            VideoCodec::H264,
            EncoderAPI::SOFTWARE,
            false,
        ),
{
    let c = spec_candidates(v);
    match v {
        GPUVendor::NVIDIA => {
            assert(c[2] == cand("mfh264enc"@, VideoCodec::H264, EncoderAPI::MF, true));
        },
        GPUVendor::UNKNOWN => {
            assert(c[0] == cand("mfh264enc"@, VideoCodec::H264, EncoderAPI::MF, true));
        },
        _ => {
            assert(c[1] == cand("mfh264enc"@, VideoCodec::H264, EncoderAPI::MF, true));
        },
    }
}

proof fn lemma_available_prefix(cands: Seq<CandidateView>, available: Seq<Seq<char>>, k: int)
    requires
        0 <= k <= cands.len(),
    ensures
        spec_available_encoders(cands.take(k), available).len() <= spec_available_encoders(cands, available).len(),
        spec_available_encoders(cands.take(k), available) == spec_available_encoders(cands, available).take(
            spec_available_encoders(cands.take(k), available).len() as int,
        ),
    decreases cands.len() - k,
{
    if k == cands.len() {
        assert(cands.take(k) == cands);
        let r = spec_available_encoders(cands, available);
        assert(r.take(r.len() as int) == r);
    } else {
        lemma_available_prefix(cands.drop_last(), available, k);
        assert(cands.drop_last().take(k) == cands.take(k));
    }
}

/// When the preferred GPU has a known vendor and its own H.264 hardware
/// encoder is in the GStreamer registry, that encoder comes first among the
/// encoders offered.
pub proof fn lemma_own_encoder_first(gpus: Seq<GPUInfo>, available: Seq<Seq<char>>)
    requires
        (vendor_api(spec_primary_vendor(gpus)) is Some),
        available.contains(vendor_h264_element(spec_primary_vendor(gpus))),
    ensures
        spec_available_encoders(spec_candidates(spec_primary_vendor(gpus)), available).len() > 0,
        spec_available_encoders(spec_candidates(spec_primary_vendor(gpus)), available)[0] == (VideoEncoderInfoView {
            name: vendor_h264_element(spec_primary_vendor(gpus)),
            codec: VideoCodec::H264,
            encoder_type: EncoderType::HARDWARE,
            encoder_api: vendor_api(spec_primary_vendor(gpus))->0,
        }),
{
    let v = spec_primary_vendor(gpus);
    let c = spec_candidates(v);
    lemma_candidates_shape(v);
    lemma_available_prefix(c, available, 1);
    let one = c.take(1);
    assert(one.drop_last() =~= Seq::<CandidateView>::empty());
    assert(one.last() == c[0]);
    assert(one.len() == 1);
    assert(c[0].name == vendor_h264_element(v));
    assert(spec_available_encoders(one.drop_last(), available) == Seq::<VideoEncoderInfoView>::empty());
    assert(spec_available_encoders(one, available) == spec_available_encoders(one.drop_last(), available).push(
        spec_encoder_of(one.last()),
    ));
    assert(spec_available_encoders(one, available) =~= seq![spec_encoder_of(c[0])]);
    let full = spec_available_encoders(c, available);
    assert(full.take(1)[0] == full[0]);
    assert(c[0] == cand(vendor_h264_element(v), VideoCodec::H264, vendor_api(v)->0, true));
    assert(full[0] == spec_encoder_of(c[0]));
}

fn name_available(name: &str, available: &[String]) -> (r: bool)
    ensures
        r == available@.map_values(|s: String| s@).contains(name@),
{
    let mut i: usize = 0;
    while i < available.len()
        invariant
            i <= available@.len(),
            forall|j: int| 0 <= j < i ==> available@[j]@ != name@,
        decreases available.len() - i,
    {
        if str_eq(available[i].as_str(), name) {
            assert(available@.map_values(|s: String| s@)[i as int] == name@);
            return true;
        }
        i = i + 1;
    }
    assert forall|j: int| #![trigger available@[j]] 0 <= j < available@.len() implies available@.map_values(
        |s: String| s@,
    )[j] != name@ by {
        assert(available@.map_values(|s: String| s@)[j] == available@[j]@);
    }
    false
}

/// The encoders the server can use with `gpus`: the candidates for the
/// preferred GPU's vendor whose GStreamer element is among `available` (the
/// element names the GStreamer registry holds), in order of preference.
pub fn get_compatible_encoders(gpus: &[GPUInfo], available: &[String]) -> (r: Vec<VideoEncoderInfo>)
    ensures
        r@.map_values(|e: VideoEncoderInfo| e@) == spec_available_encoders(
            spec_candidates(spec_primary_vendor(gpus@)),
            available@.map_values(|s: String| s@),
        ),
{
    let vendor = primary_vendor(gpus);
    let cands = candidates_for(&vendor);
    let ghost cs = cands@.map_values(|c: Candidate| c@);
    let ghost avail = available@.map_values(|s: String| s@);
    let mut out: Vec<VideoEncoderInfo> = Vec::new();
    let mut i: usize = 0;
    while i < cands.len()
        invariant
            i <= cands@.len(),
            cs == cands@.map_values(|c: Candidate| c@),
            avail == available@.map_values(|s: String| s@),
            out@.map_values(|e: VideoEncoderInfo| e@) == spec_available_encoders(cs.take(i as int), avail),
        decreases cands.len() - i,
    {
        assert(cs.take(i + 1).drop_last() == cs.take(i as int));
        assert(cs.take(i + 1).last() == cands@[i as int]@);
        let c = &cands[i];
        if name_available(c.name, available) {
            out.push(
                VideoEncoderInfo {
                    name: String::from_str(c.name),
                    codec: c.codec,
                    encoder_type: if c.hw {
                        EncoderType::HARDWARE
                    } else {
                        EncoderType::SOFTWARE
                    },
                    encoder_api: c.api,
                },
            );
        }
        i = i + 1;
        assert(out@.map_values(|e: VideoEncoderInfo| e@) =~= spec_available_encoders(
            cs.take(i as int),
            avail,
        ));
    }
    assert(cs.take(cands@.len() as int) == cs);
    out
}

/// Why no encoder could be chosen.
#[derive(Debug, Clone, Copy, PartialEq, Eq)]
pub enum EncoderError {
    NoSuitableEncoder,
}

impl EncoderError {
    /// The error's text.
    pub fn message(&self) -> (r: &'static str)
        ensures
            r@ == "No suitable encoder found"@,
    {
        "No suitable encoder found"
    }
}

/// Whether an encoder has the wanted codec, if one is wanted.
pub open spec fn codec_matches(e: VideoEncoderInfoView, wanted: Option<VideoCodec>) -> bool {
    match wanted {
        Some(c) => e.codec == c,
        None => true,
    }
}

/// Whether the wanted encoder type narrows the choice: it does when some
/// encoder with the wanted codec has that type.
pub open spec fn type_filter_active(
    encoders: Seq<VideoEncoderInfo>,
    wanted_codec: Option<VideoCodec>,
    wanted_type: Option<EncoderType>,
) -> bool {
    match wanted_type {
        Some(t) => exists|i: int|
            0 <= i < encoders.len() && codec_matches(encoders[i]@, wanted_codec)
                && #[trigger] encoders[i].encoder_type == t,
        None => false,
    }
}

/// Whether the encoder at `i` survives the codec filter and, when it narrows
/// the choice, the type filter.
pub open spec fn encoder_selected(
    encoders: Seq<VideoEncoderInfo>,
    wanted_codec: Option<VideoCodec>,
    wanted_type: Option<EncoderType>,
    i: int,
) -> bool {
    &&& codec_matches(encoders[i]@, wanted_codec)
    &&& type_filter_active(encoders, wanted_codec, wanted_type) ==> Some(encoders[i].encoder_type)
        == wanted_type
}

/// What choosing an encoder means: some encoder is chosen exactly when some
/// encoder has the wanted codec (any encoder, when no codec is wanted), so the
/// encoder type is only a preference; a chosen encoder has the wanted codec;
/// when some encoder has both the wanted codec and the wanted type, a chosen
/// one has both; with nothing wanted, the first encoder is chosen.
pub proof fn lemma_encoder_choice(
    encoders: Seq<VideoEncoderInfo>,
    wanted_codec: Option<VideoCodec>,
    wanted_type: Option<EncoderType>,
    i: int,
)
    ensures
        (exists|j: int| 0 <= j < encoders.len() && #[trigger] encoder_selected(encoders, wanted_codec, wanted_type, j))
            <==> (exists|j: int| 0 <= j < encoders.len() && (wanted_codec matches Some(c) ==> #[trigger] encoders[j].codec == c)),
        0 <= i < encoders.len() && encoder_selected(encoders, wanted_codec, wanted_type, i) ==> (
        wanted_codec matches Some(c) ==> encoders[i].codec == c),
        0 <= i < encoders.len() && encoder_selected(encoders, wanted_codec, wanted_type, i) && (exists|j: int|
            0 <= j < encoders.len() && (wanted_codec matches Some(c) ==> encoders[j].codec == c)
                && Some(#[trigger] encoders[j].encoder_type) == wanted_type) ==> Some(encoders[i].encoder_type)
            == wanted_type,
        encoders.len() > 0 && wanted_codec is None && wanted_type is None ==> encoder_selected(
            encoders,
            wanted_codec,
            wanted_type,
            0,
        ),
{
    if exists|j: int| 0 <= j < encoders.len() && (wanted_codec matches Some(c) ==> #[trigger] encoders[j].codec == c) {
        let j = choose|j: int| 0 <= j < encoders.len() && (wanted_codec matches Some(c) ==> #[trigger] encoders[j].codec == c);
        if type_filter_active(encoders, wanted_codec, wanted_type) {
            let t = wanted_type->0;
            let k = choose|k: int|
                0 <= k < encoders.len() && codec_matches(encoders[k]@, wanted_codec) && #[trigger] encoders[k].encoder_type == t;
            assert(encoder_selected(encoders, wanted_codec, wanted_type, k));
        } else {
            assert(encoder_selected(encoders, wanted_codec, wanted_type, j));
        }
    }
    if 0 <= i < encoders.len() && encoder_selected(encoders, wanted_codec, wanted_type, i) && (exists|j: int|
        0 <= j < encoders.len() && (wanted_codec matches Some(c) ==> encoders[j].codec == c)
            && Some(#[trigger] encoders[j].encoder_type) == wanted_type) {
        let j = choose|j: int|
            0 <= j < encoders.len() && (wanted_codec matches Some(c) ==> encoders[j].codec == c)
                && Some(#[trigger] encoders[j].encoder_type) == wanted_type;
        assert(codec_matches(encoders[j]@, wanted_codec));
        assert(type_filter_active(encoders, wanted_codec, wanted_type));
    }
}

/// Picks the encoder to use: among the encoders with the wanted codec (all of
/// them if none is wanted), those of the wanted type if there are any, and of
/// these the first. Fails when no encoder has the wanted codec.
pub fn get_best_working_encoder(
    encoders: &[VideoEncoderInfo],
    wanted_codec: &Option<VideoCodec>,
    wanted_type: &Option<EncoderType>,
) -> (r: Result<VideoEncoderInfo, EncoderError>)
    ensures
        match r {
            Ok(e) => exists|i: int|
                0 <= i < encoders@.len() && encoder_selected(encoders@, *wanted_codec, *wanted_type, i)
                    && e@ == encoders@[i]@ && forall|j: int|
                    0 <= j < i ==> !encoder_selected(encoders@, *wanted_codec, *wanted_type, j),
            Err(err) => err == EncoderError::NoSuitableEncoder && forall|j: int|
                0 <= j < encoders@.len() ==> !encoder_selected(
                    encoders@,
                    *wanted_codec,
                    *wanted_type,
                    j,
                ),
        },
{
    let mut active = false;
    if let Some(t) = wanted_type {
        let mut i: usize = 0;
        while i < encoders.len()
            invariant
                i <= encoders@.len(),
                *wanted_type == Some(*t),
                active == exists|j: int|
                    0 <= j < i && codec_matches(encoders@[j]@, *wanted_codec)
                        && #[trigger] encoders@[j].encoder_type == *t,
            decreases encoders.len() - i,
        {
            let codec_ok = match wanted_codec {
                Some(c) => encoders[i].codec == *c,
                None => true,
            };
            if codec_ok && encoders[i].encoder_type == *t {
                active = true;
            }
            i = i + 1;
        }
    }
    assert(active == type_filter_active(encoders@, *wanted_codec, *wanted_type));
    let mut i: usize = 0;
    while i < encoders.len()
        invariant
            i <= encoders@.len(),
            active == type_filter_active(encoders@, *wanted_codec, *wanted_type),
            forall|j: int| 0 <= j < i ==> !encoder_selected(encoders@, *wanted_codec, *wanted_type, j),
        decreases encoders.len() - i,
    {
        let codec_ok = match wanted_codec {
            Some(c) => encoders[i].codec == *c,
            None => true,
        };
        let type_ok = if active {
            match wanted_type {
                Some(t) => encoders[i].encoder_type == *t,
                None => true,
            }
        } else {
            true
        };
        if codec_ok && type_ok {
            assert(encoder_selected(encoders@, *wanted_codec, *wanted_type, i as int));
            return Ok(encoders[i].clone());
        }
        i = i + 1;
    }
    Err(EncoderError::NoSuitableEncoder)
}

/// The encoder type an `--encoder-type` text asks for: hardware for
/// `hardware` in any letter case, software otherwise.
pub open spec fn spec_encoder_type_from_arg(s: Seq<char>) -> EncoderType {
    if s.len() == 8 && forall|i: int| 0 <= i < 8 ==> ascii_lower(#[trigger] s[i]) == "hardware"@[i] {
        EncoderType::HARDWARE
    } else {
        EncoderType::SOFTWARE
    }
}

fn ascii_lower_exec(c: char) -> (r: char)
    ensures
        r == ascii_lower(c),
{
    if 'A' <= c && c <= 'Z' {
        ((c as u8) + 32) as char
    } else {
        c
    }
}

/// An `--encoder-type` text asks for hardware encoding exactly when it is
/// `hardware` in any letter case; any other text asks for software encoding.
pub proof fn lemma_encoder_type_arg(s: Seq<char>)
    ensures
        is_ascii_text(s) ==> (spec_encoder_type_from_arg(s) == EncoderType::HARDWARE <==> ascii_lower_text(s)
            == "hardware"@),
        spec_encoder_type_from_arg(s) != EncoderType::HARDWARE ==> spec_encoder_type_from_arg(s)
            == EncoderType::SOFTWARE,
{
    reveal_strlit("hardware");
    if is_ascii_text(s) {
        let l = ascii_lower_text(s);
        assert(l.len() == s.len());
        if l == "hardware"@ {
            assert(s.len() == 8);
            assert forall|i: int| 0 <= i < 8 implies ascii_lower(#[trigger] s[i]) == "hardware"@[i] by {
                assert(l[i] == ascii_lower(s[i]));
            }
        }
        if spec_encoder_type_from_arg(s) == EncoderType::HARDWARE {
            assert(l =~= "hardware"@);
        }
    }
}

/// The encoder type an `--encoder-type` text asks for.
pub fn encoder_type_from_arg(s: &str) -> (r: EncoderType)
    ensures
        r == spec_encoder_type_from_arg(s@),
{
    let text = crate::text::chars_of(s);
    let want = crate::text::chars_of("hardware");
    proof {
        reveal_strlit("hardware");
    }
    if text.len() != 8 {
        return EncoderType::SOFTWARE;
    }
    let mut i: usize = 0;
    while i < 8
        invariant
            text@ == s@,
            want@ == "hardware"@,
            want@.len() == 8,
            text@.len() == 8,
            i <= 8,
            forall|j: int| 0 <= j < i ==> ascii_lower(#[trigger] s@[j]) == "hardware"@[j],
        decreases 8 - i,
    {
        if ascii_lower_exec(text[i]) != want[i] {
            return EncoderType::SOFTWARE;
        }
        i = i + 1;
    }
    EncoderType::HARDWARE
}

} // verus!
