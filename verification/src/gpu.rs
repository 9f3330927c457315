//! GPU descriptions and the choices made among the GPUs of the machine.
use vstd::prelude::*;
use vstd::string::*;

use crate::text::{
    ascii_lower_text, is_ascii_text,
    chars_of, contains_chars, decimal_string, hex_upper_padded, spec_contains, spec_decimal,
    spec_hex_upper_padded, spec_to_lowercase, str_eq, to_lowercase,
};
use crate::utf16::{spec_utf16_lossy, utf16_lossy};

verus! {

#[derive(Debug, Clone, Copy, PartialEq, Eq, Structural, Hash)]
pub enum GPUVendor {
    UNKNOWN,
    INTEL,
    NVIDIA,
    AMD,
}

/// The vendor a PCI vendor id stands for.
pub open spec fn spec_vendor_from_id(id: u32) -> GPUVendor {
    if id == 0x8086 {
        GPUVendor::INTEL
    } else if id == 0x10DE {
        GPUVendor::NVIDIA
    } else if id == 0x1002 {
        GPUVendor::AMD
    } else {
        GPUVendor::UNKNOWN
    }
}

/// The vendor a name stands for, letter case aside.
pub open spec fn spec_vendor_from_name(name: Seq<char>) -> GPUVendor {
    spec_vendor_from_lower(spec_to_lowercase(name))
}

/// The vendor a lower-case name stands for.
pub open spec fn spec_vendor_from_lower(l: Seq<char>) -> GPUVendor {
    if l == "intel"@ {
        GPUVendor::INTEL
    } else if l == "nvidia"@ {
        GPUVendor::NVIDIA
    } else if l == "amd"@ {
        GPUVendor::AMD
    } else {
        GPUVendor::UNKNOWN
    }
}

/// The PCI vendor id of a vendor (0 for an unknown one).
pub open spec fn spec_vendor_id(v: GPUVendor) -> u32 {
    match v {
        GPUVendor::INTEL => 0x8086,
        GPUVendor::NVIDIA => 0x10DE,
        GPUVendor::AMD => 0x1002,
        GPUVendor::UNKNOWN => 0,
    }
}

/// A vendor is the vendor of its own PCI id, and of its own display name read
/// case-insensitively (the name is ASCII); any other id is `UNKNOWN`.
pub proof fn lemma_vendor_roundtrip(v: GPUVendor, id: u32)
    ensures
        spec_vendor_from_id(spec_vendor_id(v)) == v,
        is_ascii_text(spec_vendor_name(v)),
        spec_vendor_from_lower(ascii_lower_text(spec_vendor_name(v))) == v,
        id != 0x8086 && id != 0x10DE && id != 0x1002 ==> spec_vendor_from_id(id) == GPUVendor::UNKNOWN,
        spec_vendor_from_id(0x8086) == GPUVendor::INTEL && spec_vendor_id(GPUVendor::INTEL) == 0x8086,
        spec_vendor_from_id(0x10DE) == GPUVendor::NVIDIA && spec_vendor_id(GPUVendor::NVIDIA) == 0x10DE,
        spec_vendor_from_id(0x1002) == GPUVendor::AMD && spec_vendor_id(GPUVendor::AMD) == 0x1002,
        spec_vendor_id(GPUVendor::UNKNOWN) == 0,
        spec_vendor_from_lower("intel"@) == GPUVendor::INTEL,
        spec_vendor_from_lower("nvidia"@) == GPUVendor::NVIDIA,
        spec_vendor_from_lower("amd"@) == GPUVendor::AMD,
{
    reveal_strlit("Intel");
    reveal_strlit("NVIDIA");
    reveal_strlit("AMD");
    reveal_strlit("Unknown");
    reveal_strlit("intel");
    reveal_strlit("nvidia");
    reveal_strlit("amd");
    assert("nvidia"@.len() != "intel"@.len());
    assert("amd"@.len() != "intel"@.len() && "amd"@.len() != "nvidia"@.len());
    let n = spec_vendor_name(v);
    let l = ascii_lower_text(n);
    match v {
        GPUVendor::INTEL => {
            assert(l =~= "intel"@);
        },
        GPUVendor::NVIDIA => {
            assert(l =~= "nvidia"@);
        },
        GPUVendor::AMD => {
            assert(l =~= "amd"@);
        },
        GPUVendor::UNKNOWN => {
            assert(l.len() == 7 && l[0] == 'u');
            assert(l != "intel"@ && l != "nvidia"@ && l != "amd"@);
        },
    }
}

/// The display name of a vendor.
pub open spec fn spec_vendor_name(v: GPUVendor) -> Seq<char> {
    match v {
        GPUVendor::INTEL => "Intel"@,
        GPUVendor::NVIDIA => "NVIDIA"@,
        GPUVendor::AMD => "AMD"@,
        GPUVendor::UNKNOWN => "Unknown"@,
    }
}

impl GPUVendor {
    /// The vendor a PCI vendor id stands for.
    pub fn from_vendor_id(id: u32) -> (r: Self)
        ensures
            r == spec_vendor_from_id(id),
    {
        if id == 0x8086 {
            GPUVendor::INTEL
        } else if id == 0x10DE {
            GPUVendor::NVIDIA
        } else if id == 0x1002 {
            GPUVendor::AMD
        } else {
            GPUVendor::UNKNOWN
        }
    }

    /// The vendor a name such as `nvidia` stands for, letter case aside.
    pub fn from_name(name: &str) -> (r: Self)
        ensures
            r == spec_vendor_from_name(name@),
            is_ascii_text(name@) ==> r == spec_vendor_from_lower(ascii_lower_text(name@)),
    {
        let lower = to_lowercase(name);
        GPUVendor::from_lower_name(lower.as_str())
    }

    /// The vendor a lower-case name (`intel`, `nvidia`, `amd`) stands for.
    pub fn from_lower_name(l: &str) -> (r: Self)
        ensures
            r == spec_vendor_from_lower(l@),
    {
        if str_eq(l, "intel") {
            GPUVendor::INTEL
        } else if str_eq(l, "nvidia") {
            GPUVendor::NVIDIA
        } else if str_eq(l, "amd") {
            GPUVendor::AMD
        } else {
            GPUVendor::UNKNOWN
        }
    }

    /// The PCI vendor id of the vendor (0 for an unknown one).
    pub fn vendor_id(&self) -> (r: u32)
        ensures
            r == spec_vendor_id(*self),
    {
        match self {
            GPUVendor::INTEL => 0x8086,
            GPUVendor::NVIDIA => 0x10DE,
            GPUVendor::AMD => 0x1002,
            GPUVendor::UNKNOWN => 0,
        }
    }

    /// The display name of the vendor.
    pub fn as_str(&self) -> (r: &'static str)
        ensures
            r@ == spec_vendor_name(*self),
    {
        match self {
            GPUVendor::INTEL => "Intel",
            GPUVendor::NVIDIA => "NVIDIA",
            GPUVendor::AMD => "AMD",
            GPUVendor::UNKNOWN => "Unknown",
        }
    }

    /// How strongly the vendor is preferred for streaming: lower is better.
    pub open spec fn spec_rank(self) -> u8 {
        match self {
            GPUVendor::NVIDIA => 0,
            GPUVendor::AMD => 1,
            GPUVendor::INTEL => 2,
            GPUVendor::UNKNOWN => 3,
        }
    }

    /// How strongly the vendor is preferred for streaming: NVIDIA, then AMD,
    /// then Intel, then any other.
    pub fn rank(&self) -> (r: u8)
        ensures
            r == self.spec_rank(),
    {
        match self {
            GPUVendor::NVIDIA => 0,
            GPUVendor::AMD => 1,
            GPUVendor::INTEL => 2,
            GPUVendor::UNKNOWN => 3,
        }
    }
}

impl From<u32> for GPUVendor {
    fn from(value: u32) -> (r: Self) {
        GPUVendor::from_vendor_id(value)
    }
}

impl vstd::std_specs::convert::FromSpecImpl<u32> for GPUVendor {
    open spec fn obeys_from_spec() -> bool {
        true
    }

    open spec fn from_spec(v: u32) -> Self {
        spec_vendor_from_id(v)
    }
}

impl<'a> From<&'a str> for GPUVendor {
    fn from(value: &'a str) -> (r: Self) {
        GPUVendor::from_name(value)
    }
}

impl<'a> vstd::std_specs::convert::FromSpecImpl<&'a str> for GPUVendor {
    open spec fn obeys_from_spec() -> bool {
        true
    }

    open spec fn from_spec(v: &'a str) -> Self {
        spec_vendor_from_name(v@)
    }
}

impl From<String> for GPUVendor {
    fn from(value: String) -> (r: Self) {
        GPUVendor::from_name(value.as_str())
    }
}

impl vstd::std_specs::convert::FromSpecImpl<String> for GPUVendor {
    open spec fn obeys_from_spec() -> bool {
        true
    }

    open spec fn from_spec(v: String) -> Self {
        spec_vendor_from_name(v@)
    }
}

/// A GPU adapter as the system enumerates it.
#[derive(Debug, PartialEq, Eq, Hash)]
pub struct GPUInfo {
    pub vendor: GPUVendor,
    /// Adapter index (0 = primary).
    pub adapter_idx: u32,
    /// Human-readable device name.
    pub device_name: String,
    /// PCI vendor id as upper-case hex.
    pub vendor_id: String,
    /// PCI device id as upper-case hex.
    pub device_id: String,
    /// Dedicated video memory in MiB.
    pub vram_mb: u64,
}

/// The plain values of a [`GPUInfo`].
pub struct GPUInfoView {
    pub vendor: GPUVendor,
    pub adapter_idx: u32,
    pub device_name: Seq<char>,
    pub vendor_id: Seq<char>,
    pub device_id: Seq<char>,
    pub vram_mb: u64,
}

impl View for GPUInfo {
    type V = GPUInfoView;

    open spec fn view(&self) -> GPUInfoView {
        GPUInfoView {
            vendor: self.vendor,
            adapter_idx: self.adapter_idx,
            device_name: self.device_name@,
            vendor_id: self.vendor_id@,
            device_id: self.device_id@,
            vram_mb: self.vram_mb,
        }
    }
}

impl Clone for GPUInfo {
    fn clone(&self) -> (r: Self)
        ensures
            r@ == self@,
    {
        GPUInfo {
            vendor: self.vendor,
            adapter_idx: self.adapter_idx,
            device_name: self.device_name.clone(),
            vendor_id: self.vendor_id.clone(),
            device_id: self.device_id.clone(),
            vram_mb: self.vram_mb,
        }
    }
}

/// The one-line description of a GPU.
pub open spec fn spec_describe(g: GPUInfoView) -> Seq<char> {
    g.device_name + " (Vendor: "@ + spec_vendor_name(g.vendor) + ", Adapter Index: "@
        + spec_decimal(g.adapter_idx as nat) + ", VRAM: "@ + spec_decimal(g.vram_mb as nat)
        + " MB, VendorID: 0x"@ + g.vendor_id + ", DeviceID: 0x"@ + g.device_id + ")"@
}

impl GPUInfo {
    pub fn vendor(&self) -> (r: &GPUVendor)
        ensures
            *r == self.vendor,
    {
        &self.vendor
    }

    pub fn adapter_idx(&self) -> (r: u32)
        ensures
            r == self.adapter_idx,
    {
        self.adapter_idx
    }

    pub fn device_name(&self) -> (r: &str)
        ensures
            r@ == self.device_name@,
    {
        self.device_name.as_str()
    }

    pub fn vram_mb(&self) -> (r: u64)
        ensures
            r == self.vram_mb,
    {
        self.vram_mb
    }

    /// The device index an NVENC encoder is given: the adapter index for an
    /// NVIDIA GPU; other encoders use the default device.
    pub fn gst_device_index(&self) -> (r: Option<u32>)
        ensures
            r == (if self.vendor == GPUVendor::NVIDIA {
                Some(self.adapter_idx)
            } else {
                None
            }),
    {
        match self.vendor {
            GPUVendor::NVIDIA => Some(self.adapter_idx),
            _ => None,
        }
    }

    /// The one-line description of the GPU: name, vendor, adapter index, video
    /// memory and PCI ids.
    pub fn as_str(&self) -> (r: String)
        ensures
            r@ == spec_describe(self@),
    {
        let s = self.device_name.clone();
        let s = s.concat(" (Vendor: ");
        let s = s.concat(self.vendor.as_str());
        let s = s.concat(", Adapter Index: ");
        let idx = decimal_string(self.adapter_idx as u64);
        let s = s.concat(idx.as_str());
        let s = s.concat(", VRAM: ");
        let vram = decimal_string(self.vram_mb);
        let s = s.concat(vram.as_str());
        let s = s.concat(" MB, VendorID: 0x");
        let s = s.concat(self.vendor_id.as_str());
        let s = s.concat(", DeviceID: 0x");
        let s = s.concat(self.device_id.as_str());
        s.concat(")")
    }
}

/// Why GPUs could not be listed.
#[derive(Debug, Clone, Copy, PartialEq, Eq)]
pub enum GpuError {
    /// GPU enumeration is only available on Windows.
    Unsupported,
}

impl GpuError {
    /// The error's text.
    pub fn message(&self) -> (r: &'static str)
        ensures
            r@ == "get_gpus() is only supported on Windows in this build"@,
    {
        "get_gpus() is only supported on Windows in this build"
    }
}

/// Lists the machine's GPUs. Enumeration goes through DXGI, which only
/// Windows has; the library holds no DXGI binding (the program enumerates the
/// adapters itself and builds each entry with `gpu_from_adapter`), so this always reports
/// `Unsupported`.
pub fn get_gpus() -> (r: Result<Vec<GPUInfo>, GpuError>)
    ensures
        r == Err::<Vec<GPUInfo>, GpuError>(GpuError::Unsupported),
{
    Err(GpuError::Unsupported)
}

/// The PCI ids of the software fallback adapter (Microsoft Basic Render
/// Driver), which is no real GPU.
pub const BASIC_RENDER_VENDOR_ID: u32 = 0x1414;

pub const BASIC_RENDER_DEVICE_ID: u32 = 0x8c;

/// `s` up to its first zero unit.
pub open spec fn until_nul(s: Seq<u16>) -> Seq<u16>
    decreases s.len(),
{
    if s.len() == 0 || s[0] == 0 {
        Seq::<u16>::empty()
    } else {
        seq![s[0]] + until_nul(s.drop_first())
    }
}

/// The GPU an enumerated adapter describes, or `None` for the software
/// fallback adapter: the name is the description up to its first NUL decoded
/// from UTF-16 (unpaired surrogates replaced), the video memory is given in
/// whole MiB and the ids as four-digit upper-case hex.
pub open spec fn spec_adapter_gpu(
    adapter_idx: u32,
    vendor_id: u32,
    device_id: u32,
    description: Seq<u16>,
    dedicated_video_memory: u64,
) -> Option<GPUInfoView> {
    if vendor_id == BASIC_RENDER_VENDOR_ID && device_id == BASIC_RENDER_DEVICE_ID {
        None
    } else {
        Some(
            GPUInfoView {
                vendor: spec_vendor_from_id(vendor_id),
                adapter_idx,
                device_name: spec_utf16_lossy(until_nul(description)),
                vendor_id: spec_hex_upper_padded(vendor_id as nat, 4),
                device_id: spec_hex_upper_padded(device_id as nat, 4),
                vram_mb: (dedicated_video_memory / 1048576u64) as u64,
            },
        )
    }
}

/// An enumerated adapter is skipped exactly when it is the software fallback
/// adapter (vendor 0x1414, device 0x8c); otherwise its GPU keeps the adapter's
/// index, takes the vendor of its PCI vendor id and counts its dedicated video
/// memory in whole MiB (rounded down).
pub proof fn lemma_adapter_gpu(idx: u32, vendor_id: u32, device_id: u32, description: Seq<u16>, mem: u64)
    ensures
        spec_adapter_gpu(idx, vendor_id, device_id, description, mem) is None <==> (vendor_id == 0x1414
            && device_id == 0x8c),
        spec_adapter_gpu(idx, vendor_id, device_id, description, mem) matches Some(g) ==> g.adapter_idx == idx
            && g.vendor == spec_vendor_from_id(vendor_id) && g.vram_mb * 1048576 <= mem < (g.vram_mb + 1)
            * 1048576,
{
}

/// The GPU an enumerated adapter describes (its index, PCI vendor and device
/// ids, UTF-16 description and dedicated video memory in bytes), or `None`
/// for the software fallback adapter, which is skipped.
pub fn gpu_from_adapter(
    adapter_idx: u32,
    vendor_id: u32,
    device_id: u32,
    description: &[u16],
    dedicated_video_memory: u64,
) -> (r: Option<GPUInfo>)
    ensures
        match spec_adapter_gpu(adapter_idx, vendor_id, device_id, description@, dedicated_video_memory) {
            Some(v) => r matches Some(g) && g@ == v,
            None => r is None,
        },
{
    if vendor_id == BASIC_RENDER_VENDOR_ID && device_id == BASIC_RENDER_DEVICE_ID {
        return None;
    }
    let mut units: Vec<u16> = Vec::new();
    let mut i: usize = 0;
    assert(description@.skip(0) == description@);
    assert(units@ + until_nul(description@) == until_nul(description@));
    while i < description.len() && description[i] != 0
        invariant
            i <= description@.len(),
            forall|j: int| 0 <= j < i ==> description@[j] != 0,
            until_nul(description@) == units@ + until_nul(description@.skip(i as int)),
        decreases description.len() - i,
    {
        let ghost rest = description@.skip(i as int);
        assert(rest.drop_first() == description@.skip(i + 1));
        units.push(description[i]);
        i = i + 1;
    }
    assert(until_nul(description@.skip(i as int)) == Seq::<u16>::empty());
    assert(units@ + Seq::<u16>::empty() == units@);
    let name = utf16_lossy(&units);
    Some(
        GPUInfo {
            vendor: GPUVendor::from_vendor_id(vendor_id),
            adapter_idx,
            device_name: name,
            vendor_id: hex_upper_padded(vendor_id as u64, 4),
            device_id: hex_upper_padded(device_id as u64, 4),
            vram_mb: dedicated_video_memory / (1024 * 1024),
        },
    )
}

/// What asking DXGI for the next adapter gave.
pub enum AdapterEvent {
    /// The adapter's PCI vendor and device ids, UTF-16 description and
    /// dedicated video memory in bytes.
    Adapter { vendor_id: u32, device_id: u32, description: Vec<u16>, dedicated_video_memory: u64 },
    /// DXGI has no adapter at this index (`DXGI_ERROR_NOT_FOUND`).
    NotFound,
    /// Any other error.
    Failed,
}

/// What GPU enumeration does next.
#[derive(Debug, Clone, Copy, PartialEq, Eq)]
pub enum EnumerationStep {
    /// Ask for the adapter at this index.
    Next(u32),
    /// Every adapter was seen: the list is complete.
    Done,
    /// Stop and report the error.
    Fail,
}

/// One step of GPU enumeration after DXGI answered for the adapter at
/// `adapter_idx`: an adapter is added to `gpus` (unless it is the software
/// fallback adapter) and the next index is asked for; `NotFound` ends the
/// list; any other error ends enumeration with that error.
pub fn enumeration_step(gpus: &mut Vec<GPUInfo>, adapter_idx: u32, event: AdapterEvent) -> (r:
    EnumerationStep)
    requires
        adapter_idx < u32::MAX,
    ensures
        match event {
            AdapterEvent::Adapter { vendor_id, device_id, description, dedicated_video_memory } => {
                &&& r == EnumerationStep::Next((adapter_idx + 1) as u32)
                &&& match spec_adapter_gpu(
                    adapter_idx,
                    vendor_id,
                    device_id,
                    description@,
                    dedicated_video_memory,
                ) {
                    Some(g) => final(gpus)@.len() == old(gpus)@.len() + 1 && final(gpus)@.take(
                        old(gpus)@.len() as int,
                    ) == old(gpus)@ && final(gpus)@.last()@ == g,
                    None => final(gpus)@ == old(gpus)@,
                }
            },
            AdapterEvent::NotFound => r == EnumerationStep::Done && final(gpus)@ == old(gpus)@,
            AdapterEvent::Failed => r == EnumerationStep::Fail && final(gpus)@ == old(gpus)@,
        },
{
    match event {
        AdapterEvent::Adapter { vendor_id, device_id, description, dedicated_video_memory } => {
            let ghost before = gpus@;
            match gpu_from_adapter(adapter_idx, vendor_id, device_id, &description, dedicated_video_memory) {
                Some(g) => {
                    gpus.push(g);
                    assert(gpus@.take(before.len() as int) == before);
                },
                None => {},
            }
            EnumerationStep::Next(adapter_idx + 1)
        },
        AdapterEvent::NotFound => EnumerationStep::Done,
        AdapterEvent::Failed => EnumerationStep::Fail,
    }
}

/// The GPUs of `gpus` from `vendor`, in order.
pub open spec fn spec_gpus_by_vendor(gpus: Seq<GPUInfo>, vendor: GPUVendor) -> Seq<GPUInfoView>
    decreases gpus.len(),
{
    if gpus.len() == 0 {
        Seq::empty()
    } else {
        let rest = spec_gpus_by_vendor(gpus.drop_last(), vendor);
        if gpus.last().vendor == vendor {
            rest.push(gpus.last()@)
        } else {
            rest
        }
    }
}

/// The GPUs from `vendor`, in order.
pub fn get_gpus_by_vendor(gpus: &[GPUInfo], vendor: GPUVendor) -> (r: Vec<GPUInfo>)
    ensures
        r@.map_values(|g: GPUInfo| g@) == spec_gpus_by_vendor(gpus@, vendor),
{
    let mut out: Vec<GPUInfo> = Vec::new();
    let mut i: usize = 0;
    while i < gpus.len()
        invariant
            i <= gpus@.len(),
            out@.map_values(|g: GPUInfo| g@) == spec_gpus_by_vendor(gpus@.take(i as int), vendor),
        decreases gpus.len() - i,
    {
        assert(gpus@.take(i + 1).drop_last() == gpus@.take(i as int));
        if gpus[i].vendor == vendor {
            out.push(gpus[i].clone());
        }
        i = i + 1;
        assert(out@.map_values(|g: GPUInfo| g@) =~= spec_gpus_by_vendor(gpus@.take(i as int), vendor));
    }
    assert(gpus@.take(gpus@.len() as int) == gpus@);
    out
}

/// The first GPU with adapter index `idx`.
pub fn get_gpu_by_adapter_idx(gpus: &[GPUInfo], idx: u32) -> (r: Option<GPUInfo>)
    ensures
        match r {
            Some(g) => exists|i: int|
                0 <= i < gpus@.len() && gpus@[i].adapter_idx == idx && g@ == gpus@[i]@ && forall|
                    j: int,
                | 0 <= j < i ==> gpus@[j].adapter_idx != idx,
            None => forall|j: int| 0 <= j < gpus@.len() ==> gpus@[j].adapter_idx != idx,
        },
{
    let mut i: usize = 0;
    while i < gpus.len()
        invariant
            i <= gpus@.len(),
            forall|j: int| 0 <= j < i ==> gpus@[j].adapter_idx != idx,
        decreases gpus.len() - i,
    {
        if gpus[i].adapter_idx == idx {
            return Some(gpus[i].clone());
        }
        i = i + 1;
    }
    None
}

/// The GPUs of `gpus` whose name, lower-cased, contains `name_lower`.
pub open spec fn spec_gpus_by_name(gpus: Seq<GPUInfo>, name_lower: Seq<char>) -> Seq<GPUInfoView>
    decreases gpus.len(),
{
    if gpus.len() == 0 {
        Seq::empty()
    } else {
        let rest = spec_gpus_by_name(gpus.drop_last(), name_lower);
        if spec_contains(spec_to_lowercase(gpus.last().device_name@), name_lower) {
            rest.push(gpus.last()@)
        } else {
            rest
        }
    }
}

/// The GPUs of `gpus` whose name, with its ASCII letters lower-cased,
/// contains `name_lower`.
pub open spec fn spec_gpus_by_ascii_name(gpus: Seq<GPUInfo>, name_lower: Seq<char>) -> Seq<GPUInfoView>
    decreases gpus.len(),
{
    if gpus.len() == 0 {
        Seq::empty()
    } else {
        let rest = spec_gpus_by_ascii_name(gpus.drop_last(), name_lower);
        if spec_contains(ascii_lower_text(gpus.last().device_name@), name_lower) {
            rest.push(gpus.last()@)
        } else {
            rest
        }
    }
}

/// Whether `name` and every GPU name are ASCII.
pub open spec fn all_names_ascii(gpus: Seq<GPUInfo>, name: Seq<char>) -> bool {
    is_ascii_text(name) && forall|i: int| 0 <= i < gpus.len() ==> is_ascii_text(#[trigger] gpus[i].device_name@)
}

/// The GPUs whose device name contains `name`, letter case aside, in order.
pub fn get_gpus_by_device_name(gpus: &[GPUInfo], name: &str) -> (r: Vec<GPUInfo>)
    ensures
        r@.map_values(|g: GPUInfo| g@) == spec_gpus_by_name(gpus@, spec_to_lowercase(name@)),
        all_names_ascii(gpus@, name@) ==> r@.map_values(|g: GPUInfo| g@) == spec_gpus_by_ascii_name(
            gpus@,
            ascii_lower_text(name@),
        ),
{
    let name_lower = to_lowercase(name);
    let needle = chars_of(name_lower.as_str());
    let mut out: Vec<GPUInfo> = Vec::new();
    let mut i: usize = 0;
    while i < gpus.len()
        invariant
            i <= gpus@.len(),
            needle@ == spec_to_lowercase(name@),
            out@.map_values(|g: GPUInfo| g@) == spec_gpus_by_name(
                gpus@.take(i as int),
                spec_to_lowercase(name@),
            ),
            all_names_ascii(gpus@, name@) ==> out@.map_values(|g: GPUInfo| g@) == spec_gpus_by_ascii_name(
                gpus@.take(i as int),
                ascii_lower_text(name@),
            ),
            all_names_ascii(gpus@, name@) ==> needle@ == ascii_lower_text(name@),
        decreases gpus.len() - i,
    {
        assert(gpus@.take(i + 1).drop_last() == gpus@.take(i as int));
        let lowered = to_lowercase(gpus[i].device_name.as_str());
        let hay = chars_of(lowered.as_str());
        if contains_chars(&hay, &needle) {
            out.push(gpus[i].clone());
        }
        i = i + 1;
        assert(out@.map_values(|g: GPUInfo| g@) =~= spec_gpus_by_name(
            gpus@.take(i as int),
            spec_to_lowercase(name@),
        ));
        assert(all_names_ascii(gpus@, name@) ==> out@.map_values(|g: GPUInfo| g@) =~= spec_gpus_by_ascii_name(
            gpus@.take(i as int),
            ascii_lower_text(name@),
        ));
    }
    assert(gpus@.take(gpus@.len() as int) == gpus@);
    out
}

/// Whether `i` is the first index of `gpus` whose vendor is preferred most.
pub open spec fn is_primary_index(gpus: Seq<GPUInfo>, i: int) -> bool {
    &&& 0 <= i < gpus.len()
    &&& forall|j: int| 0 <= j < i ==> gpus[j].vendor.spec_rank() > gpus[i].vendor.spec_rank()
    &&& forall|j: int| i <= j < gpus.len() ==> gpus[j].vendor.spec_rank() >= gpus[i].vendor.spec_rank()
}

/// The index of the GPU to stream from: the first one from the most preferred
/// vendor (NVIDIA, then AMD, then Intel, then any other).
pub fn primary_gpu_index(gpus: &[GPUInfo]) -> (r: Option<usize>)
    ensures
        match r {
            Some(i) => is_primary_index(gpus@, i as int),
            None => gpus@.len() == 0,
        },
{
    if gpus.len() == 0 {
        return None;
    }
    let mut best: usize = 0;
    let mut best_rank = gpus[0].vendor.rank();
    let mut i: usize = 1;
    while i < gpus.len()
        invariant
            1 <= i <= gpus@.len(),
            best < i,
            best_rank == gpus@[best as int].vendor.spec_rank(),
            forall|j: int| 0 <= j < best ==> gpus@[j].vendor.spec_rank() > best_rank,
            forall|j: int| best <= j < i ==> gpus@[j].vendor.spec_rank() >= best_rank,
        decreases gpus.len() - i,
    {
        let r = gpus[i].vendor.rank();
        if r < best_rank {
            best = i;
            best_rank = r;
        }
        i = i + 1;
    }
    Some(best)
}

/// Whether vendor `a` is preferred to vendor `b`, or is `b`: NVIDIA first,
/// then AMD, then Intel, then any other.
pub open spec fn vendor_at_least(a: GPUVendor, b: GPUVendor) -> bool {
    ||| a == b
    ||| a == GPUVendor::NVIDIA
    ||| (a == GPUVendor::AMD && b != GPUVendor::NVIDIA)
    ||| (a == GPUVendor::INTEL && b == GPUVendor::UNKNOWN)
}

/// Vendors are preferred in the order NVIDIA, AMD, Intel, then any other:
/// ranks follow that order, and the GPU chosen to stream from is the first one
/// whose vendor is preferred to, or the same as, every other GPU's vendor (so
/// a GPU of unknown vendor is only chosen when no GPU has a known vendor).
pub proof fn lemma_vendor_preference(gpus: Seq<GPUInfo>, i: int)
    ensures
        GPUVendor::NVIDIA.spec_rank() < GPUVendor::AMD.spec_rank(),
        GPUVendor::AMD.spec_rank() < GPUVendor::INTEL.spec_rank(),
        GPUVendor::INTEL.spec_rank() < GPUVendor::UNKNOWN.spec_rank(),
        is_primary_index(gpus, i) ==> (forall|j: int| 0 <= j < gpus.len() ==> vendor_at_least(
            gpus[i].vendor,
            #[trigger] gpus[j].vendor,
        )) && (forall|j: int| 0 <= j < i ==> #[trigger] gpus[j].vendor != gpus[i].vendor),
        is_primary_index(gpus, i) && (exists|j: int| 0 <= j < gpus.len() && #[trigger] gpus[j].vendor
            != GPUVendor::UNKNOWN) ==> gpus[i].vendor != GPUVendor::UNKNOWN,
{
    if is_primary_index(gpus, i) {
        assert forall|j: int| 0 <= j < gpus.len() implies vendor_at_least(gpus[i].vendor, #[trigger] gpus[j].vendor) by {
            if j < i {
                assert(gpus[j].vendor.spec_rank() > gpus[i].vendor.spec_rank());
            } else {
                assert(gpus[j].vendor.spec_rank() >= gpus[i].vendor.spec_rank());
            }
        }
        assert forall|j: int| 0 <= j < i implies #[trigger] gpus[j].vendor != gpus[i].vendor by {
            assert(gpus[j].vendor.spec_rank() > gpus[i].vendor.spec_rank());
        }
    }
}

/// The GPU to stream from: the first one from the most preferred vendor.
pub fn get_primary_gpu(gpus: &[GPUInfo]) -> (r: Option<&GPUInfo>)
    ensures
        match r {
            Some(g) => exists|i: int| is_primary_index(gpus@, i) && *g == gpus@[i],
            None => gpus@.len() == 0,
        },
{
    match primary_gpu_index(gpus) {
        Some(i) => Some(&gpus[i]),
        None => None,
    }
}

/// The GPU the server captures with: the first one with adapter index
/// `wanted` if one is given and present, else the first one.
pub fn select_gpu(gpus: &[GPUInfo], wanted: Option<u32>) -> (r: Option<&GPUInfo>)
    ensures
        gpus@.len() == 0 ==> r is None,
        gpus@.len() > 0 ==> (r matches Some(g) && (
            (exists|i: int|
                0 <= i < gpus@.len() && wanted == Some(gpus@[i].adapter_idx) && *g == gpus@[i]
                    && forall|j: int| 0 <= j < i ==> wanted != Some(gpus@[j].adapter_idx))
            || ((forall|j: int| 0 <= j < gpus@.len() ==> wanted != Some(gpus@[j].adapter_idx))
                && *g == gpus@[0]))),
{
    if gpus.len() == 0 {
        return None;
    }
    if let Some(idx) = wanted {
        let mut i: usize = 0;
        while i < gpus.len()
            invariant
                i <= gpus@.len(),
                wanted == Some(idx),
                forall|j: int| 0 <= j < i ==> gpus@[j].adapter_idx != idx,
            decreases gpus.len() - i,
        {
            if gpus[i].adapter_idx == idx {
                return Some(&gpus[i]);
            }
            i = i + 1;
        }
    }
    Some(&gpus[0])
}

} // verus!
