use nestri_server::gpu::{enumeration_step, AdapterEvent, EnumerationStep};
use nestri_server::gpu::{
    get_gpu_by_adapter_idx, get_gpus, get_gpus_by_device_name, get_gpus_by_vendor,
    get_primary_gpu, gpu_from_adapter, select_gpu, GPUInfo, GPUVendor, GpuError,
};

fn gpu(vendor: GPUVendor, idx: u32, name: &str) -> GPUInfo {
    GPUInfo {
        vendor,
        adapter_idx: idx,
        device_name: name.to_string(),
        vendor_id: "0000".to_string(),
        device_id: "0000".to_string(),
        vram_mb: 1024,
    }
}

fn wide(s: &str) -> Vec<u16> {
    let mut v: Vec<u16> = s.encode_utf16().collect();
    v.resize(128, 0);
    v
}

#[test]
fn vendor_from_pci_id() {
    assert_eq!(GPUVendor::from(0x10DEu32), GPUVendor::NVIDIA);
    assert_eq!(GPUVendor::from(0x1002u32), GPUVendor::AMD);
    assert_eq!(GPUVendor::from(0x8086u32), GPUVendor::INTEL);
    assert_eq!(GPUVendor::from(0x1414u32), GPUVendor::UNKNOWN);
}

#[test]
fn vendor_from_name_ignores_case() {
    assert_eq!(GPUVendor::from("NVIDIA"), GPUVendor::NVIDIA);
    assert_eq!(GPUVendor::from("Amd"), GPUVendor::AMD);
    assert_eq!(GPUVendor::from(String::from("intel")), GPUVendor::INTEL);
    assert_eq!(GPUVendor::from("matrox"), GPUVendor::UNKNOWN);
}

#[test]
fn vendor_name_reads_back() {
    for v in [GPUVendor::NVIDIA, GPUVendor::AMD, GPUVendor::INTEL] {
        assert_eq!(GPUVendor::from(v.as_str()), v);
    }
    assert_eq!(GPUVendor::UNKNOWN.as_str(), "Unknown");
}

#[test]
fn description_line() {
    let g = GPUInfo {
        vendor: GPUVendor::NVIDIA,
        adapter_idx: 0,
        device_name: "NVIDIA GeForce RTX 4070".to_string(),
        vendor_id: "10DE".to_string(),
        device_id: "2786".to_string(),
        vram_mb: 12026,
    };
    assert_eq!(
        g.as_str(),
        "NVIDIA GeForce RTX 4070 (Vendor: NVIDIA, Adapter Index: 0, VRAM: 12026 MB, VendorID: 0x10DE, DeviceID: 0x2786)"
    );
    assert_eq!(g.gst_device_index(), Some(0));
    assert_eq!(g.vendor(), &GPUVendor::NVIDIA);
    assert_eq!(g.adapter_idx(), 0);
    assert_eq!(g.device_name(), "NVIDIA GeForce RTX 4070");
    assert_eq!(g.vram_mb(), 12026);
}

#[test]
fn only_nvidia_has_device_index() {
    assert_eq!(gpu(GPUVendor::AMD, 3, "x").gst_device_index(), None);
    assert_eq!(gpu(GPUVendor::NVIDIA, 3, "x").gst_device_index(), Some(3));
}

#[test]
fn enumeration_is_unsupported_off_windows() {
    assert_eq!(get_gpus(), Err(GpuError::Unsupported));
}

#[test]
fn adapter_becomes_gpu() {
    let g = gpu_from_adapter(1, 0x10DE, 0x2786, &wide("NVIDIA GeForce RTX 4070"), 12_610_174_976)
        .unwrap();
    assert_eq!(g.vendor, GPUVendor::NVIDIA);
    assert_eq!(g.adapter_idx, 1);
    assert_eq!(g.device_name, "NVIDIA GeForce RTX 4070");
    assert_eq!(g.vendor_id, "10DE");
    assert_eq!(g.device_id, "2786");
    assert_eq!(g.vram_mb, 12026);
}

#[test]
fn basic_render_driver_is_skipped() {
    assert!(gpu_from_adapter(2, 0x1414, 0x8c, &wide("Microsoft Basic Render Driver"), 0).is_none());
    assert!(gpu_from_adapter(2, 0x1414, 0x8d, &wide("Other"), 0).is_some());
}

#[test]
fn filters_keep_order() {
    let gpus = vec![
        gpu(GPUVendor::INTEL, 0, "Intel UHD 770"),
        gpu(GPUVendor::NVIDIA, 1, "NVIDIA GeForce RTX 4070"),
        gpu(GPUVendor::NVIDIA, 2, "NVIDIA GeForce GTX 1650"),
    ];
    let nv = get_gpus_by_vendor(&gpus, GPUVendor::NVIDIA);
    assert_eq!(nv.iter().map(|g| g.adapter_idx).collect::<Vec<_>>(), vec![1, 2]);
    assert_eq!(get_gpu_by_adapter_idx(&gpus, 2).unwrap().device_name, "NVIDIA GeForce GTX 1650");
    assert!(get_gpu_by_adapter_idx(&gpus, 7).is_none());
    let rtx = get_gpus_by_device_name(&gpus, "RTX");
    assert_eq!(rtx.len(), 1);
    assert_eq!(rtx[0].adapter_idx, 1);
    assert_eq!(get_gpus_by_device_name(&gpus, "geforce").len(), 2);
}

#[test]
fn primary_prefers_nvidia_then_amd_then_intel() {
    let gpus = vec![
        gpu(GPUVendor::INTEL, 0, "a"),
        gpu(GPUVendor::AMD, 1, "b"),
        gpu(GPUVendor::NVIDIA, 2, "c"),
        gpu(GPUVendor::NVIDIA, 3, "d"),
    ];
    assert_eq!(get_primary_gpu(&gpus).unwrap().adapter_idx, 2);
    assert_eq!(get_primary_gpu(&gpus[..2]).unwrap().adapter_idx, 1);
    assert!(get_primary_gpu(&[]).is_none());
}

#[test]
fn select_by_index_or_first() {
    let gpus = vec![gpu(GPUVendor::INTEL, 0, "a"), gpu(GPUVendor::NVIDIA, 1, "b")];
    assert_eq!(select_gpu(&gpus, Some(1)).unwrap().adapter_idx, 1);
    assert_eq!(select_gpu(&gpus, Some(5)).unwrap().adapter_idx, 0);
    assert_eq!(select_gpu(&gpus, None).unwrap().adapter_idx, 0);
    assert!(select_gpu(&[], Some(0)).is_none());
}

#[test]
fn vendor_from_lower_case_name() {
    assert_eq!(GPUVendor::from_lower_name("nvidia"), GPUVendor::NVIDIA);
    assert_eq!(GPUVendor::from_lower_name("amd"), GPUVendor::AMD);
    assert_eq!(GPUVendor::from_lower_name("intel"), GPUVendor::INTEL);
    assert_eq!(GPUVendor::from_lower_name("NVIDIA"), GPUVendor::UNKNOWN);
    assert_eq!(GPUVendor::from_lower_name("matrox"), GPUVendor::UNKNOWN);
}

#[test]
fn enumeration_error_text() {
    assert_eq!(get_gpus().unwrap_err().message(), "get_gpus() is only supported on Windows in this build");
}

#[test]
fn vendor_round_trips() {
    for v in [GPUVendor::INTEL, GPUVendor::NVIDIA, GPUVendor::AMD, GPUVendor::UNKNOWN] {
        assert_eq!(GPUVendor::from(v.vendor_id()), v);
        assert_eq!(GPUVendor::from(v.as_str()), v);
    }
    assert_eq!(GPUVendor::NVIDIA.vendor_id(), 0x10DE);
    assert_eq!(GPUVendor::from("nViDiA"), GPUVendor::NVIDIA);
    assert_eq!(GPUVendor::from("radeon"), GPUVendor::UNKNOWN);
    assert_eq!(GPUVendor::from(0x1414u32), GPUVendor::UNKNOWN);
}

#[test]
fn enumeration_steps() {
    let mut gpus = Vec::new();
    let name: Vec<u16> = "RTX 4090\0junk".encode_utf16().collect();
    let step = enumeration_step(
        &mut gpus,
        0,
        AdapterEvent::Adapter { vendor_id: 0x10DE, device_id: 0x2684, description: name, dedicated_video_memory: 24 << 30 },
    );
    assert_eq!(step, EnumerationStep::Next(1));
    assert_eq!(gpus.len(), 1);
    assert_eq!(gpus[0].device_name, "RTX 4090");
    assert_eq!(gpus[0].adapter_idx, 0);
    assert_eq!(gpus[0].vram_mb, 24 * 1024);
    let basic = AdapterEvent::Adapter { vendor_id: 0x1414, device_id: 0x8c, description: vec![], dedicated_video_memory: 0 };
    assert_eq!(enumeration_step(&mut gpus, 1, basic), EnumerationStep::Next(2));
    assert_eq!(gpus.len(), 1);
    assert_eq!(enumeration_step(&mut gpus, 2, AdapterEvent::NotFound), EnumerationStep::Done);
    assert_eq!(enumeration_step(&mut gpus, 2, AdapterEvent::Failed), EnumerationStep::Fail);
    assert_eq!(gpus.len(), 1);
}
