use vocawin::gpu::{
    detect_gpu, detect_vram_mb, recommend_starting_model, wchar_to_string, AdapterDesc, GpuStatus,
};

fn adapter(name: &str, software: bool, vram_mb: u64) -> AdapterDesc {
    let mut description: Vec<u16> = name.encode_utf16().collect();
    description.resize(128, 0);
    AdapterDesc {
        description,
        software_flag: software,
        dedicated_video_memory: vram_mb * 1024 * 1024,
    }
}

#[test]
fn recommendation_always_picks_whisper_family() {
    let gpu = detect_gpu(false, &Ok(Vec::new()), false);
    let rec = recommend_starting_model(gpu, detect_vram_mb(false, &Ok(Vec::new())));
    assert!(rec.model_id.starts_with("whisper-"));
    assert!(!rec.reason.is_empty());
}

#[test]
fn discrete_adapters_win_and_software_ones_are_skipped() {
    let adapters = vec![
        adapter("Microsoft Basic Render Driver", false, 0),
        adapter("Intel(R) UHD Graphics 770", false, 128),
        adapter("NVIDIA GeForce RTX 4060", false, 8188),
        adapter("Remote WARP", true, 0),
    ];
    let gpu = detect_gpu(true, &Ok(adapters), true);
    assert!(gpu.available);
    assert_eq!(gpu.name, "NVIDIA GeForce RTX 4060");
    assert_eq!(gpu.device_index, 2);
    assert!(gpu.discrete);
    assert_eq!(gpu.vram_mb, 8188);
    assert_eq!(
        gpu.detail,
        "Using discrete adapter “NVIDIA GeForce RTX 4060” (~8188 MB VRAM) for Whisper Vulkan. Software/WARP adapters are skipped."
    );
    let only_software = vec![adapter("Microsoft Basic Render Driver", true, 0)];
    assert!(!detect_gpu(true, &Ok(only_software), false).available);
    let failed = detect_gpu(true, &Err("no factory".into()), false);
    assert_eq!(failed.detail, "DXGI unavailable (no factory); Whisper falls back to CPU.");
    assert_eq!(detect_gpu(false, &Ok(Vec::new()), true).name, "Not available");
    let first = vec![adapter("WARP", false, 0), adapter("Intel(R) Iris(R) Xe", false, 128)];
    assert_eq!(detect_vram_mb(true, &Ok(first)), 128);
}

#[test]
fn recommendations_follow_video_memory() {
    let gpu = |name: &str, vram_mb: u64| GpuStatus {
        available: true,
        name: name.into(),
        backend: "CPU".into(),
        detail: String::new(),
        device_index: 0,
        discrete: true,
        vram_mb,
    };
    assert_eq!(recommend_starting_model(gpu("Small GPU", 1024), 1024).model_id, "whisper-tiny");
    assert_eq!(recommend_starting_model(gpu("Mid GPU", 3072), 3072).model_id, "whisper-base");
    let big = recommend_starting_model(gpu("RTX 4090", 24564), 24564);
    assert_eq!(big.model_id, "whisper-small");
    assert!(big.reason.contains("can run larger models"));
    assert_eq!(recommend_starting_model(gpu("Radeon 780M", 0), 0).model_id, "whisper-small");
    assert_eq!(recommend_starting_model(gpu("Intel Iris", 0), 0).model_id, "whisper-base");
    assert_eq!(wchar_to_string(&[0x48, 0x69, 0, 0x41]), "Hi");
    assert_eq!(wchar_to_string(&[0xD800, 0x41]), "\u{FFFD}A");
}
