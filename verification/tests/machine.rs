use vocawin::gpu::GpuStatus;
use vocawin::machine::{
    cpu_label, cpu_name_from_cpuinfo, debug_report, format_bytes, os_name_from_release,
    ram_summary, redact_after_prefix, redact_home_paths, total_ram_from_meminfo, windows_os_name,
    MachineReadout,
};

fn sample_gpu() -> GpuStatus {
    GpuStatus {
        available: true,
        name: "NVIDIA GeForce RTX 3080".into(),
        backend: "Vulkan (whisper.cpp) · DirectML (ONNX)".into(),
        detail: "discrete".into(),
        device_index: 0,
        discrete: true,
        vram_mb: 10240,
    }
}

fn sample_machine() -> MachineReadout {
    MachineReadout {
        os: "Windows 11 Pro 23H2 (build 22631)".into(),
        cpu_name: "AMD Ryzen 7 5800X".into(),
        logical_threads: 16,
        total_ram_bytes: Some(32 * 1024 * 1024 * 1024),
    }
}

#[test]
fn report_lists_version_os_cpu_ram_gpu_and_debug_flag() {
    let report = debug_report(sample_gpu(), false, "[warn] hotkey busy\n[error] boom", &sample_machine());
    assert!(
        report.text.starts_with("VocaWin 0.1.0\n"),
        "{}",
        report.text
    );
    assert!(!report.text.contains("Machine:"));
    assert!(!report.text.to_ascii_lowercase().contains("hostname"));
    assert!(report.text.contains("OS: "));
    assert!(report.text.contains("CPU: "));
    assert!(report.text.contains("RAM: "));
    assert!(report
        .text
        .contains("GPU: NVIDIA GeForce RTX 3080 (discrete, ~10240 MB)"));
    assert!(report
        .text
        .contains("GPU backend: Vulkan (whisper.cpp) · DirectML (ONNX)"));
    assert!(report.text.contains("Debug logging: off"));
    assert!(report.text.contains("[warn] hotkey busy"));
    assert!(report.text.contains("[error] boom"));
    assert_eq!(report.version, "0.1.0");
    assert!(!report.debug_logging);
    assert_eq!(report.cpu, "AMD Ryzen 7 5800X (16 logical)");
    assert_eq!(report.ram, "32 GB");
}

#[test]
fn report_redacts_profile_directories_in_logs() {
    let report = debug_report(
        sample_gpu(),
        true,
        r"[error] Model missing at C:\Users\Ada\AppData\Roaming\com.vocahq.vocawin\models\x.bin
[error] also /home/ada/.local/share/vocawin/models/x.bin
[error] also /Users/ada/Library/Application Support/vocawin/x.bin",
        &sample_machine(),
    );
    assert!(report.text.contains(r"C:\Users\<user>\AppData"));
    assert!(report.text.contains("/home/<user>/.local"));
    assert!(report.text.contains("/Users/<user>/Library"));
    assert!(!report.text.contains(r"\Users\Ada\"));
    assert!(!report.text.contains("/home/ada/"));
    assert!(!report.text.contains("/Users/ada/"));
}

#[test]
fn empty_logs_still_copy_the_machine_block() {
    let report = debug_report(sample_gpu(), true, "  \n", &sample_machine());
    assert!(report.text.contains("Debug logging: on"));
    assert!(report.text.contains("No log lines."));
}

#[test]
fn ram_formatter_uses_gb_for_typical_pcs() {
    assert_eq!(format_bytes(32 * 1024 * 1024 * 1024), "32 GB");
    assert_eq!(format_bytes(8 * 1024 * 1024 * 1024), "8.0 GB");
    assert_eq!(format_bytes(512 * 1024 * 1024), "512 MB");
}

#[test]
fn ram_formatter_rounds_like_the_float_formatting() {
    let gib = 1024u64 * 1024 * 1024;
    for bytes in [
        gib,
        gib + gib / 20,
        gib + gib / 4,
        3 * gib / 2,
        gib * 9 + gib * 19 / 20,
        10 * gib - 1,
        10 * gib + gib / 2,
        15 * gib / 2,
        700 * 1024 * 1024 + 512 * 1024,
        0,
    ] {
        let gb = bytes as f64 / (1024.0 * 1024.0 * 1024.0);
        let expected = if gb >= 10.0 {
            format!("{} GB", gb.round() as u64)
        } else if gb >= 1.0 {
            format!("{gb:.1} GB")
        } else {
            let mb = bytes as f64 / (1024.0 * 1024.0);
            format!("{} MB", mb.round() as u64)
        };
        assert_eq!(format_bytes(bytes), expected, "{bytes}");
    }
    assert_eq!(ram_summary(None), "unknown");
}

#[test]
fn collect_never_returns_empty_required_fields() {
    let blank = MachineReadout {
        os: "  ".into(),
        cpu_name: String::new(),
        logical_threads: 0,
        total_ram_bytes: None,
    };
    let report = debug_report(
        GpuStatus {
            available: false,
            name: "Not available".into(),
            backend: "CPU".into(),
            detail: "".into(),
            device_index: -1,
            discrete: false,
            vram_mb: 0,
        },
        false,
        "",
        &blank,
    );
    assert!(!report.os.trim().is_empty());
    assert!(!report.cpu.trim().is_empty());
    assert!(!report.ram.trim().is_empty());
    assert!(report.text.contains("OS: "));
    assert!(report.text.contains("CPU: "));
    assert!(report.text.contains("RAM: "));
    assert!(report.text.contains("GPU: Not available (CPU)"));
}

#[test]
fn readouts_are_parsed_from_system_files() {
    let release = "NAME=\"Ubuntu\"\nPRETTY_NAME=\"Ubuntu 24.04 LTS\"\n";
    assert_eq!(os_name_from_release(Some(release), "linux x86_64"), "Ubuntu 24.04 LTS");
    assert_eq!(os_name_from_release(Some("PRETTY_NAME=\"\"\n"), "linux x86_64"), "linux x86_64");
    assert_eq!(os_name_from_release(None, "linux x86_64"), "linux x86_64");
    let cpuinfo = "processor\t: 0\nModel Name\t: Intel(R) Core(TM) i7\n";
    assert_eq!(cpu_name_from_cpuinfo(Some(cpuinfo), None), "Intel(R) Core(TM) i7");
    assert_eq!(cpu_name_from_cpuinfo(Some("Hardware : BCM2835\n"), None), "BCM2835");
    assert_eq!(cpu_name_from_cpuinfo(None, Some("x86 Family 6")), "x86 Family 6");
    assert_eq!(cpu_name_from_cpuinfo(None, None), "unknown CPU");
    assert_eq!(
        total_ram_from_meminfo("MemFree: 1 kB\nMemTotal:       16303044 kB\n"),
        Some(16303044 * 1024)
    );
    assert_eq!(total_ram_from_meminfo("MemTotal: lots\n"), None);
    assert_eq!(cpu_label("Ryzen (8 logical)", 8), "Ryzen (8 logical)");
    assert_eq!(cpu_label("Ryzen", 0), "Ryzen");
    assert_eq!(
        windows_os_name(Some("Windows 10 Pro"), Some("22631"), Some("23H2")),
        "Windows 11 Pro 23H2 (build 22631)"
    );
    assert_eq!(
        windows_os_name(Some("Windows 10 Home"), Some("19045"), None),
        "Windows 10 Home (build 19045)"
    );
    assert_eq!(windows_os_name(None, None, None), "Windows");
}

#[test]
fn redaction_stops_at_separators() {
    assert_eq!(redact_after_prefix("/home/ada", "/home/"), "/home/<user>");
    assert_eq!(redact_after_prefix("/home//x /home/", "/home/"), "/home//x /home/");
    assert_eq!(
        redact_home_paths("at \"/Users/bob\" and '/home/eve'"),
        "at \"/Users/<user>\" and '/home/<user>'"
    );
}
