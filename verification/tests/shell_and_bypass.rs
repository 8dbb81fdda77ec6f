use streamshield::nvidia_bypass::{
    apply_full_bypass, apply_mpo_and_overlay_fix, disable_nvfbc_capture, display_affinity_patch,
    layer_report, module_walk_patch, nvidia_capture_process, patch_nvidia_processes, patch_present,
    site_outcome, snapshot_failure_report, summarize_drm_patch, unsupported_bypass_status, PatchOutcome,
    ProcessPatchReport, RegistryWrite,
};
use streamshield::shell::{
    autostart_command, autostart_enabled, autostart_write_outcome, has_minimized_flag,
    mpo_fix_active, mpo_fix_write_outcome, relaunch_show_command, should_start_minimized,
    tray_status_text, SW_HIDE, SW_SHOW,
};
use streamshield::text::{format_i64, format_u64, join_strings};

fn strings(v: &[&str]) -> Vec<String> {
    v.iter().map(|s| s.to_string()).collect()
}

#[test]
fn tray_text() {
    assert_eq!(tray_status_text(0), "No apps shielded");
    assert_eq!(tray_status_text(1), "🛡️  1 app hidden from capture");
    assert_eq!(tray_status_text(3), "🛡️  3 apps hidden from capture");
    assert_eq!(tray_status_text(120), "🛡️  120 apps hidden from capture");
}

#[test]
fn decimal_rendering() {
    assert_eq!(format_u64(0), "0");
    assert_eq!(format_u64(1234567890), "1234567890");
    assert_eq!(format_u64(u64::MAX), u64::MAX.to_string());
    assert_eq!(format_i64(-5), "-5");
    assert_eq!(format_i64(i64::MIN), i64::MIN.to_string());
    assert_eq!(format_i64(42), "42");
}

#[test]
fn joining() {
    assert_eq!(join_strings(&strings(&["a", "b", "c"]), "; "), "a; b; c");
    assert_eq!(join_strings(&strings(&["a"]), "; "), "a");
    assert_eq!(join_strings(&strings(&[]), "; "), "");
}

#[test]
fn launch_flags() {
    assert!(has_minimized_flag(&strings(&["app.exe", "--minimized"])));
    assert!(has_minimized_flag(&strings(&["-m"])));
    assert!(!has_minimized_flag(&strings(&["app.exe", "--minimize", "-M"])));
    assert!(should_start_minimized(&strings(&["app.exe"]), true));
    assert!(!should_start_minimized(&strings(&["app.exe"]), false));
    assert_eq!(relaunch_show_command(true), SW_HIDE);
    assert_eq!(relaunch_show_command(false), SW_SHOW);
}

#[test]
fn autostart_entry() {
    assert_eq!(autostart_command("C:\\Apps\\streamshield.exe"), "\"C:\\Apps\\streamshield.exe\" --minimized");
    assert_eq!(autostart_write_outcome(0, true, 0), Ok(()));
    assert_eq!(autostart_write_outcome(5, true, 0), Err("RegOpenKeyExW failed with error code: 5".to_string()));
    assert_eq!(autostart_write_outcome(0, true, 87), Err("RegSetValueExW failed with error: 87".to_string()));
    assert_eq!(autostart_write_outcome(0, false, 2), Ok(()));
    assert_eq!(autostart_write_outcome(0, false, 5), Err("RegDeleteValueW failed with error: 5".to_string()));
    assert!(autostart_enabled(0, 0, 10));
    assert!(!autostart_enabled(0, 0, 0));
    assert!(!autostart_enabled(2, 0, 10));
}

#[test]
fn mpo_registry() {
    assert_eq!(
        mpo_fix_write_outcome(5, true, 0),
        Err("RegOpenKeyExW (HKLM) failed (error code 5). Administrator privileges required to change MPO settings.".to_string())
    );
    assert_eq!(mpo_fix_write_outcome(0, true, 0), Ok(()));
    assert_eq!(mpo_fix_write_outcome(0, false, 2), Ok(()));
    assert_eq!(mpo_fix_write_outcome(0, false, -1), Err("RegDeleteValueW failed with error: -1".to_string()));
    assert!(mpo_fix_active(0, 0, 5));
    assert!(!mpo_fix_active(0, 0, 4));
    assert!(!mpo_fix_active(0, 2, 5));
}

#[test]
fn nvidia_process_names_and_patches() {
    assert!(nvidia_capture_process("nvcontainer.exe"));
    assert!(nvidia_capture_process("nvidia share.exe"));
    assert!(!nvidia_capture_process("NVContainer.exe"));
    assert!(!nvidia_capture_process("obs64.exe"));
    let g = display_affinity_patch();
    assert_eq!(g.len(), 17);
    assert_eq!(&g[..3], &[0x48, 0x85, 0xD2]);
    assert_eq!(module_walk_patch(), vec![0x31, 0xC0, 0xC3]);
    assert!(patch_present(&vec![0x48, 0x85, 0xD2], 3, &g, 3));
    assert!(!patch_present(&vec![0x48, 0x85, 0xD2], 2, &g, 3));
    assert!(!patch_present(&vec![0x48, 0x85, 0x00], 3, &g, 3));
    assert!(patch_present(&vec![0x31, 0xC0], 2, &module_walk_patch(), 2));
}

#[test]
fn drm_summary() {
    let empty = summarize_drm_patch(&vec![]);
    assert_eq!(empty.0, 0);
    assert_eq!(empty.1, strings(&["No NVIDIA capture processes found running"]));
    let reports = vec![
        ProcessPatchReport {
            pid: 10,
            exe_name: "nvcontainer.exe".to_string(),
            open_error: Some(5),
            display_affinity: PatchOutcome::Written,
            module_walk: PatchOutcome::Written,
        },
        ProcessPatchReport {
            pid: 11,
            exe_name: "nvidia app.exe".to_string(),
            open_error: None,
            display_affinity: PatchOutcome::AlreadyPresent,
            module_walk: PatchOutcome::Unresolved("kernel32.dll not found in PID 11".to_string()),
        },
        ProcessPatchReport {
            pid: 12,
            exe_name: "nvspcaps64.exe".to_string(),
            open_error: None,
            display_affinity: PatchOutcome::WriteFailed(998),
            module_walk: PatchOutcome::Written,
        },
        ProcessPatchReport {
            pid: 13,
            exe_name: "nvsphelper64.exe".to_string(),
            open_error: None,
            display_affinity: PatchOutcome::Written,
            module_walk: PatchOutcome::WriteFailed(5),
        },
    ];
    let (n, errs) = summarize_drm_patch(&reports);
    assert_eq!(n, 2);
    assert_eq!(
        errs,
        strings(&[
            "nvcontainer.exe (PID 10): OpenProcess failed (error 5)",
            "nvidia app.exe (PID 11): M32F address resolution: kernel32.dll not found in PID 11",
            "nvspcaps64.exe (PID 12): WriteProcessMemory for GWDA failed (error 998)",
            "nvsphelper64.exe (PID 13): WriteProcessMemory for M32F failed (error 5)",
        ])
    );
    assert_eq!(patch_nvidia_processes(&(n, errs)), 2);
    let snap = snapshot_failure_report();
    assert_eq!(snap.0, 0);
    assert_eq!(snap.1, strings(&["Failed to create process snapshot"]));
}

#[test]
fn registry_layers() {
    let ok = RegistryWrite { open_status: 0, set_status: 0 };
    let denied = RegistryWrite { open_status: 5, set_status: 0 };
    let bad_set = RegistryWrite { open_status: 0, set_status: 87 };
    assert_eq!(apply_mpo_and_overlay_fix(&ok, &ok), (true, None));
    assert_eq!(
        apply_mpo_and_overlay_fix(&denied, &bad_set),
        (false, Some("DWM registry open failed: error 5 (need admin); DisableOverlays set failed: error 87".to_string()))
    );
    assert_eq!(
        apply_mpo_and_overlay_fix(&ok, &denied),
        (true, Some("GraphicsDrivers registry open failed: error 5".to_string()))
    );
    assert_eq!(
        disable_nvfbc_capture(&denied, &ok),
        (
            true,
            Some("SYSTEM\\CurrentControlSet\\Services\\nvlddmkm\\FTS open failed: error 5 (may not exist on this driver)".to_string())
        )
    );
    assert_eq!(
        disable_nvfbc_capture(&ok, &bad_set),
        (
            true,
            Some("SOFTWARE\\NVIDIA Corporation\\Global\\NvFBC\\EnableDesktopCapture set failed: error 87".to_string())
        )
    );
    assert_eq!(layer_report(&vec![]), (false, None));
    assert_eq!(layer_report(&vec![Err("x".to_string()), Ok(()), Err("y".to_string())]), (true, Some("x; y".to_string())));
}

#[test]
fn bypass_status() {
    let s = apply_full_bypass((3, strings(&["e"])), (true, None), (false, Some("n".to_string())));
    assert_eq!(s.drm_patch_count, 3);
    assert_eq!(s.drm_patch_errors, strings(&["e"]));
    assert!(s.mpo_fix_applied && s.mpo_fix_error.is_none());
    assert!(!s.nvfbc_disabled);
    assert_eq!(s.nvfbc_error, Some("n".to_string()));
    let u = unsupported_bypass_status();
    assert_eq!(u.drm_patch_count, 0);
    assert_eq!(u.drm_patch_errors, strings(&["Not supported on this platform"]));
    assert_eq!(u.mpo_fix_error.as_deref(), Some("Not supported on this platform"));
    assert_eq!(u.nvfbc_error.as_deref(), Some("Not supported on this platform"));
    assert!(!u.mpo_fix_applied && !u.nvfbc_disabled);
}

#[test]
fn second_patch_pass_finds_the_patch() {
    assert!(matches!(site_outcome(true, false, 5), PatchOutcome::AlreadyPresent));
    assert!(matches!(site_outcome(false, true, 5), PatchOutcome::Written));
    assert!(matches!(site_outcome(false, false, 5), PatchOutcome::WriteFailed(5)));
    // A site whose bytes were just overwritten by the patch reads back as patched.
    let patch = display_affinity_patch();
    let mut mem = vec![0x90u8; 32];
    mem[..patch.len()].copy_from_slice(&patch);
    let current = mem[..3].to_vec();
    assert!(patch_present(&current, 3, &patch, 3));
    assert!(matches!(site_outcome(patch_present(&current, 3, &patch, 3), false, 0), PatchOutcome::AlreadyPresent));
}

#[test]
fn registry_reads_back_what_was_written() {
    // autostart: a written command is found and not empty; a deleted value is not found.
    assert!(autostart_write_outcome(0, true, 0).is_ok());
    assert!(autostart_enabled(0, 0, 2 * (autostart_command("C:\\a.exe").len() as u32 + 1)));
    assert!(autostart_write_outcome(0, false, 2).is_ok());
    assert!(!autostart_enabled(0, 2, 0));
    // MPO fix: 5 is written, or the value is deleted.
    assert!(mpo_fix_write_outcome(0, true, 0).is_ok());
    assert!(mpo_fix_active(0, 0, 5));
    assert!(mpo_fix_write_outcome(0, false, 0).is_ok());
    assert!(!mpo_fix_active(0, 2, 0));
}
