use streamshield::affinity::{
    affinity_for, decode_legacy_shield_param, decode_shield_param, direct_already_applied,
    direct_fallback_affinity, encode_shield_param, hook_already_applied, hook_fallback_affinity,
    is_capture_excluded, is_sibling_window, prefers_monitor, WDA_EXCLUDEFROMCAPTURE, WDA_MONITOR,
    WDA_NONE,
};
use streamshield::injector::{
    find_module_base, hook_dll_name, is_stale_hook_dll, remote_function_address,
    remote_write_complete, shield_in_process, window_pid_result, ModuleEntry,
};

#[test]
fn affinity_values() {
    assert_eq!(affinity_for(true, false), 0x11);
    assert_eq!(affinity_for(true, true), 0x01);
    assert_eq!(affinity_for(false, true), 0x00);
    assert_eq!(WDA_EXCLUDEFROMCAPTURE, 0x11);
    assert_eq!(WDA_MONITOR, 1);
    assert_eq!(WDA_NONE, 0);
}

#[test]
fn shield_mode_setting() {
    assert!(prefers_monitor(Some("monitor")));
    assert!(prefers_monitor(Some("MONITOR")));
    assert!(prefers_monitor(Some("Monitor")));
    assert!(!prefers_monitor(Some("exclude")));
    assert!(!prefers_monitor(Some("monitors")));
    assert!(!prefers_monitor(None));
}

#[test]
fn shield_param_round_trip() {
    let hwnd: u64 = 0x0001_2345_6789;
    for &(e, m) in &[(false, false), (true, false), (false, true), (true, true)] {
        let p = encode_shield_param(hwnd, e, m);
        let r = decode_shield_param(p);
        assert_eq!(r.hwnd, hwnd);
        assert_eq!(r.enable, e);
        assert_eq!(r.prefer_monitor, m);
    }
    assert_eq!(encode_shield_param(0x10, true, false), 0x8000_0000_0000_0010);
    assert_eq!(encode_shield_param(0x10, false, true), 0x4000_0000_0000_0010);
    // the two flag bits of the handle are dropped
    assert_eq!(encode_shield_param(0xC000_0000_0000_0001, false, false), 1);
}

#[test]
fn legacy_param() {
    let r = decode_legacy_shield_param(0x1_0000_ABCD);
    assert_eq!(r.hwnd, 0xABCD);
    assert!(r.enable);
    let r = decode_legacy_shield_param(0x2_0000_ABCD);
    assert!(!r.enable);
    assert!(!r.prefer_monitor);
}

#[test]
fn hook_skip_and_fallback() {
    assert!(hook_already_applied(Some(0x11), true));
    assert!(hook_already_applied(Some(0x01), true));
    assert!(!hook_already_applied(Some(0), true));
    assert!(hook_already_applied(Some(0), false));
    assert!(!hook_already_applied(Some(0x11), false));
    assert!(!hook_already_applied(None, true));
    assert_eq!(hook_fallback_affinity(false, true), Some(WDA_MONITOR));
    assert_eq!(hook_fallback_affinity(true, true), None);
    assert_eq!(hook_fallback_affinity(false, false), None);
}

#[test]
fn direct_skip_and_fallback() {
    assert!(direct_already_applied(Some(0x11), true, false));
    assert!(!direct_already_applied(Some(0x01), true, false));
    assert!(direct_already_applied(Some(0x01), true, true));
    assert!(!direct_already_applied(Some(0x11), true, true));
    assert!(direct_already_applied(Some(0), false, true));
    assert!(!direct_already_applied(None, false, false));
    assert_eq!(direct_fallback_affinity(false, true, false), Some(WDA_MONITOR));
    assert_eq!(direct_fallback_affinity(false, true, true), None);
    assert_eq!(direct_fallback_affinity(true, true, false), None);
}

#[test]
fn live_affinity_checks() {
    assert!(is_capture_excluded(true, 0x11));
    assert!(!is_capture_excluded(true, 0x01));
    assert!(!is_capture_excluded(false, 0x11));
    assert!(is_sibling_window(true, 5, 5));
    assert!(!is_sibling_window(false, 5, 5));
    assert!(!is_sibling_window(true, 5, 6));
}

#[test]
fn hook_file_names() {
    assert_eq!(hook_dll_name(1234), "streamshield_hook_1234.dll");
    assert_eq!(hook_dll_name(0), "streamshield_hook_0.dll");
    assert!(is_stale_hook_dll("streamshield_hook_99.dll", 1234));
    assert!(!is_stale_hook_dll("streamshield_hook_1234.dll", 1234));
    assert!(!is_stale_hook_dll("streamshield_hook_99.dat", 1234));
    assert!(!is_stale_hook_dll("other_hook_99.dll", 1234));
    assert!(is_stale_hook_dll("streamshield_hook_.dll", 1234));
}

#[test]
fn module_lookup() {
    let mods = vec![
        ModuleEntry { name: "ntdll.dll".to_string(), base: 0x1000 },
        ModuleEntry { name: "KERNEL32.DLL".to_string(), base: 0x2000 },
        ModuleEntry { name: "USER32.dll".to_string(), base: 0x3000 },
        ModuleEntry { name: "user32.dll".to_string(), base: 0x4000 },
    ];
    assert_eq!(find_module_base(&mods, "user32.dll"), Some(0x3000));
    assert_eq!(find_module_base(&mods, "kernel32"), Some(0x2000));
    assert_eq!(find_module_base(&mods, "gdi32.dll"), None);
}

#[test]
fn remote_address_arithmetic() {
    assert_eq!(remote_function_address(0x7000_0000, 0x1000_1234, 0x1000_0000), 0x7000_1234);
    assert_eq!(remote_function_address(usize::MAX, 0x11, 0x10), 0);
}

#[test]
fn window_pid_and_writes() {
    assert_eq!(window_pid_result(77, 5), Ok(5));
    assert_eq!(window_pid_result(77, 0), Err("GetWindowThreadProcessId failed for hwnd 77".to_string()));
    assert!(shield_in_process(3, 3));
    assert!(!shield_in_process(3, 4));
    assert!(remote_write_complete(true, 10, 10));
    assert!(!remote_write_complete(true, 9, 10));
    assert!(!remote_write_complete(false, 10, 10));
}
