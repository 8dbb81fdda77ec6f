use streamshield::audio_bridge::{is_audio_shielded, AudioShieldState};
use streamshield::exe_set::ExeSet;
use streamshield::window_manager::{
    auto_reapply_shields, count_shielded, enumerate_windows, exe_matches_any, is_listable_window, listed_candidates,
    resolve_audio_shield, rows_to_reshield, shielded_rows, should_reapply_shield, sort_window_list,
    ObservedWindow, WindowCandidate, WindowInfo, DWM_CLOAKED_ANY, WS_EX_TOOLWINDOW, WS_VISIBLE,
};

fn cand(hwnd: usize, pid: u32, title: &str, exe: &str) -> WindowCandidate {
    WindowCandidate {
        hwnd,
        pid,
        title: title.to_string(),
        exe_name: exe.to_string(),
        live_shielded: false,
        live_after_reshield: false,
        icon_base64: None,
    }
}

fn row(hwnd: usize, exe: &str, shielded: bool) -> WindowInfo {
    WindowInfo {
        hwnd,
        pid: hwnd as u32,
        title: format!("w{}", hwnd),
        exe_name: exe.to_string(),
        is_shielded: shielded,
        is_audio_shielded: false,
        icon_base64: None,
    }
}

fn set(names: &[&str]) -> ExeSet {
    ExeSet::from_names(names.iter().map(|s| s.to_string()).collect())
}

#[test]
fn listing_filters_and_deduplicates() {
    let c = vec![
        cand(1, 10, "Chat", "Discord.exe"),
        cand(2, 11, "Program Manager", "explorer.exe"),
        cand(3, 12, "Search", "SearchHost.exe"),
        cand(4, 13, "", "notepad.exe"),
        cand(5, 0, "Orphan", "ghost.exe"),
        cand(6, 10, "Other chat window", "DISCORD.EXE"),
        cand(7, 14, "ApplicationFrameHost", "ApplicationFrameHost.exe"),
        cand(8, 15, "Calculator", "ApplicationFrameHost.exe"),
        cand(9, 16, "Notes", "notepad.exe"),
        cand(10, 17, "Task Manager", "Taskmgr.exe"),
        cand(11, 18, "Settings", "streamshield.exe"),
    ];
    assert_eq!(listed_candidates(&c), vec![0, 7, 8]);
}

#[test]
fn listing_of_nothing_is_empty() {
    assert!(listed_candidates(&vec![]).is_empty());
}

#[test]
fn style_filter() {
    assert!(is_listable_window(true, 5, 0, WS_VISIBLE, true, 0));
    assert!(!is_listable_window(false, 5, 0, WS_VISIBLE, true, 0));
    assert!(!is_listable_window(true, 0, 0, WS_VISIBLE, true, 0));
    assert!(!is_listable_window(true, 5, WS_EX_TOOLWINDOW, WS_VISIBLE, true, 0));
    assert!(!is_listable_window(true, 5, 0, 0, true, 0));
    assert!(!is_listable_window(true, 5, 0, WS_VISIBLE, true, 2));
    assert!(is_listable_window(true, 5, 0, WS_VISIBLE, false, DWM_CLOAKED_ANY));
    assert!(is_listable_window(true, 5, 0, WS_VISIBLE, true, 8));
}

#[test]
fn sort_puts_shielded_first_then_by_name() {
    let v = vec![
        row(1, "zoom.exe", false),
        row(2, "Chrome.exe", true),
        row(3, "alpha.exe", false),
        row(4, "discord.exe", true),
        row(5, "Beta.exe", false),
    ];
    let r = sort_window_list(v);
    let order: Vec<usize> = r.iter().map(|w| w.hwnd).collect();
    assert_eq!(order, vec![2, 4, 3, 5, 1]);
}

#[test]
fn sort_is_stable_for_ties() {
    let v = vec![row(1, "App.exe", false), row(2, "app.exe", false), row(3, "APP.EXE", false)];
    let r = sort_window_list(v);
    let order: Vec<usize> = r.iter().map(|w| w.hwnd).collect();
    assert_eq!(order, vec![1, 2, 3]);
}

#[test]
fn sort_compares_by_code_point() {
    // 'Z' < 'a' < 'é' in code points; lowercase makes 'Z' into 'z'
    let v = vec![row(1, "éclair.exe", false), row(2, "Zeta.exe", false), row(3, "alpha.exe", false)];
    let r = sort_window_list(v);
    let order: Vec<usize> = r.iter().map(|w| w.hwnd).collect();
    assert_eq!(order, vec![3, 2, 1]);
}

#[test]
fn exe_matching_ignores_ascii_case() {
    let s = set(&["discord.exe", "Spotify.EXE"]);
    assert!(exe_matches_any(&s, "Discord.exe"));
    assert!(exe_matches_any(&s, "spotify.exe"));
    assert!(!exe_matches_any(&s, "discord"));
    let u = set(&["ärger.exe"]);
    assert!(exe_matches_any(&u, "ÄRGER.exe"));
    assert!(!exe_matches_any(&set(&[]), "a.exe"));
}

#[test]
fn reapply_only_when_listed_and_not_live() {
    let s = set(&["discord.exe"]);
    assert!(should_reapply_shield(&s, "Discord.exe", false));
    assert!(!should_reapply_shield(&s, "Discord.exe", true));
    assert!(!should_reapply_shield(&s, "chrome.exe", false));
}

#[test]
fn audio_resolution_registers() {
    let mut st = AudioShieldState::new();
    let audio = set(&["spotify.exe"]);
    assert!(resolve_audio_shield(&mut st, &audio, "Spotify.exe", 50));
    assert!(is_audio_shielded(&st, "x.exe", 50));
    assert!(!resolve_audio_shield(&mut st, &audio, "chrome.exe", 51));
    assert!(!is_audio_shielded(&st, "chrome.exe", 51));
    // already registered by pid
    assert!(resolve_audio_shield(&mut st, &set(&[]), "renamed.exe", 50));
}

fn obs(hwnd: usize, pid: u32, exe: &str, live: bool) -> ObservedWindow {
    ObservedWindow { hwnd, pid, exe_name: exe.to_string(), live_shielded: live }
}

#[test]
fn watchdog_pass() {
    let mut st = AudioShieldState::new();
    let w = vec![
        obs(1, 10, "Discord.exe", false),
        obs(2, 10, "Discord.exe", true),
        obs(3, 0, "Discord.exe", false),
        obs(4, 20, "spotify.exe", false),
        obs(5, 30, "chrome.exe", false),
    ];
    let r = auto_reapply_shields(&set(&["discord.exe"]), &set(&["spotify.exe"]), &w, &mut st);
    assert_eq!(r, vec![0]);
    assert!(is_audio_shielded(&st, "whatever", 20));
    assert!(is_audio_shielded(&st, "SPOTIFY.exe", 0));
    assert!(!is_audio_shielded(&st, "discord.exe", 10));
}

#[test]
fn watchdog_with_empty_lists_does_nothing() {
    let mut st = AudioShieldState::new();
    let w = vec![obs(1, 10, "Discord.exe", false)];
    assert!(auto_reapply_shields(&set(&[]), &set(&[]), &w, &mut st).is_empty());
    assert!(!is_audio_shielded(&st, "Discord.exe", 10));
}

#[test]
fn counting_and_picking_rows() {
    let rows = vec![row(1, "A.exe", true), row(2, "b.exe", false), row(3, "C.exe", true)];
    assert_eq!(count_shielded(&rows), 2);
    assert_eq!(count_shielded(&vec![]), 0);
    assert_eq!(shielded_rows(&rows), vec![0, 2]);
    assert_eq!(rows_to_reshield(&rows, &set(&["a.exe", "b.exe"])), vec![0, 1]);
    assert_eq!(rows_to_reshield(&rows, &set(&["A.exe"])), Vec::<usize>::new());
}

fn observed(hwnd: usize, pid: u32, title: &str, exe: &str, live: bool, after: bool) -> WindowCandidate {
    let mut c = cand(hwnd, pid, title, exe);
    c.live_shielded = live;
    c.live_after_reshield = after;
    c.icon_base64 = Some(format!("icon{}", hwnd));
    c
}

#[test]
fn window_list_rows_flags_and_order() {
    let c = vec![
        observed(1, 10, "Zoom Meeting", "Zoom.exe", false, false),
        observed(2, 11, "Chat", "Discord.exe", false, true),
        observed(3, 12, "Music", "Spotify.exe", false, false),
        observed(4, 13, "Browser", "chrome.exe", true, false),
        observed(5, 14, "Program Manager", "explorer.exe", false, false),
        observed(6, 11, "Second chat", "discord.exe", true, true),
        observed(7, 15, "Editor", "Code.exe", false, false),
    ];
    let shielded = set(&["discord.exe", "CHROME.EXE", "code.exe"]);
    let audio = set(&["spotify.exe"]);
    let mut state = AudioShieldState::new();
    state.excluded_pids.insert(10);
    let rows = enumerate_windows(&c, &shielded, &audio, &mut state);
    let order: Vec<usize> = rows.iter().map(|w| w.hwnd).collect();
    // Discord was shielded again and read back shielded; chrome was shielded already;
    // Code was shielded again but the second read says it is not.
    assert_eq!(order, vec![4, 2, 7, 3, 1]);
    let shown: Vec<bool> = rows.iter().map(|w| w.is_shielded).collect();
    assert_eq!(shown, vec![true, true, false, false, false]);
    let audio_flags: Vec<bool> = rows.iter().map(|w| w.is_audio_shielded).collect();
    assert_eq!(audio_flags, vec![false, false, false, true, true]);
    assert_eq!(rows[0].title, "Browser");
    assert_eq!(rows[0].icon_base64, Some("icon4".to_string()));
    assert_eq!(rows[4].pid, 10);
    assert!(is_audio_shielded(&state, "Spotify.exe", 12));
    assert!(is_audio_shielded(&state, "zoom.exe", 0));
    assert!(!is_audio_shielded(&state, "chrome.exe", 13));
}

#[test]
fn window_list_of_nothing() {
    let mut state = AudioShieldState::new();
    let rows = enumerate_windows(&vec![], &set(&["a.exe"]), &set(&["b.exe"]), &mut state);
    assert!(rows.is_empty());
    assert!(!is_audio_shielded(&state, "b.exe", 1));
}
