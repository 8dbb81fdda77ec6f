use streamshield::affinity_guard::AffinityGuard;
use streamshield::audio_bridge::{
    exclude_process_audio, get_process_audio_mute, include_process_audio, is_audio_shielded,
    set_process_audio_mute, AudioSession, AudioShieldState,
};
use streamshield::config::{
    default_auto_reapply, default_autostart, default_compact_mode, default_confirm_batch,
    default_poll_interval_ms, default_shield_mode, default_show_pid, default_start_minimized,
    default_theme, AppSettings, ShieldConfig,
};
use streamshield::exe_set::ExeSet;
use streamshield::window_filter::WindowFilter;

#[test]
fn affinity_guard_register_and_remove() {
    let mut g = AffinityGuard::new();
    assert!(!g.is_excluded(42));
    assert!(g.register_exclusion(42));
    assert!(g.is_excluded(42));
    assert!(!g.register_exclusion(42));
    assert!(!g.is_excluded(7));
    assert!(g.remove_exclusion(42));
    assert!(!g.is_excluded(42));
    assert!(!g.remove_exclusion(42));
}

#[test]
fn affinity_guard_default_is_empty() {
    let g = AffinityGuard::default();
    assert!(!g.is_excluded(0));
    assert!(!g.is_excluded(-1));
}

#[test]
fn window_filter_matches_substrings_ignoring_case() {
    let f = WindowFilter::new(vec!["Discord", "CHROME"]);
    assert!(f.matches("discord.exe"));
    assert!(f.matches("Chrome.exe"));
    assert!(f.matches("GoogleChromeHelper"));
    assert!(!f.matches("notepad.exe"));
    assert!(!f.matches("disc"));
}

#[test]
fn window_filter_uses_unicode_lowercase() {
    let f = WindowFilter::new(vec!["ÉDITEUR"]);
    assert!(f.matches("éditeur.exe"));
    assert!(f.matches("MonÉditeur"));
}

#[test]
fn window_filter_empty_matches_nothing() {
    let f = WindowFilter::new(vec![]);
    assert!(!f.matches("anything"));
}

#[test]
fn exe_set_behaves_as_a_set() {
    let mut s = ExeSet::new();
    assert!(s.is_empty());
    assert!(s.insert("a.exe".to_string()));
    assert!(!s.insert("a.exe".to_string()));
    assert!(s.insert("b.exe".to_string()));
    assert_eq!(s.len(), 2);
    assert!(s.contains("a.exe"));
    assert!(!s.contains("A.exe"));
    assert!(s.remove("a.exe"));
    assert!(!s.remove("a.exe"));
    assert!(!s.contains("a.exe"));
    assert_eq!(s.to_vec(), vec!["b.exe".to_string()]);
    let t = ExeSet::from_names(vec!["x".to_string(), "y".to_string(), "x".to_string()]);
    assert_eq!(t.len(), 2);
    let mut u = t.duplicate();
    u.clear();
    assert!(u.is_empty());
    assert_eq!(t.len(), 2);
}

#[test]
fn audio_exclude_then_shielded_include_then_not() {
    let mut st = AudioShieldState::new();
    assert!(!is_audio_shielded(&st, "Spotify.exe", 100));
    exclude_process_audio(&mut st, "Spotify.exe", 100);
    assert!(is_audio_shielded(&st, "Spotify.exe", 100));
    assert!(is_audio_shielded(&st, "SPOTIFY.EXE", 0));
    assert!(is_audio_shielded(&st, "other.exe", 100));
    assert!(st.excluded_exes.contains("spotify.exe"));
    include_process_audio(&mut st, "spotify.EXE", 100);
    assert!(!is_audio_shielded(&st, "Spotify.exe", 100));
    assert!(!is_audio_shielded(&st, "other.exe", 100));
}

#[test]
fn audio_pid_zero_is_never_registered() {
    let mut st = AudioShieldState::default();
    exclude_process_audio(&mut st, "a.exe", 0);
    assert!(st.excluded_pids.is_empty());
    assert!(!is_audio_shielded(&st, "b.exe", 0));
    assert!(is_audio_shielded(&st, "A.exe", 0));
}

fn session(pid: u32, exe: &str, muted: bool) -> AudioSession {
    AudioSession { pid, exe_name: exe.to_string(), muted }
}

#[test]
fn audio_sessions_of_a_process() {
    let sessions = vec![
        session(10, "Discord.exe", false),
        session(0, "discord.exe", true),
        session(11, "chrome.exe", true),
        session(12, "", true),
        session(13, "DISCORD.EXE", true),
    ];
    assert_eq!(set_process_audio_mute(&sessions, "discord.exe", 0), vec![0, 4]);
    assert_eq!(set_process_audio_mute(&sessions, "discord.exe", 11), vec![0, 2, 4]);
    assert_eq!(set_process_audio_mute(&sessions, "", 12), vec![3]);
    assert!(get_process_audio_mute(&sessions, "discord.exe", 0));
    let first = vec![session(10, "Discord.exe", false)];
    assert!(!get_process_audio_mute(&first, "discord.exe", 0));
    assert!(get_process_audio_mute(&sessions, "nothing.exe", 11));
    assert!(!get_process_audio_mute(&sessions, "nothing.exe", 0));
}

#[test]
fn default_settings_values() {
    assert!(!default_autostart());
    assert!(!default_start_minimized());
    assert!(default_auto_reapply());
    assert_eq!(default_shield_mode(), "exclude");
    assert_eq!(default_poll_interval_ms(), 3000);
    assert_eq!(default_theme(), "cyberpunk");
    assert!(!default_compact_mode());
    assert!(default_show_pid());
    assert!(!default_confirm_batch());
    let s = AppSettings::default();
    assert!(s.auto_reapply && s.show_pid && !s.autostart && !s.confirm_batch);
    assert_eq!(s.shield_mode, "exclude");
    assert_eq!(s.theme, "cyberpunk");
    assert_eq!(s.poll_interval_ms, 3000);
}

#[test]
fn config_toggle_lowercases_and_round_trips() {
    let mut c = ShieldConfig::default();
    assert!(c.shielded_exes.is_empty());
    c.record_shield_toggle("Discord.EXE", true);
    assert!(c.shielded_exes.contains("discord.exe"));
    c.record_shield_toggle("DISCORD.exe", false);
    assert!(c.shielded_exes.is_empty());
    c.record_shield_toggle("a.exe", true);
    c.record_shield_toggle("b.exe", true);
    c.settings.theme = "clean".to_string();
    c.clear_shields();
    assert!(c.shielded_exes.is_empty());
    assert_eq!(c.settings.theme, "clean");
    c.record_shield_toggle("a.exe", true);
    c.reset_settings();
    assert_eq!(c.settings.theme, "cyberpunk");
    assert!(c.shielded_exes.contains("a.exe"));
    let d = c.settings.duplicate();
    assert_eq!(d.theme, c.settings.theme);
}
