use base64::Engine;
use serde_json::Value;
use streamshield::exe_set::ExeSet;
use streamshield::icon::{bgra_to_rgba, choose_extracted_icon, icon_data_url, icon_dimensions_ok};
use streamshield::obs_companion::{
    get_obs_status, identify_message, input_list_request, is_obs_running, message_has_op,
    obs_daemon_step, obs_url, record_send_failure, set_input_mute_request, set_obs_settings,
    should_mute_input, sync_shielded_with_obs, try_connect_obs, ObsDaemonAction, ObsSettings,
    ObsState,
};

fn json(s: &str) -> Value {
    serde_json::from_str(s).unwrap()
}

fn set(names: &[&str]) -> ExeSet {
    ExeSet::from_names(names.iter().map(|s| s.to_string()).collect())
}

#[test]
fn obs_defaults_and_status() {
    let d = ObsSettings::default();
    assert_eq!(d.port, 4455);
    assert!(d.password.is_none());
    assert!(d.auto_sync);
    let mut st = ObsState::new();
    let s = get_obs_status(&st, true);
    assert!(!s.connected && s.obs_process_running && s.port == 4455 && s.active_sources.is_empty());
    set_obs_settings(&mut st, ObsSettings { port: 4460, password: Some("pw".to_string()), auto_sync: false });
    assert_eq!(get_obs_status(&st, false).port, 4460);
    assert_eq!(obs_url(4455), "ws://127.0.0.1:4455");
}

#[test]
fn obs_process_detection() {
    let names = |v: &[&str]| v.iter().map(|s| s.to_string()).collect::<Vec<String>>();
    assert!(is_obs_running(&names(&["explorer.exe", "OBS64.exe"])));
    assert!(is_obs_running(&names(&["Obs32.EXE"])));
    assert!(!is_obs_running(&names(&["obs.exe"])));
    assert!(!is_obs_running(&names(&["obs-browser-page.exe", "notobs.exe"])));
    assert!(!is_obs_running(&names(&[])));
}

#[test]
fn obs_requests_are_the_protocol_messages() {
    assert_eq!(json(&identify_message()), json(r#"{"op":1,"d":{"rpcVersion":1,"eventSubscriptions":33}}"#));
    assert_eq!(identify_message(), r#"{"d":{"eventSubscriptions":33,"rpcVersion":1},"op":1}"#);
    assert_eq!(input_list_request(), r#"{"d":{"requestId":"streamshield_get_inputs","requestType":"GetInputList"},"op":6}"#);
    assert_eq!(
        json(&input_list_request()),
        json(r#"{"op":6,"d":{"requestType":"GetInputList","requestId":"streamshield_get_inputs"}}"#)
    );
    let m = json(&set_input_mute_request("Mic \"Desk\"\\1", true));
    assert_eq!(
        m,
        json(r#"{"op":6,"d":{"requestType":"SetInputMute","requestId":"streamshield_mute","requestData":{"inputName":"Mic \"Desk\"\\1","inputMuted":true}}}"#)
    );
    let m = json(&set_input_mute_request("Discord", false));
    assert_eq!(m["d"]["requestData"]["inputMuted"], Value::Bool(false));
}

#[test]
fn obs_handshake() {
    assert!(message_has_op(Some(r#"{"op":0,"d":{"obsWebSocketVersion":"5.1.0"}}"#), 0));
    assert!(!message_has_op(Some(r#"{"op":2}"#), 0));
    assert!(!message_has_op(Some("not json"), 0));
    assert!(!message_has_op(None, 0));
    let mut st = ObsState::new();
    assert!(try_connect_obs(&mut st, true, Some(r#"{"op":0}"#), true, Some(r#"{"op":2,"d":{}}"#)));
    assert!(st.connected);
    record_send_failure(&mut st);
    assert!(!st.connected);
    assert!(!try_connect_obs(&mut st, true, Some(r#"{"op":0}"#), false, None));
    assert!(!try_connect_obs(&mut st, false, None, false, None));
    assert!(!try_connect_obs(&mut st, true, Some(r#"{"op":0}"#), true, Some(r#"{"op":3}"#)));
    assert!(!st.connected);
}

#[test]
fn obs_mute_decisions() {
    let s = set(&["discord.exe", "Spotify.exe"]);
    assert!(should_mute_input(&s, "Discord Audio"));
    assert!(should_mute_input(&s, "SPOTIFY"));
    assert!(!should_mute_input(&s, "Desktop Audio"));
    // ".EXE" in upper case is not removed before lowercasing
    let t = set(&["Game.EXE"]);
    assert!(!should_mute_input(&t, "game"));
    assert!(should_mute_input(&t, "my game.exe capture"));
}

#[test]
fn obs_sync() {
    let mut st = ObsState::new();
    st.connected = true;
    let resp = r#"{"op":7,"d":{"requestId":"streamshield_get_inputs","responseData":{"inputs":[{"inputName":"Discord"},{"inputKind":"x"},{"inputName":"Mic"}]}}}"#;
    let reqs = sync_shielded_with_obs(&mut st, &set(&["discord.exe"]), Some(resp));
    assert_eq!(st.active_audio_inputs, vec!["Discord".to_string(), "Mic".to_string()]);
    assert_eq!(reqs.len(), 2);
    assert_eq!(json(&reqs[0])["d"]["requestData"]["inputMuted"], Value::Bool(true));
    assert_eq!(json(&reqs[1])["d"]["requestData"]["inputMuted"], Value::Bool(false));
    assert_eq!(json(&reqs[1])["d"]["requestData"]["inputName"], Value::String("Mic".to_string()));
    let none = sync_shielded_with_obs(&mut st, &set(&["discord.exe"]), Some(r#"{"op":7}"#));
    assert!(none.is_empty());
    assert_eq!(st.active_audio_inputs.len(), 2);
    assert!(sync_shielded_with_obs(&mut st, &set(&[]), None).is_empty());
}

#[test]
fn obs_daemon_decisions() {
    assert!(matches!(obs_daemon_step(false, true), ObsDaemonAction::Disconnect));
    assert!(matches!(obs_daemon_step(true, false), ObsDaemonAction::ConnectThenSync));
    assert!(matches!(obs_daemon_step(true, true), ObsDaemonAction::Sync));
}

#[test]
fn icon_sizes() {
    assert!(icon_dimensions_ok(32, 32));
    assert!(icon_dimensions_ok(256, 1));
    assert!(!icon_dimensions_ok(257, 32));
    assert!(!icon_dimensions_ok(0, 32));
    assert!(!icon_dimensions_ok(-32, 32));
}

#[test]
fn pixel_conversion() {
    let mut px = vec![1, 2, 3, 0, 5, 6, 7, 9, 100];
    bgra_to_rgba(&mut px);
    assert_eq!(px, vec![3, 2, 1, 0, 7, 6, 5, 9, 100]);
    let mut opaque = vec![1, 2, 3, 0, 5, 6, 7, 0];
    bgra_to_rgba(&mut opaque);
    assert_eq!(opaque, vec![3, 2, 1, 255, 7, 6, 5, 255]);
}

#[test]
fn icon_url() {
    assert!(icon_data_url(0, 1, vec![]).is_none());
    let px = vec![10u8, 20, 30, 0, 40, 50, 60, 0];
    let url = icon_data_url(2, 1, px).unwrap();
    let prefix = "data:image/png;base64,";
    assert!(url.starts_with(prefix));
    let png = base64::engine::general_purpose::STANDARD.decode(&url[prefix.len()..]).unwrap();
    assert_eq!(&png[..8], &[0x89, b'P', b'N', b'G', 0x0D, 0x0A, 0x1A, 0x0A]);
    let img = image::load_from_memory_with_format(&png, image::ImageFormat::Png).unwrap().to_rgba8();
    assert_eq!(img.dimensions(), (2, 1));
    assert_eq!(img.get_pixel(0, 0).0, [30, 20, 10, 255]);
    assert_eq!(img.get_pixel(1, 0).0, [60, 50, 40, 255]);
    // a buffer too short for the size cannot be encoded
    assert!(icon_data_url(4, 4, vec![0u8; 8]).is_none());
}

#[test]
fn extracted_icon_choice() {
    let c = choose_extracted_icon(1, 0x10, 0x20);
    assert_eq!(c.icon, Some(0x10));
    assert!(c.release_small);
    let c = choose_extracted_icon(1, 0, 0x20);
    assert_eq!(c.icon, Some(0x20));
    assert!(!c.release_small);
    assert_eq!(choose_extracted_icon(0, 0x10, 0x20).icon, None);
    assert_eq!(choose_extracted_icon(2, 0, 0).icon, None);
}

#[test]
fn mute_request_escapes_control_characters() {
    let r = set_input_mute_request("a\u{1f}\t\"b", false);
    assert_eq!(
        r,
        r#"{"d":{"requestData":{"inputMuted":false,"inputName":"a\u001f\t\"b"},"requestId":"streamshield_mute","requestType":"SetInputMute"},"op":6}"#
    );
}
