//! The OBS Studio WebSocket (v5) companion: connection settings and state, the
//! handshake, the request texts, and which OBS audio inputs are muted.
use vstd::prelude::*;
use crate::text::{decimal, format_u64, lowercase, lowercase_chars, chars_of, chars_contain, chars_remove_all, has_substring, remove_all, str_eq, to_lowercase};
use crate::exe_set::{ExeSet, views_of};

verus! {

/// Connection status reported to the user interface.
pub struct ObsStatus {
    pub connected: bool,
    pub port: u16,
    pub active_sources: Vec<String>,
    pub obs_process_running: bool,
}

/// OBS connection parameters.
pub struct ObsSettings {
    pub port: u16,
    pub password: Option<String>,
    pub auto_sync: bool,
}

impl Default for ObsSettings {
    fn default() -> (s: Self)
        ensures
            s.port == 4455,
            s.password is None,
            s.auto_sync,
    {
        ObsSettings { port: 4455, password: None, auto_sync: true }
    }
}

/// The companion's state: whether a session with OBS is established, the settings,
/// and the audio inputs OBS reported last.
pub struct ObsState {
    pub connected: bool,
    pub settings: ObsSettings,
    pub active_audio_inputs: Vec<String>,
}

impl ObsState {
    /// Not connected, default settings, no inputs known.
    pub fn new() -> (s: Self)
        ensures
            !s.connected,
            s.settings.port == 4455,
            s.settings.password is None,
            s.settings.auto_sync,
            s.active_audio_inputs@.len() == 0,
    {
        ObsState { connected: false, settings: ObsSettings::default(), active_audio_inputs: Vec::new() }
    }
}

fn clone_strings(v: &Vec<String>) -> (r: Vec<String>)
    ensures
        r@ == v@,
{
    let mut r: Vec<String> = Vec::new();
    let mut i: usize = 0;
    while i < v.len()
        invariant
            i <= v.len(),
            r@ == v@.subrange(0, i as int),
        decreases v.len() - i,
    {
        r.push(v[i].clone());
        assert(r@ =~= v@.subrange(0, i + 1));
        i = i + 1;
    }
    assert(r@ =~= v@);
    r
}

/// The current connection and source status, with whether an OBS process is running.
pub fn get_obs_status(state: &ObsState, obs_process_running: bool) -> (s: ObsStatus)
    ensures
        s.connected == state.connected,
        s.port == state.settings.port,
        s.active_sources@ == state.active_audio_inputs@,
        s.obs_process_running == obs_process_running,
{
    ObsStatus {
        connected: state.connected,
        port: state.settings.port,
        active_sources: clone_strings(&state.active_audio_inputs),
        obs_process_running,
    }
}

/// Replaces the connection parameters; nothing else changes.
pub fn set_obs_settings(state: &mut ObsState, settings: ObsSettings)
    ensures
        final(state).settings == settings,
        final(state).connected == old(state).connected,
        final(state).active_audio_inputs == old(state).active_audio_inputs,
{
    state.settings = settings;
}

/// Is this (lowercase) process name OBS Studio (`obs64.exe` or `obs32.exe`)?
pub open spec fn is_obs_process_name(lower_name: Seq<char>) -> bool {
    lower_name == "obs64.exe"@ || lower_name == "obs32.exe"@
}

/// OBS Studio is recognised by exactly two process names, `obs64.exe` and `obs32.exe`.
pub proof fn law_obs_process_names(name: Seq<char>)
    ensures
        is_obs_process_name("obs64.exe"@),
        is_obs_process_name("obs32.exe"@),
        is_obs_process_name(name) ==> name == "obs64.exe"@ || name == "obs32.exe"@,
{
}

/// OBS is running when some process, by its lowercase file name, is OBS Studio.
pub fn is_obs_running(process_names: &Vec<String>) -> (b: bool)
    ensures
        b == exists|i: int|
            0 <= i < process_names.len() && is_obs_process_name(lowercase(#[trigger] process_names@[i]@)),
{
    let mut i: usize = 0;
    while i < process_names.len()
        invariant
            i <= process_names.len(),
            forall|k: int| 0 <= k < i ==> !is_obs_process_name(lowercase(#[trigger] process_names@[k]@)),
        decreases process_names.len() - i,
    {
        let l = to_lowercase(process_names[i].as_str());
        let n = l.as_str();
        if str_eq(n, "obs64.exe") || str_eq(n, "obs32.exe") {
            return true;
        }
        i = i + 1;
    }
    false
}

/// The WebSocket address of OBS on this machine.
pub fn obs_url(port: u16) -> (s: String)
    ensures
        s@ == "ws://127.0.0.1:"@ + decimal(port as nat),
{
    let mut s = String::from_str("ws://127.0.0.1:");
    s.append(format_u64(port as u64).as_str());
    s
}

// ---------------------------------------------------------------------------
// Reading OBS messages (JSON)
// ---------------------------------------------------------------------------

/// The `op` member of a JSON text as a 64-bit integer, when the text is JSON and has one.
pub uninterp spec fn json_op_code(text: Seq<char>) -> Option<i64>;

/// `serde_json::from_str::<Value>`, then `Value::get("op")` and `Value::as_i64`: the
/// result is named `json_op_code` of the text; nothing else is stated of JSON parsing.
#[verifier::external_body]
fn parse_op_code(text: &str) -> (r: Option<i64>)
    ensures
        r == json_op_code(text@),
{
    serde_json::from_str::<serde_json::Value>(text).ok().and_then(|v| v.get("op").and_then(|o| o.as_i64()))
}

/// For a JSON text with an array at `d.responseData.inputs`: each element's
/// `inputName` when it is a string, `None` otherwise.
pub uninterp spec fn json_input_names(text: Seq<char>) -> Option<Seq<Option<Seq<char>>>>;

/// `serde_json::from_str::<Value>`, then `d` / `responseData` / `inputs` via
/// `Value::get`, `Value::as_array`, and each element's `inputName` via `Value::get` and
/// `Value::as_str`: the result is named `json_input_names` of the text.
#[verifier::external_body]
fn parse_input_names(text: &str) -> (r: Option<Vec<Option<String>>>)
    ensures
        match r {
            Some(v) => json_input_names(text@) == Some(
                Seq::new(
                    v@.len(),
                    |i: int|
                        match v@[i] {
                            Some(s) => Some(s@),
                            None => None::<Seq<char>>,
                        },
                ),
            ),
            None => json_input_names(text@) is None,
        },
{
    let val = serde_json::from_str::<serde_json::Value>(text).ok()?;
    let inputs = val.get("d")?.get("responseData")?.get("inputs")?.as_array()?;
    Some(inputs.iter().map(|i| i.get("inputName").and_then(|n| n.as_str()).map(|s| s.to_string())).collect())
}

/// A lowercase hexadecimal digit.
pub open spec fn hex_digit(n: int) -> char {
    if n < 10 {
        ('0' as int + n) as char
    } else {
        ('a' as int + n - 10) as char
    }
}

/// How serde_json writes one character inside a string literal: `"` and `\` and the
/// control characters below U+0020 escaped (`\b`, `\t`, `\n`, `\f`, `\r`, else `\u00XX`
/// in lowercase hex), every other character as it is.
pub open spec fn json_escaped_char(c: char) -> Seq<char> {
    if c == '"' {
        seq!['\\', '"']
    } else if c == '\\' {
        seq!['\\', '\\']
    } else if c == '\u{8}' {
        seq!['\\', 'b']
    } else if c == '\t' {
        seq!['\\', 't']
    } else if c == '\n' {
        seq!['\\', 'n']
    } else if c == '\u{c}' {
        seq!['\\', 'f']
    } else if c == '\r' {
        seq!['\\', 'r']
    } else if (c as u32) < 0x20 {
        seq!['\\', 'u', '0', '0', hex_digit((c as int) / 16), hex_digit((c as int) % 16)]
    } else {
        seq![c]
    }
}

/// The escaped characters of `s`, in order.
pub open spec fn json_escaped(s: Seq<char>) -> Seq<char>
    decreases s.len(),
{
    if s.len() == 0 {
        Seq::empty()
    } else {
        json_escaped(s.drop_last()) + json_escaped_char(s.last())
    }
}

/// The JSON string literal for `s`, quotes and escapes included.
pub open spec fn json_quoted(s: Seq<char>) -> Seq<char> {
    seq!['"'] + json_escaped(s) + seq!['"']
}

/// `serde_json::Value::String` displayed (the compact formatter's `format_escaped_str`):
/// the string between double quotes, escaped as `json_escaped_char` says.
#[verifier::external_body]
fn quote_json(s: &str) -> (r: String)
    ensures
        r@ == json_quoted(s@),
{
    serde_json::Value::String(s.to_string()).to_string()
}

// ---------------------------------------------------------------------------
// The handshake
// ---------------------------------------------------------------------------

/// The Identify request (op 1): RPC version 1, event subscriptions 33; keys in
/// serde_json's sorted order, as `json!` writes them.
pub open spec fn spec_identify_message() -> Seq<char> {
    "{\"d\":{\"eventSubscriptions\":33,\"rpcVersion\":1},\"op\":1}"@
}

pub fn identify_message() -> (s: String)
    ensures
        s@ == spec_identify_message(),
{
    String::from_str("{\"d\":{\"eventSubscriptions\":33,\"rpcVersion\":1},\"op\":1}")
}

/// A received text message carries the given op code (`None`: no text message was received).
pub open spec fn spec_has_op(message: Option<Seq<char>>, op: i64) -> bool {
    match message {
        Some(t) => json_op_code(t) == Some(op),
        None => false,
    }
}

/// Does the received text message carry this op code?
pub fn message_has_op(message: Option<&str>, op: i64) -> (b: bool)
    ensures
        b == spec_has_op(
            match message {
                Some(t) => Some(t@),
                None => None,
            },
            op,
        ),
{
    match message {
        Some(t) => {
            match parse_op_code(t) {
                Some(o) => o == op,
                None => false,
            }
        },
        None => false,
    }
}

/// Records the outcome of a connection attempt. The session is established when the
/// socket connected, OBS said Hello (op 0), the Identify request went out, and OBS
/// answered Identified (op 2). Steps not reached are passed as failed / `None`.
pub fn try_connect_obs(
    state: &mut ObsState,
    connected: bool,
    hello: Option<&str>,
    identify_sent: bool,
    identified: Option<&str>,
) -> (ok: bool)
    ensures
        ok == (connected && spec_has_op(
            match hello {
                Some(t) => Some(t@),
                None => None,
            },
            0,
        ) && identify_sent && spec_has_op(
            match identified {
                Some(t) => Some(t@),
                None => None,
            },
            2,
        )),
        final(state).connected == ok,
        final(state).settings == old(state).settings,
        final(state).active_audio_inputs == old(state).active_audio_inputs,
{
    let ok = connected && message_has_op(hello, 0) && identify_sent && message_has_op(identified, 2);
    state.connected = ok;
    ok
}

/// A failed send ends the session.
pub fn record_send_failure(state: &mut ObsState)
    ensures
        !final(state).connected,
        final(state).settings == old(state).settings,
        final(state).active_audio_inputs == old(state).active_audio_inputs,
{
    state.connected = false;
}

// ---------------------------------------------------------------------------
// Muting inputs of shielded applications
// ---------------------------------------------------------------------------

/// The request for the list of inputs (op 6), keys in serde_json's sorted order.
pub open spec fn spec_input_list_request() -> Seq<char> {
    "{\"d\":{\"requestId\":\"streamshield_get_inputs\",\"requestType\":\"GetInputList\"},\"op\":6}"@
}

pub fn input_list_request() -> (s: String)
    ensures
        s@ == spec_input_list_request(),
{
    String::from_str("{\"d\":{\"requestId\":\"streamshield_get_inputs\",\"requestType\":\"GetInputList\"},\"op\":6}")
}

/// The request that sets an input's mute flag (op 6), keys in serde_json's sorted order.
pub open spec fn spec_set_input_mute_request(name: Seq<char>, mute: bool) -> Seq<char> {
    "{\"d\":{\"requestData\":{\"inputMuted\":"@ + (if mute {
        "true"@
    } else {
        "false"@
    }) + ",\"inputName\":"@ + json_quoted(name)
        + "},\"requestId\":\"streamshield_mute\",\"requestType\":\"SetInputMute\"},\"op\":6}"@
}

pub fn set_input_mute_request(name: &str, mute: bool) -> (s: String)
    ensures
        s@ == spec_set_input_mute_request(name@, mute),
{
    let mut s = String::from_str("{\"d\":{\"requestData\":{\"inputMuted\":");
    if mute {
        s.append("true");
    } else {
        s.append("false");
    }
    s.append(",\"inputName\":");
    s.append(quote_json(name).as_str());
    s.append("},\"requestId\":\"streamshield_mute\",\"requestType\":\"SetInputMute\"},\"op\":6}");
    s
}

/// An input is muted when its lowercase name contains some shielded executable's name
/// with every `.exe` removed, lowercased.
pub open spec fn input_should_mute(shielded: Set<Seq<char>>, input_name: Seq<char>) -> bool {
    exists|exe: Seq<char>|
        #![trigger shielded.contains(exe)]
        shielded.contains(exe) && has_substring(lowercase(input_name), lowercase(remove_all(exe, ".exe"@)))
}

/// Should this OBS input be muted?
pub fn should_mute_input(shielded_exes: &ExeSet, input_name: &str) -> (b: bool)
    ensures
        b == input_should_mute(shielded_exes@, input_name@),
{
    let name = lowercase_chars(input_name);
    let ext = chars_of(".exe");
    let mut i: usize = 0;
    while i < shielded_exes.len()
        invariant
            i <= shielded_exes.names().len(),
            name@ == lowercase(input_name@),
            ext@ == ".exe"@,
            forall|k: int|
                0 <= k < i ==> !has_substring(
                    lowercase(input_name@),
                    lowercase(remove_all(#[trigger] shielded_exes.names()[k], ".exe"@)),
                ),
        decreases shielded_exes.names().len() - i,
    {
        let exe = chars_of(shielded_exes.get(i).as_str());
        let stripped = chars_remove_all(&exe, &ext);
        let stripped_str = crate::text::string_from_chars(&stripped);
        let clean = lowercase_chars(stripped_str.as_str());
        if chars_contain(&name, &clean) {
            assert(shielded_exes@.contains(shielded_exes.names()[i as int]));
            return true;
        }
        i = i + 1;
    }
    proof {
        assert forall|exe: Seq<char>| shielded_exes@.contains(exe) implies !has_substring(
            lowercase(input_name@),
            lowercase(remove_all(exe, ".exe"@)),
        ) by {
            let k = choose|k: int| 0 <= k < shielded_exes.names().len() && shielded_exes.names()[k] == exe;
        }
    }
    false
}

/// The names present in the inputs list, in order.
pub open spec fn present_names(names: Seq<Option<Seq<char>>>) -> Seq<Seq<char>>
    decreases names.len(),
{
    if names.len() == 0 {
        Seq::empty()
    } else {
        present_names(names.drop_last()) + match names.last() {
            Some(n) => seq![n],
            None => Seq::empty(),
        }
    }
}

/// Handles the answer to the input list request: when it lists inputs, the names
/// present become the active inputs and, for each of them in order, a request sets its
/// mute flag (muted exactly when it belongs to a shielded application). The returned
/// requests are to be sent; any other answer changes nothing and asks for nothing.
pub fn sync_shielded_with_obs(state: &mut ObsState, shielded_exes: &ExeSet, response: Option<&str>) -> (requests: Vec<String>)
    ensures
        final(state).connected == old(state).connected,
        final(state).settings == old(state).settings,
        ({
            let parsed = match response {
                Some(t) => json_input_names(t@),
                None => None,
            };
            match parsed {
                Some(names) => {
                    let present = present_names(names);
                    &&& views_of(final(state).active_audio_inputs@) == present
                    &&& views_of(requests@) == Seq::new(
                        present.len(),
                        |i: int| spec_set_input_mute_request(present[i], input_should_mute(shielded_exes@, present[i])),
                    )
                },
                None => {
                    &&& final(state).active_audio_inputs == old(state).active_audio_inputs
                    &&& requests@.len() == 0
                },
            }
        }),
{
    let mut requests: Vec<String> = Vec::new();
    let text = match response {
        Some(t) => t,
        None => {
            return requests;
        },
    };
    let parsed = match parse_input_names(text) {
        Some(v) => v,
        None => {
            return requests;
        },
    };
    let ghost pv = Seq::new(
        parsed@.len(),
        |i: int|
            match parsed@[i] {
                Some(s) => Some(s@),
                None => None::<Seq<char>>,
            },
    );
    let mut found: Vec<String> = Vec::new();
    let mut i: usize = 0;
    assert(pv.subrange(0, 0) =~= Seq::<Option<Seq<char>>>::empty());
    assert(views_of(found@) =~= present_names(pv.subrange(0, 0)));
    while i < parsed.len()
        invariant
            i <= parsed.len(),
            pv == Seq::new(
                parsed@.len(),
                |k: int|
                    match parsed@[k] {
                        Some(s) => Some(s@),
                        None => None::<Seq<char>>,
                    },
            ),
            views_of(found@) == present_names(pv.subrange(0, i as int)),
            requests.len() == found.len(),
            views_of(requests@) == Seq::new(
                found@.len(),
                |k: int| spec_set_input_mute_request(views_of(found@)[k], input_should_mute(shielded_exes@, views_of(found@)[k])),
            ),
        decreases parsed.len() - i,
    {
        let ghost before_found = found@;
        let ghost before_req = requests@;
        proof {
            assert(pv.subrange(0, i + 1).drop_last() =~= pv.subrange(0, i as int));
            assert(pv.subrange(0, i + 1).last() == pv[i as int]);
        }
        match &parsed[i] {
            Some(name) => {
                let mute = should_mute_input(shielded_exes, name.as_str());
                let req = set_input_mute_request(name.as_str(), mute);
                found.push(name.clone());
                requests.push(req);
                proof {
                    assert(views_of(found@) =~= views_of(before_found) + seq![name@]);
                    assert(views_of(requests@) =~= Seq::new(
                        found@.len(),
                        |k: int| spec_set_input_mute_request(views_of(found@)[k], input_should_mute(shielded_exes@, views_of(found@)[k])),
                    )) by {
                        assert forall|k: int| 0 <= k < found@.len() implies views_of(requests@)[k]
                            == spec_set_input_mute_request(views_of(found@)[k], input_should_mute(shielded_exes@, views_of(found@)[k])) by {
                            if k < before_found.len() {
                                assert(views_of(found@)[k] == views_of(before_found)[k]);
                                assert(views_of(requests@)[k] == views_of(before_req)[k]);
                            }
                        }
                    }
                }
            },
            None => {
                assert(views_of(found@) =~= views_of(before_found) + Seq::<Seq<char>>::empty());
            },
        }
        i = i + 1;
    }
    assert(pv.subrange(0, parsed.len() as int) =~= pv);
    state.active_audio_inputs = found;
    requests
}

/// What the companion daemon does on each tick.
pub enum ObsDaemonAction {
    /// OBS is not running: drop the session.
    Disconnect,
    /// OBS runs but no session exists: try to connect, then synchronise if that worked.
    ConnectThenSync,
    /// A session exists: synchronise.
    Sync,
}

/// The daemon's decision for one tick.
pub fn obs_daemon_step(obs_running: bool, connected: bool) -> (a: ObsDaemonAction)
    ensures
        !obs_running ==> a is Disconnect,
        obs_running && !connected ==> a is ConnectThenSync,
        obs_running && connected ==> a is Sync,
{
    if !obs_running {
        ObsDaemonAction::Disconnect
    } else if !connected {
        ObsDaemonAction::ConnectThenSync
    } else {
        ObsDaemonAction::Sync
    }
}

/// An input named after a shielded application is muted, whatever its case: the input
/// `Discord` is muted when `discord.exe` is shielded.
pub proof fn law_input_named_after_shielded_exe_is_muted(
    shielded: Set<Seq<char>>,
    exe: Seq<char>,
    input_name: Seq<char>,
)
    requires
        shielded.contains(exe),
        lowercase(input_name) == lowercase(remove_all(exe, ".exe"@)),
    ensures
        input_should_mute(shielded, input_name),
{
    let t = lowercase(input_name);
    assert(t.subrange(0, t.len() as int) =~= t);
    assert(crate::text::occurs_at(t, t, 0));
}

} // verus!
