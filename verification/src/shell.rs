//! Decisions of the desktop shell integration: the tray status line, start-up flags,
//! the autostart command and the outcome of registry writes and reads.
use vstd::prelude::*;
use crate::text::{decimal, signed_decimal, format_u64, format_i64, str_eq};
use crate::exe_set::views_of;

verus! {

/// The tray's status line for `count` shielded windows.
pub open spec fn spec_tray_status_text(count: nat) -> Seq<char> {
    if count == 0 {
        "No apps shielded"@
    } else {
        "🛡️  "@ + decimal(count) + " app"@ + (if count == 1 {
            ""@
        } else {
            "s"@
        }) + " hidden from capture"@
    }
}

/// The tray's status line: how many apps are hidden from capture.
pub fn tray_status_text(count: usize) -> (s: String)
    ensures
        s@ == spec_tray_status_text(count as nat),
{
    if count == 0 {
        return String::from_str("No apps shielded");
    }
    let mut s = String::from_str("🛡️  ");
    let n = format_u64(count as u64);
    s.append(n.as_str());
    s.append(" app");
    if count != 1 {
        s.append("s");
    }
    s.append(" hidden from capture");
    proof {
        if count == 1 {
            reveal_strlit("");
            assert(""@ =~= Seq::<char>::empty());
            assert(s@ =~= spec_tray_status_text(count as nat));
        } else {
            assert(s@ =~= spec_tray_status_text(count as nat));
        }
    }
    s
}

/// The command line asks to start hidden in the tray (`--minimized` or `-m`).
pub open spec fn spec_has_minimized_flag(args: Seq<Seq<char>>) -> bool {
    exists|i: int| 0 <= i < args.len() && (args[i] == "--minimized"@ || args[i] == "-m"@)
}

/// Does some argument ask to start minimized?
pub fn has_minimized_flag(args: &Vec<String>) -> (b: bool)
    ensures
        b == spec_has_minimized_flag(views_of(args@)),
{
    let mut i: usize = 0;
    while i < args.len()
        invariant
            i <= args.len(),
            forall|k: int|
                0 <= k < i ==> !(views_of(args@)[k] == "--minimized"@ || views_of(args@)[k]
                    == "-m"@),
        decreases args.len() - i,
    {
        let a = args[i].as_str();
        if str_eq(a, "--minimized") || str_eq(a, "-m") {
            assert(views_of(args@)[i as int] == args@[i as int]@);
            return true;
        }
        assert(views_of(args@)[i as int] == args@[i as int]@);
        i = i + 1;
    }
    false
}

/// The main window starts hidden when the command line or the setting asks for it.
pub fn should_start_minimized(args: &Vec<String>, start_minimized_setting: bool) -> (b: bool)
    ensures
        b == (spec_has_minimized_flag(views_of(args@)) || start_minimized_setting),
{
    has_minimized_flag(args) || start_minimized_setting
}

/// `SW_HIDE`
pub const SW_HIDE: i32 = 0;

/// `SW_SHOW`
pub const SW_SHOW: i32 = 5;

/// How an elevated relaunch shows its window: hidden when started minimized.
pub fn relaunch_show_command(minimized: bool) -> (c: i32)
    ensures
        c == (if minimized {
            SW_HIDE
        } else {
            SW_SHOW
        }),
{
    if minimized {
        SW_HIDE
    } else {
        SW_SHOW
    }
}

/// The autostart entry: the quoted executable path followed by `--minimized`.
pub fn autostart_command(exe_path: &str) -> (s: String)
    ensures
        s@ == "\""@ + exe_path@ + "\" --minimized"@,
{
    let mut s = String::from_str("\"");
    s.append(exe_path);
    s.append("\" --minimized");
    s
}

/// `ERROR_FILE_NOT_FOUND`: deleting a value that is not there is no failure.
pub const ERROR_FILE_NOT_FOUND: i32 = 2;

/// The result of writing (`enable`) or deleting the autostart value, given the status of
/// opening the key and of the write or delete.
pub open spec fn spec_autostart_write_outcome(open_status: i32, enable: bool, write_status: i32) -> Result<(), Seq<char>> {
    if open_status != 0 {
        Err("RegOpenKeyExW failed with error code: "@ + signed_decimal(open_status as int))
    } else if enable {
        if write_status != 0 {
            Err("RegSetValueExW failed with error: "@ + signed_decimal(write_status as int))
        } else {
            Ok(())
        }
    } else if write_status != 0 && write_status != ERROR_FILE_NOT_FOUND {
        Err("RegDeleteValueW failed with error: "@ + signed_decimal(write_status as int))
    } else {
        Ok(())
    }
}

/// The result of writing (`enable`) or deleting the MPO fix value, given the status of
/// opening the key and of the write or delete.
pub open spec fn spec_mpo_fix_write_outcome(open_status: i32, enable: bool, write_status: i32) -> Result<(), Seq<char>> {
    if open_status != 0 {
        Err("RegOpenKeyExW (HKLM) failed (error code "@ + signed_decimal(open_status as int)
            + "). Administrator privileges required to change MPO settings."@)
    } else if enable {
        if write_status != 0 {
            Err("RegSetValueExW failed with error: "@ + signed_decimal(write_status as int))
        } else {
            Ok(())
        }
    } else if write_status != 0 && write_status != ERROR_FILE_NOT_FOUND {
        Err("RegDeleteValueW failed with error: "@ + signed_decimal(write_status as int))
    } else {
        Ok(())
    }
}

/// Maps a `Result<(), String>` to its view.
pub open spec fn result_view(r: Result<(), String>) -> Result<(), Seq<char>> {
    match r {
        Ok(()) => Ok(()),
        Err(e) => Err(e@),
    }
}

fn write_or_delete_outcome(enable: bool, write_status: i32) -> (r: Result<(), String>)
    ensures
        result_view(r) == (if enable {
            if write_status != 0 {
                Err("RegSetValueExW failed with error: "@ + signed_decimal(write_status as int))
            } else {
                Ok(())
            }
        } else if write_status != 0 && write_status != ERROR_FILE_NOT_FOUND {
            Err("RegDeleteValueW failed with error: "@ + signed_decimal(write_status as int))
        } else {
            Ok(())
        }),
{
    if enable {
        if write_status != 0 {
            let mut m = String::from_str("RegSetValueExW failed with error: ");
            m.append(format_i64(write_status as i64).as_str());
            return Err(m);
        }
        Ok(())
    } else if write_status != 0 && write_status != ERROR_FILE_NOT_FOUND {
        let mut m = String::from_str("RegDeleteValueW failed with error: ");
        m.append(format_i64(write_status as i64).as_str());
        Err(m)
    } else {
        Ok(())
    }
}

/// Outcome of changing the autostart entry.
pub fn autostart_write_outcome(open_status: i32, enable: bool, write_status: i32) -> (r: Result<(), String>)
    ensures
        result_view(r) == spec_autostart_write_outcome(open_status, enable, write_status),
{
    if open_status != 0 {
        let mut m = String::from_str("RegOpenKeyExW failed with error code: ");
        m.append(format_i64(open_status as i64).as_str());
        return Err(m);
    }
    write_or_delete_outcome(enable, write_status)
}

/// Outcome of changing the MPO fix value.
pub fn mpo_fix_write_outcome(open_status: i32, enable: bool, write_status: i32) -> (r: Result<(), String>)
    ensures
        result_view(r) == spec_mpo_fix_write_outcome(open_status, enable, write_status),
{
    if open_status != 0 {
        let mut m = String::from_str("RegOpenKeyExW (HKLM) failed (error code ");
        m.append(format_i64(open_status as i64).as_str());
        m.append("). Administrator privileges required to change MPO settings.");
        return Err(m);
    }
    write_or_delete_outcome(enable, write_status)
}

/// The autostart entry is present: the key opened, the value was found and is not empty.
pub open spec fn spec_autostart_enabled(open_status: i32, query_status: int, data_len: int) -> bool {
    open_status == 0 && query_status == 0 && data_len > 0
}

pub fn autostart_enabled(open_status: i32, query_status: i32, data_len: u32) -> (b: bool)
    ensures
        b == spec_autostart_enabled(open_status, query_status as int, data_len as int),
{
    open_status == 0 && query_status == 0 && data_len > 0
}

/// The MPO fix is active: the key opened and `OverlayTestMode` reads 5.
pub open spec fn spec_mpo_fix_active(open_status: i32, query_status: int, data: int) -> bool {
    open_status == 0 && query_status == 0 && data == 5
}

pub fn mpo_fix_active(open_status: i32, query_status: i32, data: u32) -> (b: bool)
    ensures
        b == spec_mpo_fix_active(open_status, query_status as int, data as int),
{
    open_status == 0 && query_status == 0 && data == 5
}

/// The value `OverlayTestMode` is set to when the MPO fix is applied.
pub const MPO_FIX_OVERLAY_TEST_MODE: u32 = 5;

// ---------------------------------------------------------------------------
// Reading back what was written
// ---------------------------------------------------------------------------

/// The number of UTF-16 code units of a text.
pub open spec fn utf16_units(s: Seq<char>) -> nat
    decreases s.len(),
{
    if s.len() == 0 {
        0
    } else {
        utf16_units(s.drop_last()) + if (s.last() as u32) > 0xFFFF {
            2nat
        } else {
            1nat
        }
    }
}

/// What querying a string value reports: found, with its size in bytes (UTF-16 with the
/// terminating zero), or `ERROR_FILE_NOT_FOUND` with no data.
pub open spec fn string_value_query(value: Option<Seq<char>>) -> (int, int) {
    match value {
        Some(text) => (0int, (2 * (utf16_units(text) + 1)) as int),
        None => (ERROR_FILE_NOT_FOUND as int, 0int),
    }
}

/// What querying a DWORD value reports: found with its data, or `ERROR_FILE_NOT_FOUND`
/// with the data buffer left at zero.
pub open spec fn dword_value_query(value: Option<u32>) -> (int, int) {
    match value {
        Some(d) => (0int, d as int),
        None => (ERROR_FILE_NOT_FOUND as int, 0int),
    }
}

/// The autostart value after a successful change: the launch command when enabled, no
/// value when disabled.
pub open spec fn autostart_value_after(enable: bool, exe_path: Seq<char>) -> Option<Seq<char>> {
    if enable {
        Some("\""@ + exe_path + "\" --minimized"@)
    } else {
        None
    }
}

/// The `OverlayTestMode` value after a successful change: 5 when enabled, no value when disabled.
pub open spec fn mpo_value_after(enable: bool) -> Option<u32> {
    if enable {
        Some(MPO_FIX_OVERLAY_TEST_MODE)
    } else {
        None
    }
}

/// After the autostart entry was changed successfully (and nothing else changed it), reading
/// it gives the flag that was written.
pub proof fn law_autostart_read_after_write(open_status: i32, enable: bool, write_status: i32, exe_path: Seq<char>)
    requires
        spec_autostart_write_outcome(open_status, enable, write_status) is Ok,
    ensures
        ({
            let q = string_value_query(autostart_value_after(enable, exe_path));
            spec_autostart_enabled(0, q.0, q.1) == enable
        }),
{
}

/// After the MPO fix was changed successfully (and nothing else changed it), reading it
/// gives the flag that was written.
pub proof fn law_mpo_fix_read_after_write(open_status: i32, enable: bool, write_status: i32)
    requires
        spec_mpo_fix_write_outcome(open_status, enable, write_status) is Ok,
    ensures
        ({
            let q = dword_value_query(mpo_value_after(enable));
            spec_mpo_fix_active(0, q.0, q.1) == enable
        }),
{
}

} // verus!
