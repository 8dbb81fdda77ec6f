//! Display-affinity decisions: which affinity a shield request asks for, how a request
//! is packed into the single parameter of the injected hook's thread entry, and when a
//! change is skipped, retried with the fallback mode, or confirmed.
use vstd::prelude::*;
use crate::text::{chars_of, chars_eq_ignore_ascii_case, eq_ignoring_ascii_case};

verus! {

/// `WDA_NONE`: the window appears in captures.
pub const WDA_NONE: u32 = 0x0000_0000;

/// `WDA_MONITOR`: the window is shown as a black rectangle in captures.
pub const WDA_MONITOR: u32 = 0x0000_0001;

/// `WDA_EXCLUDEFROMCAPTURE`: the window is left out of captures entirely.
pub const WDA_EXCLUDEFROMCAPTURE: u32 = 0x0000_0011;

/// Bit of the hook parameter that asks to enable the shield.
pub const ENABLE_BIT: u64 = 0x8000_0000_0000_0000;

/// Bit of the hook parameter that asks for the black-rectangle mode.
pub const MONITOR_BIT: u64 = 0x4000_0000_0000_0000;

/// The bits of the hook parameter that carry the window handle.
pub const HWND_MASK: u64 = 0x3FFF_FFFF_FFFF_FFFF;

/// A shield request as the injected hook receives it.
pub struct ShieldRequest {
    pub hwnd: u64,
    pub enable: bool,
    pub prefer_monitor: bool,
}

/// The affinity a request asks for.
pub open spec fn spec_affinity_for(enable: bool, prefer_monitor: bool) -> u32 {
    if enable {
        if prefer_monitor {
            WDA_MONITOR
        } else {
            WDA_EXCLUDEFROMCAPTURE
        }
    } else {
        WDA_NONE
    }
}

/// The affinity for a shield (`enable`) or unshield request in the given mode.
pub fn affinity_for(enable: bool, prefer_monitor: bool) -> (a: u32)
    ensures
        a == spec_affinity_for(enable, prefer_monitor),
{
    if enable {
        if prefer_monitor {
            WDA_MONITOR
        } else {
            WDA_EXCLUDEFROMCAPTURE
        }
    } else {
        WDA_NONE
    }
}

/// The shield mode setting selects the black-rectangle mode when it is `monitor`,
/// ignoring ASCII case; no setting means the default (exclusion) mode.
pub open spec fn spec_prefers_monitor(shield_mode: Option<Seq<char>>) -> bool {
    match shield_mode {
        Some(m) => eq_ignoring_ascii_case(m, "monitor"@),
        None => false,
    }
}

/// Does the shield mode setting ask for the black-rectangle mode?
pub fn prefers_monitor(shield_mode: Option<&str>) -> (b: bool)
    ensures
        b == spec_prefers_monitor(
            match shield_mode {
                Some(m) => Some(m@),
                None => None,
            },
        ),
{
    match shield_mode {
        Some(m) => {
            let a = chars_of(m);
            let b = chars_of("monitor");
            chars_eq_ignore_ascii_case(&a, &b)
        },
        None => false,
    }
}

// ---------------------------------------------------------------------------
// The hook's parameter
// ---------------------------------------------------------------------------

/// The hook parameter: bit 63 = enable, bit 62 = black-rectangle mode, bits 0-61 = window handle.
pub open spec fn spec_encode_shield_param(hwnd: u64, enable: bool, prefer_monitor: bool) -> u64 {
    (hwnd & HWND_MASK) | (if enable {
        ENABLE_BIT
    } else {
        0u64
    }) | (if prefer_monitor {
        MONITOR_BIT
    } else {
        0u64
    })
}

/// Packs a shield request into the hook's thread parameter.
pub fn encode_shield_param(hwnd: u64, enable: bool, prefer_monitor: bool) -> (p: u64)
    ensures
        p == spec_encode_shield_param(hwnd, enable, prefer_monitor),
{
    let e: u64 = if enable {
        ENABLE_BIT
    } else {
        0
    };
    let m: u64 = if prefer_monitor {
        MONITOR_BIT
    } else {
        0
    };
    (hwnd & HWND_MASK) | e | m
}

/// Unpacks the hook's thread parameter.
pub fn decode_shield_param(param: u64) -> (r: ShieldRequest)
    ensures
        r.enable == (param & ENABLE_BIT != 0),
        r.prefer_monitor == (param & MONITOR_BIT != 0),
        r.hwnd == param & HWND_MASK,
{
    ShieldRequest {
        hwnd: param & HWND_MASK,
        enable: (param & ENABLE_BIT) != 0,
        prefer_monitor: (param & MONITOR_BIT) != 0,
    }
}

/// The hook reads back exactly the request that was packed: the flags, and the window
/// handle's low 62 bits (all of it for any handle below 2^62).
pub proof fn law_shield_param_round_trip(hwnd: u64, enable: bool, prefer_monitor: bool)
    ensures
        (spec_encode_shield_param(hwnd, enable, prefer_monitor) & ENABLE_BIT != 0) == enable,
        (spec_encode_shield_param(hwnd, enable, prefer_monitor) & MONITOR_BIT != 0) == prefer_monitor,
        spec_encode_shield_param(hwnd, enable, prefer_monitor) & HWND_MASK == hwnd & HWND_MASK,
        hwnd < 0x4000_0000_0000_0000 ==> spec_encode_shield_param(hwnd, enable, prefer_monitor)
            & HWND_MASK == hwnd,
{
    let e: u64 = if enable {
        ENABLE_BIT
    } else {
        0u64
    };
    let m: u64 = if prefer_monitor {
        MONITOR_BIT
    } else {
        0u64
    };
    let p = (hwnd & HWND_MASK) | e | m;
    assert(p == spec_encode_shield_param(hwnd, enable, prefer_monitor));
    assert((e == 0x8000_0000_0000_0000u64 || e == 0u64) && (m == 0x4000_0000_0000_0000u64 || m
        == 0u64) ==> {
        &&& (((hwnd & 0x3FFF_FFFF_FFFF_FFFFu64) | e | m) & 0x8000_0000_0000_0000u64 != 0) == (e != 0)
        &&& (((hwnd & 0x3FFF_FFFF_FFFF_FFFFu64) | e | m) & 0x4000_0000_0000_0000u64 != 0) == (m != 0)
        &&& ((hwnd & 0x3FFF_FFFF_FFFF_FFFFu64) | e | m) & 0x3FFF_FFFF_FFFF_FFFFu64 == hwnd
            & 0x3FFF_FFFF_FFFF_FFFFu64
        &&& hwnd < 0x4000_0000_0000_0000u64 ==> hwnd & 0x3FFF_FFFF_FFFF_FFFFu64 == hwnd
    }) by (bit_vector);
}

/// The parameter of the earlier, single-mode hook: the window handle in the low 32 bits
/// and the enable flag in bit 32.
pub fn decode_legacy_shield_param(param: u64) -> (r: ShieldRequest)
    ensures
        r.hwnd == param & 0xFFFF_FFFF,
        r.enable == ((param >> 32u64) & 1 != 0),
        !r.prefer_monitor,
{
    ShieldRequest { hwnd: param & 0xFFFF_FFFF, enable: ((param >> 32u64) & 1) != 0, prefer_monitor: false }
}

// ---------------------------------------------------------------------------
// Applying an affinity: skip, set, fall back, confirm
// ---------------------------------------------------------------------------

/// Inside the hook: the window already has the requested state (any nonzero affinity
/// counts as shielded), so nothing is changed. `current` is `None` when the query failed.
pub open spec fn spec_hook_already_applied(current: Option<u32>, enable: bool) -> bool {
    match current {
        Some(c) => (enable && c != 0) || (!enable && c == 0),
        None => false,
    }
}

pub fn hook_already_applied(current: Option<u32>, enable: bool) -> (b: bool)
    ensures
        b == spec_hook_already_applied(current, enable),
{
    match current {
        Some(c) => (enable && c != 0) || (!enable && c == 0),
        None => false,
    }
}

/// Inside the hook: after a failed attempt to shield, the black-rectangle mode is tried.
pub fn hook_fallback_affinity(first_ok: bool, enable: bool) -> (r: Option<u32>)
    ensures
        r == (if !first_ok && enable {
            Some(WDA_MONITOR)
        } else {
            None
        }),
{
    if !first_ok && enable {
        Some(WDA_MONITOR)
    } else {
        None
    }
}

/// From the application itself: the window already has exactly the requested affinity
/// (the mode counts), or is unshielded as requested. `current` is `None` when the query failed.
pub open spec fn spec_direct_already_applied(
    current: Option<u32>,
    enable: bool,
    prefer_monitor: bool,
) -> bool {
    match current {
        Some(c) => (enable && c != 0 && ((prefer_monitor && c == WDA_MONITOR) || (!prefer_monitor
            && c == WDA_EXCLUDEFROMCAPTURE))) || (!enable && c == 0),
        None => false,
    }
}

pub fn direct_already_applied(current: Option<u32>, enable: bool, prefer_monitor: bool) -> (b: bool)
    ensures
        b == spec_direct_already_applied(current, enable, prefer_monitor),
{
    match current {
        Some(c) => {
            if enable && c != 0 {
                if prefer_monitor && c == WDA_MONITOR {
                    return true;
                }
                if !prefer_monitor && c == WDA_EXCLUDEFROMCAPTURE {
                    return true;
                }
            }
            !enable && c == 0
        },
        None => false,
    }
}

/// From the application itself: after a failed attempt to exclude a window from capture,
/// the black-rectangle mode is tried (not when that mode was the one that failed).
pub fn direct_fallback_affinity(first_ok: bool, enable: bool, prefer_monitor: bool) -> (r: Option<u32>)
    ensures
        r == (if !first_ok && enable && !prefer_monitor {
            Some(WDA_MONITOR)
        } else {
            None
        }),
{
    if !first_ok && enable && !prefer_monitor {
        Some(WDA_MONITOR)
    } else {
        None
    }
}

/// The window is excluded from capture: the affinity query succeeded and reported
/// `WDA_EXCLUDEFROMCAPTURE`.
pub fn is_capture_excluded(query_ok: bool, affinity: u32) -> (b: bool)
    ensures
        b == (query_ok && affinity == WDA_EXCLUDEFROMCAPTURE),
{
    query_ok && affinity == WDA_EXCLUDEFROMCAPTURE
}

/// The hook also treats every visible window of its own process.
pub fn is_sibling_window(visible: bool, window_pid: u32, own_pid: u32) -> (b: bool)
    ensures
        b == (visible && window_pid == own_pid),
{
    visible && window_pid == own_pid
}

/// A request counts as already applied only when the window is in exactly the requested
/// state. From the application: an unshield is skipped only for affinity `WDA_NONE` (0),
/// a shield only for the affinity the mode asks for (0x11, or 0x01 in the black-rectangle
/// mode). In the hook: an unshield is skipped only for 0, a shield for any nonzero
/// affinity. A failed query never counts as applied.
pub proof fn law_skip_only_when_in_requested_state(c: u32, enable: bool, prefer_monitor: bool)
    ensures
        spec_direct_already_applied(Some(c), false, prefer_monitor) == (c == 0),
        spec_direct_already_applied(Some(c), true, prefer_monitor) == (c == if prefer_monitor {
            0x01u32
        } else {
            0x11u32
        }),
        spec_hook_already_applied(Some(c), false) == (c == 0),
        spec_hook_already_applied(Some(c), true) == (c != 0),
        !spec_direct_already_applied(None, enable, prefer_monitor),
        !spec_hook_already_applied(None, enable),
{
}

/// Shielding asks for `WDA_EXCLUDEFROMCAPTURE` (or `WDA_MONITOR` in the black-rectangle
/// mode), unshielding for `WDA_NONE`; and once a request's affinity is in place, both the
/// application and the hook recognise it as already applied and change nothing.
pub proof fn law_affinity_modes(prefer_monitor: bool)
    ensures
        spec_affinity_for(false, prefer_monitor) == WDA_NONE,
        spec_affinity_for(true, false) == WDA_EXCLUDEFROMCAPTURE,
        spec_affinity_for(true, true) == WDA_MONITOR,
        spec_direct_already_applied(Some(spec_affinity_for(true, prefer_monitor)), true, prefer_monitor),
        spec_direct_already_applied(Some(spec_affinity_for(false, prefer_monitor)), false, prefer_monitor),
        spec_hook_already_applied(Some(spec_affinity_for(true, prefer_monitor)), true),
        spec_affinity_for(false, prefer_monitor) == 0x00u32,
        spec_affinity_for(true, false) == 0x11u32,
        spec_affinity_for(true, true) == 0x01u32,
{
}

/// The hook parameter's layout: bit 63 is the enable flag, bit 62 the black-rectangle
/// mode, and the low 62 bits the window handle.
pub proof fn law_shield_param_layout(hwnd: u64, enable: bool, prefer_monitor: bool)
    ensures
        spec_encode_shield_param(hwnd, enable, prefer_monitor) == (hwnd & 0x3FFF_FFFF_FFFF_FFFFu64) | (if enable {
            0x8000_0000_0000_0000u64
        } else {
            0u64
        }) | (if prefer_monitor {
            0x4000_0000_0000_0000u64
        } else {
            0u64
        }),
{
}

} // verus!
