//! Decisions around injecting the shield hook into another process: the hook's file
//! name, stale copies to clean up, finding a module in the target, and the address
//! arithmetic that locates a function there.
use vstd::prelude::*;
use crate::text::{decimal, format_u64, lowercase, lowercase_chars, chars_of, chars_contain, chars_start_with, chars_end_with, has_substring, starts_with, ends_with, str_eq};

verus! {

/// The file name of this process's copy of the hook DLL.
pub open spec fn spec_hook_dll_name(pid: u32) -> Seq<char> {
    "streamshield_hook_"@ + decimal(pid as nat) + ".dll"@
}

/// `streamshield_hook_{pid}.dll`
pub fn hook_dll_name(pid: u32) -> (s: String)
    ensures
        s@ == spec_hook_dll_name(pid),
{
    let mut s = String::from_str("streamshield_hook_");
    s.append(format_u64(pid as u64).as_str());
    s.append(".dll");
    s
}

/// A temporary file is a stale hook copy: a `streamshield_hook_*.dll` that does not
/// belong to the running process.
pub open spec fn spec_is_stale_hook_dll(file_name: Seq<char>, own_pid: u32) -> bool {
    &&& starts_with(file_name, "streamshield_hook_"@)
    &&& ends_with(file_name, ".dll"@)
    &&& file_name != spec_hook_dll_name(own_pid)
}

/// Should this temporary file be deleted at start-up?
pub fn is_stale_hook_dll(file_name: &str, own_pid: u32) -> (b: bool)
    ensures
        b == spec_is_stale_hook_dll(file_name@, own_pid),
{
    let name = chars_of(file_name);
    let prefix = chars_of("streamshield_hook_");
    let suffix = chars_of(".dll");
    if !chars_start_with(&name, &prefix) || !chars_end_with(&name, &suffix) {
        return false;
    }
    let own = hook_dll_name(own_pid);
    !str_eq(file_name, own.as_str())
}

/// The running process's own hook copy is never deleted.
pub proof fn law_own_hook_dll_kept(pid: u32)
    ensures
        !spec_is_stale_hook_dll(spec_hook_dll_name(pid), pid),
{
}

/// A module loaded in the target process: its file name and base address.
pub struct ModuleEntry {
    pub name: String,
    pub base: usize,
}

/// Module `m` is the one looked for: its lowercase name contains `pattern`.
pub open spec fn module_matches(m: ModuleEntry, pattern: Seq<char>) -> bool {
    has_substring(lowercase(m.name@), pattern)
}

/// The base address of the first module (in snapshot order) whose lowercase name
/// contains `pattern`.
pub fn find_module_base(modules: &Vec<ModuleEntry>, pattern: &str) -> (r: Option<usize>)
    ensures
        match r {
            Some(b) => exists|i: int|
                0 <= i < modules.len() && module_matches(#[trigger] modules@[i], pattern@) && modules@[i].base
                    == b && forall|j: int| 0 <= j < i ==> !module_matches(#[trigger] modules@[j], pattern@),
            None => forall|i: int| 0 <= i < modules.len() ==> !module_matches(#[trigger] modules@[i], pattern@),
        },
{
    let p = chars_of(pattern);
    let mut i: usize = 0;
    while i < modules.len()
        invariant
            i <= modules.len(),
            p@ == pattern@,
            forall|j: int| 0 <= j < i ==> !module_matches(#[trigger] modules@[j], pattern@),
        decreases modules.len() - i,
    {
        let name = lowercase_chars(modules[i].name.as_str());
        if chars_contain(&name, &p) {
            assert(module_matches(modules@[i as int], pattern@));
            return Some(modules[i].base);
        }
        i = i + 1;
    }
    None
}

/// The address of a function in the target: the target module's base plus the
/// function's offset in the locally loaded copy (wrapping, as addresses do).
pub fn remote_function_address(remote_base: usize, local_function: usize, local_base: usize) -> (a: usize)
    requires
        local_base <= local_function,
    ensures
        a as int == (if remote_base + (local_function - local_base) > usize::MAX {
            remote_base + (local_function - local_base) - (usize::MAX + 1)
        } else {
            remote_base + (local_function - local_base)
        }),
{
    let offset = local_function - local_base;
    remote_base.wrapping_add(offset)
}

/// The owning process of a window, or the error when the system reports none.
pub fn window_pid_result(hwnd: usize, pid: u32) -> (r: Result<u32, String>)
    ensures
        pid != 0 ==> r == Ok::<u32, String>(pid),
        pid == 0 ==> (r matches Err(e) && e@ == "GetWindowThreadProcessId failed for hwnd "@ + decimal(
            hwnd as nat,
        )),
{
    if pid == 0 {
        let mut m = String::from_str("GetWindowThreadProcessId failed for hwnd ");
        m.append(format_u64(hwnd as u64).as_str());
        Err(m)
    } else {
        Ok(pid)
    }
}

/// The shield request goes straight to the window when it belongs to this process;
/// otherwise the hook is injected into the owning process.
pub fn shield_in_process(window_pid: u32, own_pid: u32) -> (b: bool)
    ensures
        b == (window_pid == own_pid),
{
    window_pid == own_pid
}

/// Copying a buffer into the target succeeded: the call reported success and every
/// byte was written.
pub fn remote_write_complete(call_ok: bool, written: usize, expected: usize) -> (b: bool)
    ensures
        b == (call_ok && written == expected),
{
    call_ok && written == expected
}

} // verus!
