//! The audio-exclusion registry (processes whose sound is kept out of stream capture)
//! and the choice of audio sessions that belong to a process.
use std::collections::HashSet;
use vstd::prelude::*;
use crate::text::{lowercase, to_lowercase, str_eq};
use crate::exe_set::ExeSet;

verus! {

broadcast use vstd::std_specs::hash::group_hash_axioms;

/// Processes excluded from stream audio: by process id and by lowercase executable name.
pub struct AudioShieldState {
    pub excluded_pids: HashSet<u32>,
    pub excluded_exes: ExeSet,
}

impl AudioShieldState {
    /// The empty registry.
    pub fn new() -> (s: Self)
        ensures
            s.excluded_pids@ == Set::<u32>::empty(),
            s.excluded_exes@ == Set::<Seq<char>>::empty(),
    {
        AudioShieldState { excluded_pids: HashSet::new(), excluded_exes: ExeSet::new() }
    }
}

impl Default for AudioShieldState {
    fn default() -> (s: Self)
        ensures
            s.excluded_pids@ == Set::<u32>::empty(),
            s.excluded_exes@ == Set::<Seq<char>>::empty(),
    {
        AudioShieldState::new()
    }
}

/// Whether the registry `(pids, exes)` shields the process `(exe_name, pid)`:
/// a nonzero pid that is registered, or the lowercase executable name.
pub open spec fn spec_is_audio_shielded(
    pids: Set<u32>,
    exes: Set<Seq<char>>,
    exe_name: Seq<char>,
    pid: u32,
) -> bool {
    (pid != 0 && pids.contains(pid)) || exes.contains(lowercase(exe_name))
}

/// Registers a process to be excluded from stream loopback capture: its pid (when nonzero)
/// and its lowercase executable name.
pub fn exclude_process_audio(state: &mut AudioShieldState, exe_name: &str, pid: u32)
    ensures
        final(state).excluded_pids@ == (if pid != 0 {
            old(state).excluded_pids@.insert(pid)
        } else {
            old(state).excluded_pids@
        }),
        final(state).excluded_exes@ == old(state).excluded_exes@.insert(lowercase(exe_name@)),
{
    if pid != 0 {
        state.excluded_pids.insert(pid);
    }
    let lower = to_lowercase(exe_name);
    state.excluded_exes.insert(lower);
}

/// Removes a process from audio exclusion: its pid (when nonzero) and its lowercase
/// executable name.
pub fn include_process_audio(state: &mut AudioShieldState, exe_name: &str, pid: u32)
    ensures
        final(state).excluded_pids@ == (if pid != 0 {
            old(state).excluded_pids@.remove(pid)
        } else {
            old(state).excluded_pids@
        }),
        final(state).excluded_exes@ == old(state).excluded_exes@.remove(lowercase(exe_name@)),
{
    if pid != 0 {
        state.excluded_pids.remove(&pid);
    }
    let lower = to_lowercase(exe_name);
    state.excluded_exes.remove(lower.as_str());
}

/// Is the process currently audio-shielded?
pub fn is_audio_shielded(state: &AudioShieldState, exe_name: &str, pid: u32) -> (b: bool)
    ensures
        b == spec_is_audio_shielded(
            state.excluded_pids@,
            state.excluded_exes@,
            exe_name@,
            pid,
        ),
{
    if pid != 0 && state.excluded_pids.contains(&pid) {
        return true;
    }
    let lower = to_lowercase(exe_name);
    state.excluded_exes.contains(lower.as_str())
}

/// Once a process is excluded, it is audio-shielded (whatever else the registry holds).
pub proof fn law_exclude_then_shielded(
    pids: Set<u32>,
    exes: Set<Seq<char>>,
    exe_name: Seq<char>,
    pid: u32,
)
    ensures
        spec_is_audio_shielded(
            if pid != 0 {
                pids.insert(pid)
            } else {
                pids
            },
            exes.insert(lowercase(exe_name)),
            exe_name,
            pid,
        ),
{
}

/// Once a process is included again, it is no longer audio-shielded under the same
/// name and pid.
pub proof fn law_include_then_not_shielded(
    pids: Set<u32>,
    exes: Set<Seq<char>>,
    exe_name: Seq<char>,
    pid: u32,
)
    ensures
        !spec_is_audio_shielded(
            if pid != 0 {
                pids.remove(pid)
            } else {
                pids
            },
            exes.remove(lowercase(exe_name)),
            exe_name,
            pid,
        ),
{
}

// ---------------------------------------------------------------------------
// Audio sessions of a process
// ---------------------------------------------------------------------------

/// One audio session as the system's session enumeration reports it: the owning
/// process id, that process's executable file name (empty when it could not be read),
/// and whether the session is muted.
pub struct AudioSession {
    pub pid: u32,
    pub exe_name: String,
    pub muted: bool,
}

/// The session belongs to the target: a session with a process id that is the target's
/// (nonzero) pid, or whose executable name equals the target's, ignoring case.
pub open spec fn session_belongs_to(s: AudioSession, exe_name: Seq<char>, target_pid: u32) -> bool {
    &&& s.pid != 0
    &&& ((target_pid != 0 && s.pid == target_pid) || (s.exe_name@.len() != 0 && lowercase(
        s.exe_name@,
    ) == lowercase(exe_name)))
}

fn session_belongs(s: &AudioSession, exe_name: &str, target_lower: &String, target_pid: u32) -> (r: bool)
    requires
        target_lower@ == lowercase(exe_name@),
    ensures
        r == session_belongs_to(*s, exe_name@, target_pid),
{
    if s.pid == 0 {
        return false;
    }
    if target_pid != 0 && s.pid == target_pid {
        return true;
    }
    if s.exe_name.as_str().is_empty() {
        return false;
    }
    let l = to_lowercase(s.exe_name.as_str());
    l == *target_lower
}

/// The positions, in order, of the sessions whose mute flag is set for the process
/// `(exe_name, target_pid)`.
pub fn set_process_audio_mute(sessions: &Vec<AudioSession>, exe_name: &str, target_pid: u32) -> (r: Vec<usize>)
    ensures
        forall|k: int|
            0 <= k < r.len() ==> (#[trigger] r@[k]) < sessions.len() && session_belongs_to(
                sessions@[r@[k] as int],
                exe_name@,
                target_pid,
            ),
        forall|k: int, l: int| 0 <= k < l < r.len() ==> r@[k] < r@[l],
        forall|i: int|
            0 <= i < sessions.len() && session_belongs_to(sessions@[i], exe_name@, target_pid)
                ==> r@.contains(i as usize),
{
    let target_lower = to_lowercase(exe_name);
    let mut r: Vec<usize> = Vec::new();
    let mut i: usize = 0;
    while i < sessions.len()
        invariant
            i <= sessions.len(),
            target_lower@ == lowercase(exe_name@),
            forall|k: int|
                0 <= k < r.len() ==> (#[trigger] r@[k]) < i && session_belongs_to(
                    sessions@[r@[k] as int],
                    exe_name@,
                    target_pid,
                ),
            forall|k: int, l: int| 0 <= k < l < r.len() ==> r@[k] < r@[l],
            forall|j: int|
                0 <= j < i && session_belongs_to(sessions@[j], exe_name@, target_pid)
                    ==> r@.contains(j as usize),
        decreases sessions.len() - i,
    {
        let ghost before = r@;
        if session_belongs(&sessions[i], exe_name, &target_lower, target_pid) {
            r.push(i);
        }
        proof {
            assert forall|j: int|
                0 <= j < i + 1 && session_belongs_to(sessions@[j], exe_name@, target_pid)
                    implies r@.contains(j as usize) by {
                if j < i {
                    let w = choose|w: int| 0 <= w < before.len() && before[w] == j as usize;
                    assert(r@[w] == j as usize);
                } else {
                    assert(r@[r.len() - 1] == i);
                }
            }
        }
        i = i + 1;
    }
    r
}

/// Is some session of the process `(exe_name, target_pid)` muted?
pub fn get_process_audio_mute(sessions: &Vec<AudioSession>, exe_name: &str, target_pid: u32) -> (b: bool)
    ensures
        b == exists|i: int|
            0 <= i < sessions.len() && session_belongs_to(
                #[trigger] sessions@[i],
                exe_name@,
                target_pid,
            ) && sessions@[i].muted,
{
    let target_lower = to_lowercase(exe_name);
    let mut i: usize = 0;
    while i < sessions.len()
        invariant
            i <= sessions.len(),
            target_lower@ == lowercase(exe_name@),
            forall|j: int|
                0 <= j < i ==> !(session_belongs_to(#[trigger] sessions@[j], exe_name@, target_pid)
                    && sessions@[j].muted),
        decreases sessions.len() - i,
    {
        if sessions[i].muted && session_belongs(&sessions[i], exe_name, &target_lower, target_pid) {
            return true;
        }
        i = i + 1;
    }
    false
}

} // verus!
