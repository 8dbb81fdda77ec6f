//! Bookkeeping of the NVIDIA capture bypass: which processes are patched, whether a
//! patch is already in place, and how the outcomes of the three layers are reported.
use vstd::prelude::*;
use crate::text::{signed_decimal, decimal, format_i64, format_u64, join, join_strings, str_eq};
use crate::exe_set::views_of;
use crate::shell::result_view;

verus! {

/// Status report from the bypass engine.
pub struct NvidiaBypassStatus {
    pub drm_patch_count: usize,
    pub drm_patch_errors: Vec<String>,
    pub mpo_fix_applied: bool,
    pub mpo_fix_error: Option<String>,
    pub nvfbc_disabled: bool,
    pub nvfbc_error: Option<String>,
}

/// The combined report of the three layers: the DRM patch (count of patched processes
/// and its errors), the MPO fix and the NvFBC switch (each applied-or-not and its error).
pub fn apply_full_bypass(
    drm: (usize, Vec<String>),
    mpo: (bool, Option<String>),
    nvfbc: (bool, Option<String>),
) -> (s: NvidiaBypassStatus)
    ensures
        s.drm_patch_count == drm.0,
        s.drm_patch_errors == drm.1,
        s.mpo_fix_applied == mpo.0,
        s.mpo_fix_error == mpo.1,
        s.nvfbc_disabled == nvfbc.0,
        s.nvfbc_error == nvfbc.1,
{
    NvidiaBypassStatus {
        drm_patch_count: drm.0,
        drm_patch_errors: drm.1,
        mpo_fix_applied: mpo.0,
        mpo_fix_error: mpo.1,
        nvfbc_disabled: nvfbc.0,
        nvfbc_error: nvfbc.1,
    }
}

/// The report on a platform without the bypass: nothing applied, every layer says why.
pub fn unsupported_bypass_status() -> (s: NvidiaBypassStatus)
    ensures
        s.drm_patch_count == 0,
        views_of(s.drm_patch_errors@) == seq!["Not supported on this platform"@],
        !s.mpo_fix_applied,
        s.mpo_fix_error matches Some(e) && e@ == "Not supported on this platform"@,
        !s.nvfbc_disabled,
        s.nvfbc_error matches Some(e) && e@ == "Not supported on this platform"@,
{
    let mut errs: Vec<String> = Vec::new();
    errs.push(String::from_str("Not supported on this platform"));
    assert(views_of(errs@) =~= seq!["Not supported on this platform"@]);
    NvidiaBypassStatus {
        drm_patch_count: 0,
        drm_patch_errors: errs,
        mpo_fix_applied: false,
        mpo_fix_error: Some(String::from_str("Not supported on this platform")),
        nvfbc_disabled: false,
        nvfbc_error: Some(String::from_str("Not supported on this platform")),
    }
}

/// The DRM layer's result when the process list could not be read at all.
pub fn snapshot_failure_report() -> (r: (usize, Vec<String>))
    ensures
        r.0 == 0,
        views_of(r.1@) == seq!["Failed to create process snapshot"@],
{
    let mut errs: Vec<String> = Vec::new();
    errs.push(String::from_str("Failed to create process snapshot"));
    assert(views_of(errs@) =~= seq!["Failed to create process snapshot"@]);
    (0, errs)
}

/// The watchdog's light pass reports only how many processes carry the DRM patch.
pub fn patch_nvidia_processes(drm: &(usize, Vec<String>)) -> (n: usize)
    ensures
        n == drm.0,
{
    drm.0
}

// ---------------------------------------------------------------------------
// Layer 1: the DRM patch
// ---------------------------------------------------------------------------

/// The NVIDIA processes that perform the capture DRM check (lowercase file names).
pub open spec fn is_nvidia_capture_process(lower_name: Seq<char>) -> bool {
    ||| lower_name == "nvcontainer.exe"@
    ||| lower_name == "nvsphelper64.exe"@
    ||| lower_name == "nvidia share.exe"@
    ||| lower_name == "nvidia app.exe"@
    ||| lower_name == "nvidia overlay.exe"@
    ||| lower_name == "nvspcaps64.exe"@
}

/// The DRM patch targets exactly six processes: nvcontainer.exe, nvsphelper64.exe,
/// nvidia share.exe, nvidia app.exe, nvidia overlay.exe and nvspcaps64.exe (lowercase).
pub proof fn law_nvidia_capture_processes(name: Seq<char>)
    ensures
        is_nvidia_capture_process("nvcontainer.exe"@),
        is_nvidia_capture_process("nvsphelper64.exe"@),
        is_nvidia_capture_process("nvidia share.exe"@),
        is_nvidia_capture_process("nvidia app.exe"@),
        is_nvidia_capture_process("nvidia overlay.exe"@),
        is_nvidia_capture_process("nvspcaps64.exe"@),
        is_nvidia_capture_process(name) ==> name == "nvcontainer.exe"@ || name == "nvsphelper64.exe"@
            || name == "nvidia share.exe"@ || name == "nvidia app.exe"@ || name == "nvidia overlay.exe"@
            || name == "nvspcaps64.exe"@,
{
}

/// Is this (lowercase) process name one of the NVIDIA capture processes?
pub fn nvidia_capture_process(lower_name: &str) -> (b: bool)
    ensures
        b == is_nvidia_capture_process(lower_name@),
{
    str_eq(lower_name, "nvcontainer.exe") || str_eq(lower_name, "nvsphelper64.exe") || str_eq(
        lower_name,
        "nvidia share.exe",
    ) || str_eq(lower_name, "nvidia app.exe") || str_eq(lower_name, "nvidia overlay.exe")
        || str_eq(lower_name, "nvspcaps64.exe")
}

/// The detour written over `GetWindowDisplayAffinity`: store `WDA_NONE` through the
/// out pointer (when not null) and return TRUE.
pub open spec fn spec_display_affinity_patch() -> Seq<u8> {
    seq![
        0x48u8, 0x85u8, 0xD2u8, 0x74u8, 0x06u8, 0xC7u8, 0x02u8, 0x00u8, 0x00u8, 0x00u8, 0x00u8,
        0xB8u8, 0x01u8, 0x00u8, 0x00u8, 0x00u8, 0xC3u8,
    ]
}

/// The detour written over `Module32FirstW`: return FALSE.
pub open spec fn spec_module_walk_patch() -> Seq<u8> {
    seq![0x31u8, 0xC0u8, 0xC3u8]
}

pub fn display_affinity_patch() -> (v: Vec<u8>)
    ensures
        v@ == spec_display_affinity_patch(),
{
    let v = vec![
        0x48u8, 0x85u8, 0xD2u8, 0x74u8, 0x06u8, 0xC7u8, 0x02u8, 0x00u8, 0x00u8, 0x00u8, 0x00u8,
        0xB8u8, 0x01u8, 0x00u8, 0x00u8, 0x00u8, 0xC3u8,
    ];
    assert(v@ =~= spec_display_affinity_patch());
    v
}

pub fn module_walk_patch() -> (v: Vec<u8>)
    ensures
        v@ == spec_module_walk_patch(),
{
    let v = vec![0x31u8, 0xC0u8, 0xC3u8];
    assert(v@ =~= spec_module_walk_patch());
    v
}

/// The patch is already in place: the first `probe_len` bytes at the target were read in
/// full and equal the patch's first bytes.
pub open spec fn spec_patch_present(current: Seq<u8>, bytes_read: usize, patch: Seq<u8>, probe_len: usize) -> bool {
    &&& bytes_read == probe_len
    &&& probe_len <= current.len()
    &&& probe_len <= patch.len()
    &&& current.subrange(0, probe_len as int) == patch.subrange(0, probe_len as int)
}

/// Compares the bytes read from the target with the start of the patch.
pub fn patch_present(current: &Vec<u8>, bytes_read: usize, patch: &Vec<u8>, probe_len: usize) -> (b: bool)
    ensures
        b == spec_patch_present(current@, bytes_read, patch@, probe_len),
{
    if bytes_read != probe_len || probe_len > current.len() || probe_len > patch.len() {
        return false;
    }
    let mut i: usize = 0;
    while i < probe_len
        invariant
            i <= probe_len,
            probe_len <= current.len(),
            probe_len <= patch.len(),
            forall|k: int| 0 <= k < i ==> current@[k] == patch@[k],
        decreases probe_len - i,
    {
        if current[i] != patch[i] {
            assert(current@.subrange(0, probe_len as int)[i as int] != patch@.subrange(
                0,
                probe_len as int,
            )[i as int]);
            return false;
        }
        i = i + 1;
    }
    assert(current@.subrange(0, probe_len as int) =~= patch@.subrange(0, probe_len as int));
    true
}

/// What happened to one patch site of one process.
pub enum PatchOutcome {
    /// The function's address in the target could not be resolved (the reason).
    Unresolved(String),
    /// The patch was found in place already.
    AlreadyPresent,
    /// The patch was written.
    Written,
    /// Writing failed (the system error code).
    WriteFailed(u32),
}

/// What happened to one NVIDIA process.
pub struct ProcessPatchReport {
    pub pid: u32,
    pub exe_name: String,
    /// `Some(code)` when the process could not be opened; the sites are then not tried.
    pub open_error: Option<u32>,
    pub display_affinity: PatchOutcome,
    pub module_walk: PatchOutcome,
}

/// `"{exe} (PID {pid}): "`
pub open spec fn report_prefix(r: ProcessPatchReport) -> Seq<char> {
    r.exe_name@ + " (PID "@ + decimal(r.pid as nat) + "): "@
}

/// The errors one process contributes, in order.
pub open spec fn process_errors(r: ProcessPatchReport) -> Seq<Seq<char>> {
    match r.open_error {
        Some(code) => seq![report_prefix(r) + "OpenProcess failed (error "@ + decimal(code as nat) + ")"@],
        None => {
            let first: Seq<Seq<char>> = match r.display_affinity {
                PatchOutcome::Unresolved(e) => seq![report_prefix(r) + "GWDA address resolution failed: "@ + e@],
                PatchOutcome::WriteFailed(code) => seq![report_prefix(r) + "WriteProcessMemory for GWDA failed (error "@ + decimal(code as nat) + ")"@],
                _ => Seq::empty(),
            };
            let second: Seq<Seq<char>> = match r.module_walk {
                PatchOutcome::Unresolved(e) => seq![report_prefix(r) + "M32F address resolution: "@ + e@],
                PatchOutcome::WriteFailed(code) => seq![report_prefix(r) + "WriteProcessMemory for M32F failed (error "@ + decimal(code as nat) + ")"@],
                _ => Seq::empty(),
            };
            first + second
        },
    }
}

/// The process counts as patched: it was opened and the display-affinity site carries the patch.
pub open spec fn process_patched(r: ProcessPatchReport) -> bool {
    r.open_error is None && (r.display_affinity is AlreadyPresent || r.display_affinity is Written)
}

/// The errors of all processes, in order.
pub open spec fn all_process_errors(rs: Seq<ProcessPatchReport>) -> Seq<Seq<char>>
    decreases rs.len(),
{
    if rs.len() == 0 {
        Seq::empty()
    } else {
        all_process_errors(rs.drop_last()) + process_errors(rs.last())
    }
}

/// The number of patched processes.
pub open spec fn patched_count(rs: Seq<ProcessPatchReport>) -> nat
    decreases rs.len(),
{
    if rs.len() == 0 {
        0
    } else {
        patched_count(rs.drop_last()) + if process_patched(rs.last()) {
            1nat
        } else {
            0nat
        }
    }
}

/// The outcome at a resolved site: the patch found in place, else the write made and
/// whether it succeeded (with the system error code when it did not).
pub open spec fn spec_site_outcome(present: bool, write_ok: bool, error_code: u32) -> PatchOutcome {
    if present {
        PatchOutcome::AlreadyPresent
    } else if write_ok {
        PatchOutcome::Written
    } else {
        PatchOutcome::WriteFailed(error_code)
    }
}

/// The outcome at a resolved site. A write is made only when the patch is not present,
/// so `write_ok` and `error_code` are only consulted then.
pub fn site_outcome(present: bool, write_ok: bool, error_code: u32) -> (r: PatchOutcome)
    ensures
        r == spec_site_outcome(present, write_ok, error_code),
{
    if present {
        PatchOutcome::AlreadyPresent
    } else if write_ok {
        PatchOutcome::Written
    } else {
        PatchOutcome::WriteFailed(error_code)
    }
}

/// One pass over a resolved patch site whose bytes are `mem`: the first `probe_len` bytes are
/// read in full; the outcome, and the site's bytes afterwards (the patch over its start when
/// it was written).
pub open spec fn site_pass(mem: Seq<u8>, patch: Seq<u8>, probe_len: usize, write_ok: bool, error_code: u32) -> (PatchOutcome, Seq<u8>) {
    let present = spec_patch_present(mem.take(probe_len as int), probe_len, patch, probe_len);
    (
        spec_site_outcome(present, write_ok, error_code),
        if !present && write_ok {
            patch + mem.skip(patch.len() as int)
        } else {
            mem
        },
    )
}

/// Once a pass has left the patch at a site (written or found), a second pass finds it
/// in place: it writes nothing and leaves the bytes as they are.
pub proof fn law_second_patch_pass_writes_nothing(
    mem: Seq<u8>,
    patch: Seq<u8>,
    probe_len: usize,
    first_ok: bool,
    first_code: u32,
    second_ok: bool,
    second_code: u32,
)
    requires
        probe_len <= patch.len() <= mem.len(),
        site_pass(mem, patch, probe_len, first_ok, first_code).0 is AlreadyPresent
            || site_pass(mem, patch, probe_len, first_ok, first_code).0 is Written,
    ensures
        ({
            let after = site_pass(mem, patch, probe_len, first_ok, first_code).1;
            site_pass(after, patch, probe_len, second_ok, second_code) == (PatchOutcome::AlreadyPresent, after)
        }),
{
    let after = site_pass(mem, patch, probe_len, first_ok, first_code).1;
    let present = spec_patch_present(mem.take(probe_len as int), probe_len, patch, probe_len);
    if !present {
        assert(after.take(probe_len as int) =~= patch.take(probe_len as int));
    }
    assert(after.take(probe_len as int).subrange(0, probe_len as int) =~= after.take(probe_len as int));
    assert(patch.subrange(0, probe_len as int) =~= patch.take(probe_len as int));
}

/// When every NVIDIA process opens and both of its sites already carry the patch (as after
/// a successful pass), the pass reports every process as patched and no error.
pub proof fn law_patched_processes_all_counted(rs: Seq<ProcessPatchReport>)
    requires
        forall|i: int|
            0 <= i < rs.len() ==> (#[trigger] rs[i]).open_error is None && rs[i].display_affinity is AlreadyPresent
                && rs[i].module_walk is AlreadyPresent,
    ensures
        patched_count(rs) == rs.len(),
        all_process_errors(rs).len() == 0,
    decreases rs.len(),
{
    if rs.len() > 0 {
        let p = rs.drop_last();
        assert forall|i: int| 0 <= i < p.len() implies (#[trigger] p[i]).open_error is None
            && p[i].display_affinity is AlreadyPresent && p[i].module_walk is AlreadyPresent by {
            assert(p[i] == rs[i]);
        }
        law_patched_processes_all_counted(p);
        assert(rs.last() == rs[rs.len() - 1]);
        assert(process_errors(rs.last()) =~= Seq::<Seq<char>>::empty());
    }
}

/// One NVIDIA process as a pass over it sees it: pid, executable name, and the bytes at
/// its two patch sites (`GetWindowDisplayAffinity`, `Module32FirstW`).
pub type ProcessSites = (u32, String, Seq<u8>, Seq<u8>);

/// Whether each of a process's two writes, if made, succeeds, with the error codes of failures.
pub type SiteWrites = (bool, u32, bool, u32);

/// One pass over a process that opens and whose two sites resolve: its report, and the
/// process afterwards. Only the two sites can change, each as `site_pass` says (the first
/// three bytes of the display-affinity site and the first two of the module-walk site
/// are compared with the patch).
pub open spec fn process_pass(p: ProcessSites, w: SiteWrites) -> (ProcessPatchReport, ProcessSites) {
    let g = site_pass(p.2, spec_display_affinity_patch(), 3, w.0, w.1);
    let m = site_pass(p.3, spec_module_walk_patch(), 2, w.2, w.3);
    (
        ProcessPatchReport { pid: p.0, exe_name: p.1, open_error: None, display_affinity: g.0, module_walk: m.0 },
        (p.0, p.1, g.1, m.1),
    )
}

/// The reports of a pass over the processes `ps`.
pub open spec fn drm_pass_reports(ps: Seq<ProcessSites>, ws: Seq<SiteWrites>) -> Seq<ProcessPatchReport> {
    Seq::new(ps.len(), |i: int| process_pass(ps[i], ws[i]).0)
}

/// The processes after a pass over `ps`.
pub open spec fn drm_pass_after(ps: Seq<ProcessSites>, ws: Seq<SiteWrites>) -> Seq<ProcessSites> {
    Seq::new(ps.len(), |i: int| process_pass(ps[i], ws[i]).1)
}

proof fn lemma_all_patched_counted(rs: Seq<ProcessPatchReport>)
    requires
        forall|i: int| 0 <= i < rs.len() ==> process_patched(#[trigger] rs[i]),
    ensures
        patched_count(rs) == rs.len(),
    decreases rs.len(),
{
    if rs.len() > 0 {
        let p = rs.drop_last();
        assert forall|i: int| 0 <= i < p.len() implies process_patched(#[trigger] p[i]) by {
            assert(p[i] == rs[i]);
        }
        lemma_all_patched_counted(p);
        assert(process_patched(rs[rs.len() - 1]));
    }
}

/// A second DRM patch pass is a no-op: after a pass in which no write failed (every process
/// opened and both sites resolved), a second pass finds the patch in place at both sites of
/// every process, writes nothing, reports no error, and counts every process as patched,
/// as the first pass did.
pub proof fn law_second_drm_pass_is_a_no_op(ps: Seq<ProcessSites>, first: Seq<SiteWrites>, second: Seq<SiteWrites>)
    requires
        first.len() == ps.len(),
        second.len() == ps.len(),
        forall|i: int|
            0 <= i < ps.len() ==> (#[trigger] ps[i]).2.len() >= spec_display_affinity_patch().len()
                && ps[i].3.len() >= spec_module_walk_patch().len(),
        forall|i: int|
            0 <= i < ps.len() ==> !((#[trigger] drm_pass_reports(ps, first)[i]).display_affinity is WriteFailed)
                && !(drm_pass_reports(ps, first)[i].module_walk is WriteFailed),
    ensures
        ({
            let after = drm_pass_after(ps, first);
            let again = drm_pass_reports(after, second);
            &&& forall|i: int|
                0 <= i < ps.len() ==> (#[trigger] again[i]).display_affinity is AlreadyPresent
                    && again[i].module_walk is AlreadyPresent
            &&& drm_pass_after(after, second) == after
            &&& all_process_errors(again).len() == 0
            &&& patched_count(again) == ps.len()
            &&& patched_count(drm_pass_reports(ps, first)) == ps.len()
        }),
{
    let r1 = drm_pass_reports(ps, first);
    let after = drm_pass_after(ps, first);
    let again = drm_pass_reports(after, second);
    assert(spec_display_affinity_patch().len() == 17);
    assert(spec_module_walk_patch().len() == 3);
    assert forall|i: int| 0 <= i < ps.len() implies (#[trigger] again[i]).display_affinity is AlreadyPresent
        && again[i].module_walk is AlreadyPresent && process_pass(after[i], second[i]).1 == after[i]
        && process_patched(r1[i]) by {
        let p = ps[i];
        assert(r1[i] == process_pass(p, first[i]).0);
        assert(after[i] == process_pass(p, first[i]).1);
        assert(again[i] == process_pass(after[i], second[i]).0);
        law_second_patch_pass_writes_nothing(p.2, spec_display_affinity_patch(), 3, first[i].0, first[i].1, second[i].0, second[i].1);
        law_second_patch_pass_writes_nothing(p.3, spec_module_walk_patch(), 2, first[i].2, first[i].3, second[i].2, second[i].3);
    }
    assert forall|i: int| 0 <= i < after.len() implies #[trigger] drm_pass_after(after, second)[i] == after[i] by {
        assert(drm_pass_after(after, second)[i] == process_pass(after[i], second[i]).1);
        assert(again[i].display_affinity is AlreadyPresent);
    }
    assert(drm_pass_after(after, second) =~= after);
    law_patched_processes_all_counted(again);
    lemma_all_patched_counted(r1);
}

fn prefix_of(r: &ProcessPatchReport) -> (s: String)
    ensures
        s@ == report_prefix(*r),
{
    let mut s = r.exe_name.clone();
    s.append(" (PID ");
    s.append(format_u64(r.pid as u64).as_str());
    s.append("): ");
    s
}

fn push_site_error(errs: &mut Vec<String>, prefix: &String, site: &PatchOutcome, gwda: bool)
    ensures
        views_of(final(errs)@) == views_of(old(errs)@) + (if gwda {
            match *site {
                PatchOutcome::Unresolved(e) => seq![prefix@ + "GWDA address resolution failed: "@ + e@],
                PatchOutcome::WriteFailed(code) => seq![prefix@ + "WriteProcessMemory for GWDA failed (error "@ + decimal(code as nat) + ")"@],
                _ => Seq::<Seq<char>>::empty(),
            }
        } else {
            match *site {
                PatchOutcome::Unresolved(e) => seq![prefix@ + "M32F address resolution: "@ + e@],
                PatchOutcome::WriteFailed(code) => seq![prefix@ + "WriteProcessMemory for M32F failed (error "@ + decimal(code as nat) + ")"@],
                _ => Seq::<Seq<char>>::empty(),
            }
        }),
{
    let ghost before = views_of(errs@);
    match site {
        PatchOutcome::Unresolved(e) => {
            let mut m = prefix.clone();
            if gwda {
                m.append("GWDA address resolution failed: ");
            } else {
                m.append("M32F address resolution: ");
            }
            m.append(e.as_str());
            errs.push(m);
        },
        PatchOutcome::WriteFailed(code) => {
            let mut m = prefix.clone();
            if gwda {
                m.append("WriteProcessMemory for GWDA failed (error ");
            } else {
                m.append("WriteProcessMemory for M32F failed (error ");
            }
            m.append(format_u64(*code as u64).as_str());
            m.append(")");
            errs.push(m);
        },
        _ => {},
    }
    assert(views_of(errs@) =~= before + (if gwda {
        match *site {
            PatchOutcome::Unresolved(e) => seq![prefix@ + "GWDA address resolution failed: "@ + e@],
            PatchOutcome::WriteFailed(code) => seq![prefix@ + "WriteProcessMemory for GWDA failed (error "@ + decimal(code as nat) + ")"@],
            _ => Seq::<Seq<char>>::empty(),
        }
    } else {
        match *site {
            PatchOutcome::Unresolved(e) => seq![prefix@ + "M32F address resolution: "@ + e@],
            PatchOutcome::WriteFailed(code) => seq![prefix@ + "WriteProcessMemory for M32F failed (error "@ + decimal(code as nat) + ")"@],
            _ => Seq::<Seq<char>>::empty(),
        }
    }));
}

/// The result of the DRM patch layer over the NVIDIA processes found: how many carry the
/// patch and the errors met, in order. With no process found, the only error says so.
pub fn summarize_drm_patch(reports: &Vec<ProcessPatchReport>) -> (r: (usize, Vec<String>))
    ensures
        reports.len() == 0 ==> r.0 == 0 && views_of(r.1@) == seq![
            "No NVIDIA capture processes found running"@,
        ],
        reports.len() > 0 ==> r.0 == patched_count(reports@) && views_of(r.1@) == all_process_errors(
            reports@,
        ),
{
    let mut errs: Vec<String> = Vec::new();
    if reports.len() == 0 {
        errs.push(String::from_str("No NVIDIA capture processes found running"));
        assert(views_of(errs@) =~= seq!["No NVIDIA capture processes found running"@]);
        return (0, errs);
    }
    let mut count: usize = 0;
    let mut i: usize = 0;
    assert(views_of(errs@) =~= all_process_errors(reports@.subrange(0, 0)));
    while i < reports.len()
        invariant
            i <= reports.len(),
            count <= i,
            count == patched_count(reports@.subrange(0, i as int)),
            views_of(errs@) == all_process_errors(reports@.subrange(0, i as int)),
        decreases reports.len() - i,
    {
        let r = &reports[i];
        let ghost before = views_of(errs@);
        proof {
            assert(reports@.subrange(0, i + 1).drop_last() =~= reports@.subrange(0, i as int));
            assert(reports@.subrange(0, i + 1).last() == *r);
        }
        let prefix = prefix_of(r);
        match r.open_error {
            Some(code) => {
                let mut m = prefix.clone();
                m.append("OpenProcess failed (error ");
                m.append(format_u64(code as u64).as_str());
                m.append(")");
                errs.push(m);
                assert(views_of(errs@) =~= before + process_errors(*r));
            },
            None => {
                push_site_error(&mut errs, &prefix, &r.display_affinity, true);
                push_site_error(&mut errs, &prefix, &r.module_walk, false);
                assert(views_of(errs@) =~= before + process_errors(*r));
                match r.display_affinity {
                    PatchOutcome::AlreadyPresent => {
                        count = count + 1;
                    },
                    PatchOutcome::Written => {
                        count = count + 1;
                    },
                    _ => {},
                }
            },
        }
        i = i + 1;
    }
    assert(reports@.subrange(0, reports.len() as int) =~= reports@);
    (count, errs)
}

// ---------------------------------------------------------------------------
// Layers 2 and 3: registry switches
// ---------------------------------------------------------------------------

/// The statuses of one registry write: opening (creating) the key, then setting the value
/// (the latter only meaningful when the key opened).
pub struct RegistryWrite {
    pub open_status: i32,
    pub set_status: i32,
}

/// The messages of the failed writes, in order.
pub open spec fn failed_messages(rs: Seq<Result<(), Seq<char>>>) -> Seq<Seq<char>>
    decreases rs.len(),
{
    if rs.len() == 0 {
        Seq::empty()
    } else {
        failed_messages(rs.drop_last()) + match rs.last() {
            Ok(()) => Seq::<Seq<char>>::empty(),
            Err(e) => seq![e],
        }
    }
}

/// A layer's report: applied when some write succeeded; the failures joined by `"; "`,
/// or no error when none failed.
pub open spec fn spec_layer_report(rs: Seq<Result<(), Seq<char>>>) -> (bool, Option<Seq<char>>) {
    let msgs = failed_messages(rs);
    (exists|i: int| 0 <= i < rs.len() && rs[i] is Ok, if msgs.len() == 0 {
        None
    } else {
        Some(join(msgs, "; "@))
    })
}

/// The views of a sequence of results.
pub open spec fn results_view(rs: Seq<Result<(), String>>) -> Seq<Result<(), Seq<char>>> {
    Seq::new(rs.len(), |i: int| result_view(rs[i]))
}

/// Combines the writes of one layer into its report.
pub fn layer_report(results: &Vec<Result<(), String>>) -> (r: (bool, Option<String>))
    ensures
        r.0 == spec_layer_report(results_view(results@)).0,
        match r.1 {
            Some(e) => spec_layer_report(results_view(results@)).1 == Some(e@),
            None => spec_layer_report(results_view(results@)).1 is None,
        },
{
    let ghost rv = results_view(results@);
    let mut any_ok = false;
    let mut msgs: Vec<String> = Vec::new();
    let mut i: usize = 0;
    assert(views_of(msgs@) =~= failed_messages(rv.subrange(0, 0)));
    while i < results.len()
        invariant
            i <= results.len(),
            rv == results_view(results@),
            any_ok == exists|k: int| 0 <= k < i && rv[k] is Ok,
            views_of(msgs@) == failed_messages(rv.subrange(0, i as int)),
        decreases results.len() - i,
    {
        let ghost before = views_of(msgs@);
        proof {
            assert(rv.subrange(0, i + 1).drop_last() =~= rv.subrange(0, i as int));
            assert(rv.subrange(0, i + 1).last() == rv[i as int]);
            assert(rv[i as int] == result_view(results@[i as int]));
        }
        match &results[i] {
            Ok(()) => {
                any_ok = true;
                assert(views_of(msgs@) =~= before + Seq::<Seq<char>>::empty());
            },
            Err(e) => {
                msgs.push(e.clone());
                assert(views_of(msgs@) =~= before + seq![e@]);
            },
        }
        i = i + 1;
    }
    assert(rv.subrange(0, results.len() as int) =~= rv);
    let err = if msgs.len() == 0 {
        None
    } else {
        Some(join_strings(&msgs, "; "))
    };
    (any_ok, err)
}

fn write_result(w: &RegistryWrite, set_failed: &str, open_failed: &str, open_suffix: &str) -> (r: Result<(), String>)
    ensures
        result_view(r) == (if w.open_status != 0 {
            Err(open_failed@ + signed_decimal(w.open_status as int) + open_suffix@)
        } else if w.set_status != 0 {
            Err(set_failed@ + signed_decimal(w.set_status as int))
        } else {
            Ok(())
        }),
{
    if w.open_status != 0 {
        let mut m = String::from_str(open_failed);
        m.append(format_i64(w.open_status as i64).as_str());
        m.append(open_suffix);
        Err(m)
    } else if w.set_status != 0 {
        let mut m = String::from_str(set_failed);
        m.append(format_i64(w.set_status as i64).as_str());
        Err(m)
    } else {
        Ok(())
    }
}

/// The outcome of one write, with the messages the MPO and NvFBC layers use.
pub open spec fn write_outcome(w: RegistryWrite, set_failed: Seq<char>, open_failed: Seq<char>, open_suffix: Seq<char>) -> Result<(), Seq<char>> {
    if w.open_status != 0 {
        Err(open_failed + signed_decimal(w.open_status as int) + open_suffix)
    } else if w.set_status != 0 {
        Err(set_failed + signed_decimal(w.set_status as int))
    } else {
        Ok(())
    }
}

/// Layer 2 (MPO fix): `OverlayTestMode = 5` under the DWM key, then
/// `DisableOverlays = 1` under the graphics drivers key.
pub fn apply_mpo_and_overlay_fix(dwm: &RegistryWrite, graphics: &RegistryWrite) -> (r: (bool, Option<String>))
    ensures
        ({
            let spec = spec_layer_report(
                seq![
                    write_outcome(*dwm, "OverlayTestMode set failed: error "@, "DWM registry open failed: error "@, " (need admin)"@),
                    write_outcome(*graphics, "DisableOverlays set failed: error "@, "GraphicsDrivers registry open failed: error "@, ""@),
                ],
            );
            &&& r.0 == spec.0
            &&& match r.1 {
                Some(e) => spec.1 == Some(e@),
                None => spec.1 is None,
            }
        }),
{
    let mut results: Vec<Result<(), String>> = Vec::new();
    results.push(write_result(dwm, "OverlayTestMode set failed: error ", "DWM registry open failed: error ", " (need admin)"));
    results.push(write_result(graphics, "DisableOverlays set failed: error ", "GraphicsDrivers registry open failed: error ", ""));
    proof {
        assert(results_view(results@) =~= seq![
            write_outcome(*dwm, "OverlayTestMode set failed: error "@, "DWM registry open failed: error "@, " (need admin)"@),
            write_outcome(*graphics, "DisableOverlays set failed: error "@, "GraphicsDrivers registry open failed: error "@, ""@),
        ]);
    }
    layer_report(&results)
}

/// Layer 3 (NvFBC off): `EnableRID73779 = 0` under the driver's FTS key, then
/// `EnableDesktopCapture = 0` under the NvFBC key.
pub fn disable_nvfbc_capture(fts: &RegistryWrite, nvfbc: &RegistryWrite) -> (r: (bool, Option<String>))
    ensures
        ({
            let spec = spec_layer_report(
                seq![
                    write_outcome(*fts, "SYSTEM\\CurrentControlSet\\Services\\nvlddmkm\\FTS\\EnableRID73779 set failed: error "@, "SYSTEM\\CurrentControlSet\\Services\\nvlddmkm\\FTS open failed: error "@, " (may not exist on this driver)"@),
                    write_outcome(*nvfbc, "SOFTWARE\\NVIDIA Corporation\\Global\\NvFBC\\EnableDesktopCapture set failed: error "@, "SOFTWARE\\NVIDIA Corporation\\Global\\NvFBC open failed: error "@, " (may not exist on this driver)"@),
                ],
            );
            &&& r.0 == spec.0
            &&& match r.1 {
                Some(e) => spec.1 == Some(e@),
                None => spec.1 is None,
            }
        }),
{
    let mut results: Vec<Result<(), String>> = Vec::new();
    results.push(write_result(fts, "SYSTEM\\CurrentControlSet\\Services\\nvlddmkm\\FTS\\EnableRID73779 set failed: error ", "SYSTEM\\CurrentControlSet\\Services\\nvlddmkm\\FTS open failed: error ", " (may not exist on this driver)"));
    results.push(write_result(nvfbc, "SOFTWARE\\NVIDIA Corporation\\Global\\NvFBC\\EnableDesktopCapture set failed: error ", "SOFTWARE\\NVIDIA Corporation\\Global\\NvFBC open failed: error ", " (may not exist on this driver)"));
    proof {
        assert(results_view(results@) =~= seq![
            write_outcome(*fts, "SYSTEM\\CurrentControlSet\\Services\\nvlddmkm\\FTS\\EnableRID73779 set failed: error "@, "SYSTEM\\CurrentControlSet\\Services\\nvlddmkm\\FTS open failed: error "@, " (may not exist on this driver)"@),
            write_outcome(*nvfbc, "SOFTWARE\\NVIDIA Corporation\\Global\\NvFBC\\EnableDesktopCapture set failed: error "@, "SOFTWARE\\NVIDIA Corporation\\Global\\NvFBC open failed: error "@, " (may not exist on this driver)"@),
        ]);
    }
    layer_report(&results)
}

/// A layer whose writes all succeed reports itself applied with no error; one whose
/// writes all fail reports itself not applied.
pub proof fn law_layer_report_all_ok_or_all_failed(rs: Seq<Result<(), Seq<char>>>)
    ensures
        (forall|i: int| 0 <= i < rs.len() ==> rs[i] is Ok) ==> spec_layer_report(rs).1 is None,
        (rs.len() > 0 && forall|i: int| 0 <= i < rs.len() ==> rs[i] is Ok) ==> spec_layer_report(rs).0,
        (forall|i: int| 0 <= i < rs.len() ==> rs[i] is Err) ==> !spec_layer_report(rs).0,
    decreases rs.len(),
{
    if rs.len() > 0 {
        law_layer_report_all_ok_or_all_failed(rs.drop_last());
        assert forall|i: int| 0 <= i < rs.drop_last().len() implies rs.drop_last()[i] == rs[i] by {}
        if forall|i: int| 0 <= i < rs.len() ==> rs[i] is Ok {
            assert(rs.last() is Ok);
            assert(failed_messages(rs.drop_last()).len() == 0);
            assert(failed_messages(rs).len() == 0);
            assert(rs[0] is Ok);
        }
    }
}

} // verus!
