//! Which top-level windows the application lists, in which order, and which of them
//! have to be shielded again.
use vstd::prelude::*;
use crate::text::{lowercase, to_lowercase, lowercase_chars, chars_of, str_eq, lex_le, chars_lex_le, lemma_lex_total, lemma_lex_transitive, eq_ignoring_ascii_case, chars_eq_ignore_ascii_case};
use crate::audio_bridge::{AudioShieldState, exclude_process_audio, is_audio_shielded, spec_is_audio_shielded};
use crate::exe_set::{ExeSet, views_of, lemma_push_to_set};

verus! {

/// One row of the window list shown to the user.
pub struct WindowInfo {
    pub hwnd: usize,
    pub pid: u32,
    pub title: String,
    pub exe_name: String,
    pub is_shielded: bool,
    pub is_audio_shielded: bool,
    pub icon_base64: Option<String>,
}

/// What the desktop enumeration reports of one visible, titled top-level window:
/// its handle, owning process, trimmed title and executable file name; and, for a window
/// that is listed, whether its display affinity excluded it from capture when read
/// (`live_shielded`), the same read again after its shield was reapplied
/// (`live_after_reshield`, only consulted for a window whose shield is reapplied), and its icon.
pub struct WindowCandidate {
    pub hwnd: usize,
    pub pid: u32,
    pub title: String,
    pub exe_name: String,
    pub live_shielded: bool,
    pub live_after_reshield: bool,
    pub icon_base64: Option<String>,
}

// ---------------------------------------------------------------------------
// Window style filter (the checks made while walking the desktop's windows)
// ---------------------------------------------------------------------------

/// `WS_EX_TOOLWINDOW`
pub const WS_EX_TOOLWINDOW: u32 = 0x0000_0080;

/// `WS_VISIBLE`
pub const WS_VISIBLE: u32 = 0x1000_0000;

/// `DWM_CLOAKED_APP | DWM_CLOAKED_SHELL | DWM_CLOAKED_INHERITED`
pub const DWM_CLOAKED_ANY: u32 = 0x0000_0007;

/// A window is worth looking at when it is visible, has a title, is no tool window,
/// carries the visible style and is not cloaked (a cloak query that failed counts as not cloaked).
pub open spec fn spec_is_listable_window(
    visible: bool,
    title_len: int,
    ex_style: u32,
    style: u32,
    cloak_query_ok: bool,
    cloaked: u32,
) -> bool {
    &&& visible
    &&& title_len != 0
    &&& ex_style & WS_EX_TOOLWINDOW == 0
    &&& style & WS_VISIBLE != 0
    &&& !(cloak_query_ok && cloaked & DWM_CLOAKED_ANY != 0)
}

/// The filter applied to each window handle while walking the desktop.
pub fn is_listable_window(
    visible: bool,
    title_len: i32,
    ex_style: u32,
    style: u32,
    cloak_query_ok: bool,
    cloaked: u32,
) -> (r: bool)
    ensures
        r == spec_is_listable_window(visible, title_len as int, ex_style, style, cloak_query_ok, cloaked),
{
    visible && title_len != 0 && (ex_style & WS_EX_TOOLWINDOW) == 0 && (style & WS_VISIBLE) != 0
        && !(cloak_query_ok && (cloaked & DWM_CLOAKED_ANY) != 0)
}

// ---------------------------------------------------------------------------
// Which candidates are listed
// ---------------------------------------------------------------------------

/// System processes that are never listed (compared in lowercase).
pub open spec fn is_hidden_system_process(lower_exe: Seq<char>) -> bool {
    ||| lower_exe == "textinputhost.exe"@
    ||| lower_exe == "shellexperiencehost.exe"@
    ||| lower_exe == "startmenuexperiencehost.exe"@
    ||| lower_exe == "searchhost.exe"@
    ||| lower_exe == "searchapp.exe"@
    ||| lower_exe == "systemsettings.exe"@
    ||| lower_exe == "lockapp.exe"@
    ||| lower_exe == "dwm.exe"@
    ||| lower_exe == "csrss.exe"@
    ||| lower_exe == "conhost.exe"@
    ||| lower_exe == "svchost.exe"@
    ||| lower_exe == "streamshield.exe"@
    ||| lower_exe == "taskmgr.exe"@
}

fn hidden_system_process(lower_exe: &str) -> (r: bool)
    ensures
        r == is_hidden_system_process(lower_exe@),
{
    str_eq(lower_exe, "textinputhost.exe") || str_eq(lower_exe, "shellexperiencehost.exe")
        || str_eq(lower_exe, "startmenuexperiencehost.exe") || str_eq(lower_exe, "searchhost.exe")
        || str_eq(lower_exe, "searchapp.exe") || str_eq(lower_exe, "systemsettings.exe") || str_eq(
        lower_exe,
        "lockapp.exe",
    ) || str_eq(lower_exe, "dwm.exe") || str_eq(lower_exe, "csrss.exe") || str_eq(
        lower_exe,
        "conhost.exe",
    ) || str_eq(lower_exe, "svchost.exe") || str_eq(lower_exe, "streamshield.exe") || str_eq(
        lower_exe,
        "taskmgr.exe",
    )
}

/// The checks a single candidate must pass to be listed (before duplicates are dropped).
pub open spec fn passes_listing_filters(c: WindowCandidate) -> bool {
    let low = lowercase(c.exe_name@);
    &&& c.title@.len() != 0
    &&& c.title@ != "Program Manager"@
    &&& c.pid != 0
    &&& !is_hidden_system_process(low)
    &&& !(low == "applicationframehost.exe"@ && (c.title@.len() == 0 || c.title@
        == "ApplicationFrameHost"@))
}

/// The lowercase executable names of the candidates before position `i` that pass the filters.
pub open spec fn earlier_listed_names(cands: Seq<WindowCandidate>, i: int) -> Set<Seq<char>> {
    Set::new(
        |s: Seq<char>|
            exists|j: int|
                0 <= j < i && passes_listing_filters(#[trigger] cands[j]) && lowercase(
                    cands[j].exe_name@,
                ) == s,
    )
}

/// Candidate `i` is listed: it passes the filters and no earlier candidate that passes
/// them has the same executable name (ignoring case); one row per executable.
pub open spec fn is_listed(cands: Seq<WindowCandidate>, i: int) -> bool {
    &&& passes_listing_filters(cands[i])
    &&& !earlier_listed_names(cands, i).contains(lowercase(cands[i].exe_name@))
}

/// The positions of the listed candidates among the first `n`, in increasing order.
pub open spec fn listed_upto(cands: Seq<WindowCandidate>, n: int) -> Seq<int>
    decreases n,
{
    if n <= 0 {
        Seq::empty()
    } else if is_listed(cands, n - 1) {
        listed_upto(cands, n - 1).push(n - 1)
    } else {
        listed_upto(cands, n - 1)
    }
}

proof fn lemma_listed_upto_bounds(cands: Seq<WindowCandidate>, n: int)
    ensures
        forall|j: int| 0 <= j < listed_upto(cands, n).len() ==> 0 <= #[trigger] listed_upto(cands, n)[j] < n
            && is_listed(cands, listed_upto(cands, n)[j]),
        forall|a: int, b: int|
            0 <= a < b < listed_upto(cands, n).len() ==> listed_upto(cands, n)[a] < listed_upto(cands, n)[b],
    decreases n,
{
    if n > 0 {
        lemma_listed_upto_bounds(cands, n - 1);
        let prev = listed_upto(cands, n - 1);
        let cur = listed_upto(cands, n);
        assert forall|j: int| 0 <= j < cur.len() implies 0 <= #[trigger] cur[j] < n && is_listed(cands, cur[j]) by {
            if j < prev.len() {
                assert(cur[j] == prev[j]);
            }
        }
        assert forall|a: int, b: int| 0 <= a < b < cur.len() implies cur[a] < cur[b] by {
            assert(cur[a] == prev[a]);
            if b < prev.len() {
                assert(cur[b] == prev[b]);
            }
        }
    }
}

fn passes_filters(c: &WindowCandidate, lower: &String) -> (r: bool)
    requires
        lower@ == lowercase(c.exe_name@),
    ensures
        r == passes_listing_filters(*c),
{
    let title = c.title.as_str();
    if title.is_empty() || str_eq(title, "Program Manager") {
        return false;
    }
    if c.pid == 0 {
        return false;
    }
    if hidden_system_process(lower.as_str()) {
        return false;
    }
    if str_eq(lower.as_str(), "applicationframehost.exe") && (title.is_empty() || str_eq(
        title,
        "ApplicationFrameHost",
    )) {
        return false;
    }
    true
}

/// The positions, in increasing order, of the candidates that appear in the window list.
pub fn listed_candidates(candidates: &Vec<WindowCandidate>) -> (listed: Vec<usize>)
    ensures
        listed@.map_values(|x: usize| x as int) == listed_upto(candidates@, candidates.len() as int),
        forall|k: int|
            0 <= k < listed.len() ==> (#[trigger] listed@[k]) < candidates.len() && is_listed(
                candidates@,
                listed@[k] as int,
            ),
        forall|k: int, l: int| 0 <= k < l < listed.len() ==> listed@[k] < listed@[l],
        forall|i: int|
            0 <= i < candidates.len() && is_listed(candidates@, i) ==> listed@.contains(i as usize),
{
    let mut listed: Vec<usize> = Vec::new();
    let mut seen = ExeSet::new();
    let mut i: usize = 0;
    proof {
        assert(earlier_listed_names(candidates@, 0) =~= Set::<Seq<char>>::empty());
    }
    while i < candidates.len()
        invariant
            i <= candidates.len(),
            seen@ == earlier_listed_names(candidates@, i as int),
            listed@.map_values(|x: usize| x as int) == listed_upto(candidates@, i as int),
            forall|k: int|
                0 <= k < listed.len() ==> (#[trigger] listed@[k]) < i && is_listed(
                    candidates@,
                    listed@[k] as int,
                ),
            forall|k: int, l: int| 0 <= k < l < listed.len() ==> listed@[k] < listed@[l],
            forall|j: int| 0 <= j < i && is_listed(candidates@, j) ==> listed@.contains(j as usize),
        decreases candidates.len() - i,
    {
        let c = &candidates[i];
        let lower = to_lowercase(c.exe_name.as_str());
        let pass = passes_filters(c, &lower);
        let ghost next_names = earlier_listed_names(candidates@, i + 1);
        proof {
            let cur = earlier_listed_names(candidates@, i as int);
            if pass {
                assert forall|s: Seq<char>| next_names.contains(s) <==> cur.insert(lower@).contains(
                    s,
                ) by {
                    if next_names.contains(s) {
                        let j = choose|j: int|
                            0 <= j < i + 1 && passes_listing_filters(#[trigger] candidates@[j])
                                && lowercase(candidates@[j].exe_name@) == s;
                        if j < i {
                            assert(cur.contains(s));
                        }
                    }
                    if cur.contains(s) {
                        let j = choose|j: int|
                            0 <= j < i && passes_listing_filters(#[trigger] candidates@[j])
                                && lowercase(candidates@[j].exe_name@) == s;
                        assert(next_names.contains(s));
                    }
                    if s == lower@ {
                        assert(passes_listing_filters(candidates@[i as int]));
                        assert(next_names.contains(s));
                    }
                }
                assert(next_names =~= cur.insert(lower@));
            } else {
                assert forall|s: Seq<char>| next_names.contains(s) <==> cur.contains(s) by {
                    if next_names.contains(s) {
                        let j = choose|j: int|
                            0 <= j < i + 1 && passes_listing_filters(#[trigger] candidates@[j])
                                && lowercase(candidates@[j].exe_name@) == s;
                        assert(j != i);
                        assert(cur.contains(s));
                    }
                    if cur.contains(s) {
                        let j = choose|j: int|
                            0 <= j < i && passes_listing_filters(#[trigger] candidates@[j])
                                && lowercase(candidates@[j].exe_name@) == s;
                        assert(next_names.contains(s));
                    }
                }
                assert(next_names =~= cur);
            }
        }
        let ghost old_listed = listed@;
        let ghost cur_names = seen@;
        if pass {
            let dup = seen.contains(lower.as_str());
            if !dup {
                listed.push(i);
            }
            seen.insert(lower);
        }
        proof {
            assert forall|j: int|
                0 <= j < i + 1 && is_listed(candidates@, j) implies listed@.contains(j as usize) by {
                if j < i {
                    let w = choose|w: int| 0 <= w < old_listed.len() && old_listed[w] == j as usize;
                    assert(listed@[w] == j as usize);
                } else {
                    assert(candidates@[j] == *c);
                    assert(!cur_names.contains(lower@));
                    assert(listed@[listed.len() - 1] == i);
                }
            }
            if pass && !cur_names.contains(lower@) {
                assert(is_listed(candidates@, i as int));
                assert(listed@.map_values(|x: usize| x as int) =~= old_listed.map_values(
                    |x: usize| x as int,
                ).push(i as int));
            } else {
                assert(!is_listed(candidates@, i as int));
                assert(listed@.map_values(|x: usize| x as int) =~= old_listed.map_values(
                    |x: usize| x as int,
                ));
            }
        }
        i = i + 1;
    }
    listed
}

/// The list never shows two rows for the same executable (ignoring case), and never
/// shows one of the hidden system processes.
pub proof fn law_listed_rows_distinct_and_visible(cands: Seq<WindowCandidate>, i: int, j: int)
    requires
        0 <= i < cands.len(),
        0 <= j < cands.len(),
        i != j,
        is_listed(cands, i),
        is_listed(cands, j),
    ensures
        lowercase(cands[i].exe_name@) != lowercase(cands[j].exe_name@),
        !is_hidden_system_process(lowercase(cands[i].exe_name@)),
{
    if i < j {
        assert(earlier_listed_names(cands, j).contains(lowercase(cands[i].exe_name@)));
    } else {
        assert(earlier_listed_names(cands, i).contains(lowercase(cands[j].exe_name@)));
    }
}

/// A listed window never belongs to one of the system processes (compared in lowercase:
/// textinputhost.exe, shellexperiencehost.exe, startmenuexperiencehost.exe, searchhost.exe,
/// searchapp.exe, systemsettings.exe, lockapp.exe, dwm.exe, csrss.exe, conhost.exe,
/// svchost.exe, streamshield.exe, taskmgr.exe), has a process id, a title, and is not
/// the desktop ("Program Manager").
pub proof fn law_system_processes_never_listed(cands: Seq<WindowCandidate>, i: int)
    requires
        0 <= i < cands.len(),
        is_listed(cands, i),
    ensures
        ({
            let low = lowercase(cands[i].exe_name@);
            &&& low != "textinputhost.exe"@
            &&& low != "shellexperiencehost.exe"@
            &&& low != "startmenuexperiencehost.exe"@
            &&& low != "searchhost.exe"@
            &&& low != "searchapp.exe"@
            &&& low != "systemsettings.exe"@
            &&& low != "lockapp.exe"@
            &&& low != "dwm.exe"@
            &&& low != "csrss.exe"@
            &&& low != "conhost.exe"@
            &&& low != "svchost.exe"@
            &&& low != "streamshield.exe"@
            &&& low != "taskmgr.exe"@
        }),
        cands[i].pid != 0,
        cands[i].title@.len() != 0,
        cands[i].title@ != "Program Manager"@,
{
}

/// The label of a process whose executable name could not be read.
pub fn unnamed_process_label(pid: u32) -> (s: String)
    ensures
        s@ == "PID "@ + crate::text::decimal(pid as nat),
{
    let mut s = String::from_str("PID ");
    s.append(crate::text::format_u64(pid as u64).as_str());
    s
}

// ---------------------------------------------------------------------------
// Order of the list: shielded windows first, then by executable name
// ---------------------------------------------------------------------------

/// `a` may come before `b`: a shielded window before an unshielded one, and among equals
/// in that respect, the lowercase executable names in lexicographic order.
pub open spec fn key_le(sa: bool, ka: Seq<char>, sb: bool, kb: Seq<char>) -> bool {
    (sa && !sb) || (sa == sb && lex_le(ka, kb))
}

/// The order of rows in the window list.
pub open spec fn listed_before_or_tied(a: WindowInfo, b: WindowInfo) -> bool {
    key_le(a.is_shielded, lowercase(a.exe_name@), b.is_shielded, lowercase(b.exe_name@))
}

/// `r` is a reordering of `v` by `perm` that keeps rows whose keys tie in the order they came in.
pub open spec fn is_stable_reordering(v: Seq<WindowInfo>, r: Seq<WindowInfo>, perm: Seq<int>) -> bool {
    &&& perm.len() == v.len()
    &&& r.len() == v.len()
    &&& forall|k: int| 0 <= k < r.len() ==> 0 <= #[trigger] perm[k] < v.len() && r[k] == v[perm[k]]
    &&& forall|k: int, l: int| 0 <= k < l < r.len() ==> perm[k] != perm[l]
    &&& forall|k: int, l: int|
        0 <= k < l < r.len() && listed_before_or_tied(r[l], r[k]) ==> perm[k] < perm[l]
}

proof fn lemma_key_total(sa: bool, ka: Seq<char>, sb: bool, kb: Seq<char>)
    ensures
        key_le(sa, ka, sb, kb) || key_le(sb, kb, sa, ka),
{
    lemma_lex_total(ka, kb);
}

proof fn lemma_key_transitive(
    sa: bool,
    ka: Seq<char>,
    sb: bool,
    kb: Seq<char>,
    sc: bool,
    kc: Seq<char>,
)
    requires
        key_le(sa, ka, sb, kb),
        key_le(sb, kb, sc, kc),
    ensures
        key_le(sa, ka, sc, kc),
{
    if sa == sb && sb == sc {
        lemma_lex_transitive(ka, kb, kc);
    }
}

fn key_le_exec(sa: bool, ka: &Vec<char>, sb: bool, kb: &Vec<char>) -> (r: bool)
    ensures
        r == key_le(sa, ka@, sb, kb@),
{
    (sa && !sb) || (sa == sb && chars_lex_le(ka, kb))
}

/// The window list in display order: shielded windows first, then alphabetically by
/// lowercase executable name; rows that tie keep their relative order.
pub fn sort_window_list(v: Vec<WindowInfo>) -> (r: Vec<WindowInfo>)
    ensures
        forall|i: int, j: int| 0 <= i < j < r.len() ==> listed_before_or_tied(r@[i], r@[j]),
        exists|perm: Seq<int>| is_stable_reordering(v@, r@, perm),
{
    let ghost orig = v@;
    let mut rest = v;
    let mut out: Vec<WindowInfo> = Vec::new();
    let mut keys: Vec<Vec<char>> = Vec::new();
    let ghost mut perm: Seq<int> = Seq::empty();
    while rest.len() > 0
        invariant
            rest@ == orig.subrange(0, rest.len() as int),
            rest.len() <= orig.len(),
            out.len() == orig.len() - rest.len(),
            keys.len() == out.len(),
            forall|k: int| 0 <= k < keys.len() ==> (#[trigger] keys@[k])@ == lowercase(out@[k].exe_name@),
            forall|i: int, j: int| 0 <= i < j < out.len() ==> listed_before_or_tied(out@[i], out@[j]),
            perm.len() == out.len(),
            forall|k: int|
                0 <= k < out.len() ==> rest.len() <= #[trigger] perm[k] < orig.len() && out@[k]
                    == orig[perm[k]],
            forall|k: int, l: int| 0 <= k < l < out.len() ==> perm[k] != perm[l],
            forall|k: int, l: int|
                0 <= k < l < out.len() && listed_before_or_tied(out@[l], out@[k]) ==> perm[k]
                    < perm[l],
        decreases rest.len(),
    {
        let ghost idx = (rest.len() - 1) as int;
        let x = rest.pop().unwrap();
        assert(x == orig[idx]);
        let xk = lowercase_chars(x.exe_name.as_str());
        // first position whose row is not strictly before x
        let mut p: usize = 0;
        while p < out.len() && !key_le_exec(x.is_shielded, &xk, out[p].is_shielded, &keys[p])
            invariant
                p <= out.len(),
                keys.len() == out.len(),
                xk@ == lowercase(x.exe_name@),
                forall|k: int| 0 <= k < keys.len() ==> (#[trigger] keys@[k])@ == lowercase(out@[k].exe_name@),
                forall|k: int| 0 <= k < p ==> !listed_before_or_tied(x, #[trigger] out@[k]),
            decreases out.len() - p,
        {
            assert(keys@[p as int]@ == lowercase(out@[p as int].exe_name@));
            p = p + 1;
        }
        proof {
            if p < out.len() {
                assert(keys@[p as int]@ == lowercase(out@[p as int].exe_name@));
                assert(listed_before_or_tied(x, out@[p as int]));
            }
        }
        let ghost old_out = out@;
        let ghost old_perm = perm;
        out.insert(p, x);
        keys.insert(p, xk);
        proof {
            perm = old_perm.insert(p as int, idx);
            let n = out.len() as int;
            assert forall|k: int| 0 <= k < keys.len() implies (#[trigger] keys@[k])@ == lowercase(
                out@[k].exe_name@,
            ) by {
                if k < p {
                    assert(out@[k] == old_out[k]);
                } else if k > p {
                    assert(out@[k] == old_out[k - 1]);
                }
            }
            assert forall|i: int, j: int| 0 <= i < j < n implies listed_before_or_tied(
                out@[i],
                out@[j],
            ) by {
                let oi = if i < p { i } else { i - 1 };
                let oj = if j < p { j } else { j - 1 };
                if i == p {
                    // x before a later row: x <= out[p] <= that row
                    assert(out@[j] == old_out[oj]);
                    if oj > p {
                        assert(listed_before_or_tied(old_out[p as int], old_out[oj]));
                        lemma_key_transitive(
                            x.is_shielded,
                            lowercase(x.exe_name@),
                            old_out[p as int].is_shielded,
                            lowercase(old_out[p as int].exe_name@),
                            old_out[oj].is_shielded,
                            lowercase(old_out[oj].exe_name@),
                        );
                    }
                } else if j == p {
                    assert(out@[i] == old_out[i]);
                    assert(!listed_before_or_tied(x, old_out[i]));
                    lemma_key_total(
                        x.is_shielded,
                        lowercase(x.exe_name@),
                        old_out[i].is_shielded,
                        lowercase(old_out[i].exe_name@),
                    );
                } else {
                    assert(out@[i] == old_out[oi]);
                    assert(out@[j] == old_out[oj]);
                }
            }
            assert forall|k: int| 0 <= k < n implies rest.len() <= #[trigger] perm[k] < orig.len()
                && out@[k] == orig[perm[k]] by {
                if k < p {
                    assert(out@[k] == old_out[k]);
                    assert(perm[k] == old_perm[k]);
                } else if k > p {
                    assert(out@[k] == old_out[k - 1]);
                    assert(perm[k] == old_perm[k - 1]);
                }
            }
            assert forall|k: int, l: int| 0 <= k < l < n implies perm[k] != perm[l] by {
                let ok = if k < p { k } else { k - 1 };
                let ol = if l < p { l } else { l - 1 };
                if k != p {
                    assert(perm[k] == old_perm[ok]);
                }
                if l != p {
                    assert(perm[l] == old_perm[ol]);
                }
            }
            assert forall|k: int, l: int|
                0 <= k < l < n && listed_before_or_tied(out@[l], out@[k]) implies perm[k]
                < perm[l] by {
                let ok = if k < p { k } else { k - 1 };
                let ol = if l < p { l } else { l - 1 };
                if k == p {
                    assert(perm[k] == idx);
                    assert(perm[l] == old_perm[ol]);
                } else if l == p {
                    // a row before x that ties with x: impossible, rows before x are strictly before it
                    assert(out@[k] == old_out[k]);
                    assert(!listed_before_or_tied(x, old_out[k]));
                } else {
                    assert(perm[k] == old_perm[ok]);
                    assert(perm[l] == old_perm[ol]);
                    assert(out@[k] == old_out[ok]);
                    assert(out@[l] == old_out[ol]);
                }
            }
            assert(rest@ =~= orig.subrange(0, rest.len() as int));
        }
    }
    proof {
        assert(is_stable_reordering(orig, out@, perm));
    }
    out
}

// ---------------------------------------------------------------------------
// Which windows must be shielded (or audio-shielded) again
// ---------------------------------------------------------------------------

/// Some name of the set equals the executable name, or its lowercase form, ignoring ASCII case.
pub open spec fn names_match_exe(names: Set<Seq<char>>, exe_name: Seq<char>) -> bool {
    exists|s: Seq<char>|
        #![trigger names.contains(s)]
        names.contains(s) && (eq_ignoring_ascii_case(s, exe_name) || eq_ignoring_ascii_case(
            s,
            lowercase(exe_name),
        ))
}

/// Does the set name this executable (ignoring ASCII case)?
pub fn exe_matches_any(names: &ExeSet, exe_name: &str) -> (r: bool)
    ensures
        r == names_match_exe(names@, exe_name@),
{
    let exe = chars_of(exe_name);
    let lower = lowercase_chars(exe_name);
    let mut i: usize = 0;
    while i < names.len()
        invariant
            i <= names.names().len(),
            exe@ == exe_name@,
            lower@ == lowercase(exe_name@),
            forall|k: int|
                0 <= k < i ==> !(eq_ignoring_ascii_case(#[trigger] names.names()[k], exe_name@)
                    || eq_ignoring_ascii_case(names.names()[k], lowercase(exe_name@))),
        decreases names.names().len() - i,
    {
        let s = chars_of(names.get(i).as_str());
        if chars_eq_ignore_ascii_case(&s, &exe) || chars_eq_ignore_ascii_case(&s, &lower) {
            assert(names@.contains(names.names()[i as int]));
            return true;
        }
        i = i + 1;
    }
    proof {
        assert forall|s: Seq<char>| names@.contains(s) implies !(eq_ignoring_ascii_case(s, exe_name@)
            || eq_ignoring_ascii_case(s, lowercase(exe_name@))) by {
            let k = choose|k: int| 0 <= k < names.names().len() && names.names()[k] == s;
        }
    }
    false
}

/// A listed window is shielded again when its executable was shielded by the user and
/// the window's live display affinity does not exclude it from capture yet.
pub fn should_reapply_shield(shielded_exes: &ExeSet, exe_name: &str, live_shielded: bool) -> (r: bool)
    ensures
        r == (names_match_exe(shielded_exes@, exe_name@) && !live_shielded),
{
    !live_shielded && exe_matches_any(shielded_exes, exe_name)
}

/// The audio state of a listed window: audio-shielded when the audio list names its
/// executable or the registry already shields it; an audio-shielded window is (re)registered.
pub fn resolve_audio_shield(
    state: &mut AudioShieldState,
    audio_shielded_exes: &ExeSet,
    exe_name: &str,
    pid: u32,
) -> (r: bool)
    ensures
        r == (names_match_exe(audio_shielded_exes@, exe_name@) || spec_is_audio_shielded(
            old(state).excluded_pids@,
            old(state).excluded_exes@,
            exe_name@,
            pid,
        )),
        r ==> final(state).excluded_pids@ == (if pid != 0 {
            old(state).excluded_pids@.insert(pid)
        } else {
            old(state).excluded_pids@
        }) && final(state).excluded_exes@ == old(state).excluded_exes@.insert(
            lowercase(exe_name@),
        ),
        !r ==> final(state).excluded_pids@ == old(state).excluded_pids@,
        !r ==> final(state).excluded_exes@ == old(state).excluded_exes@,
{
    let r = exe_matches_any(audio_shielded_exes, exe_name) || is_audio_shielded(state, exe_name, pid);
    if r {
        exclude_process_audio(state, exe_name, pid);
    }
    r
}

// ---------------------------------------------------------------------------
// The window list
// ---------------------------------------------------------------------------

/// Whether a listed window is shown as shielded: when its shield is reapplied (its
/// executable is on the shield list and it was not excluded from capture yet), the
/// affinity read after that; otherwise the affinity read first.
pub open spec fn shown_shielded(shielded: Set<Seq<char>>, c: WindowCandidate) -> bool {
    if names_match_exe(shielded, c.exe_name@) && !c.live_shielded {
        c.live_after_reshield
    } else {
        c.live_shielded
    }
}

/// The audio flag of a window under the registry `(pids, exes)`.
pub open spec fn audio_flag(audio: Set<Seq<char>>, pids: Set<u32>, exes: Set<Seq<char>>, c: WindowCandidate) -> bool {
    names_match_exe(audio, c.exe_name@) || spec_is_audio_shielded(pids, exes, c.exe_name@, c.pid)
}

/// The audio registry after the listed windows at positions `idx` were resolved in turn,
/// starting from `(pids0, exes0)`: each audio-shielded window is registered.
pub open spec fn audio_registry_after(
    pids0: Set<u32>,
    exes0: Set<Seq<char>>,
    audio: Set<Seq<char>>,
    cands: Seq<WindowCandidate>,
    idx: Seq<int>,
) -> (Set<u32>, Set<Seq<char>>)
    decreases idx.len(),
{
    if idx.len() == 0 {
        (pids0, exes0)
    } else {
        let prev = audio_registry_after(pids0, exes0, audio, cands, idx.drop_last());
        let c = cands[idx.last()];
        if audio_flag(audio, prev.0, prev.1, c) {
            (
                if c.pid != 0 {
                    prev.0.insert(c.pid)
                } else {
                    prev.0
                },
                prev.1.insert(lowercase(c.exe_name@)),
            )
        } else {
            prev
        }
    }
}

/// The row shown for a listed candidate.
pub open spec fn listed_row(c: WindowCandidate, is_shielded: bool, is_audio_shielded: bool) -> WindowInfo {
    WindowInfo {
        hwnd: c.hwnd,
        pid: c.pid,
        title: c.title,
        exe_name: c.exe_name,
        is_shielded,
        is_audio_shielded,
        icon_base64: c.icon_base64,
    }
}

/// The rows of the listed candidates, in candidate order, before sorting: each with its
/// shown shield state and its audio flag under the registry as the earlier rows left it.
pub open spec fn unsorted_rows(
    cands: Seq<WindowCandidate>,
    shielded: Set<Seq<char>>,
    audio: Set<Seq<char>>,
    pids0: Set<u32>,
    exes0: Set<Seq<char>>,
) -> Seq<WindowInfo> {
    let l = listed_upto(cands, cands.len() as int);
    Seq::new(
        l.len(),
        |k: int|
            {
                let reg = audio_registry_after(pids0, exes0, audio, cands, l.take(k));
                listed_row(cands[l[k]], shown_shielded(shielded, cands[l[k]]), audio_flag(audio, reg.0, reg.1, cands[l[k]]))
            },
    )
}

fn clone_icon(icon: &Option<String>) -> (r: Option<String>)
    ensures
        r == *icon,
{
    match icon {
        Some(s) => Some(s.clone()),
        None => None,
    }
}

/// The window list: one row per listed candidate (see `listed_candidates`), shielded
/// rows first, then by lowercase executable name, ties in candidate order. A row is
/// shown shielded per `shown_shielded`; its audio flag says whether the audio list names
/// its executable or the registry (as the rows before it left it) shields it, and every
/// audio-shielded row is registered.
pub fn enumerate_windows(
    candidates: &Vec<WindowCandidate>,
    shielded_exes: &ExeSet,
    audio_shielded_exes: &ExeSet,
    audio_state: &mut AudioShieldState,
) -> (rows: Vec<WindowInfo>)
    ensures
        forall|i: int, j: int| 0 <= i < j < rows.len() ==> listed_before_or_tied(rows@[i], rows@[j]),
        exists|perm: Seq<int>|
            is_stable_reordering(
                unsorted_rows(
                    candidates@,
                    shielded_exes@,
                    audio_shielded_exes@,
                    old(audio_state).excluded_pids@,
                    old(audio_state).excluded_exes@,
                ),
                rows@,
                perm,
            ),
        (final(audio_state).excluded_pids@, final(audio_state).excluded_exes@) == audio_registry_after(
            old(audio_state).excluded_pids@,
            old(audio_state).excluded_exes@,
            audio_shielded_exes@,
            candidates@,
            listed_upto(candidates@, candidates.len() as int),
        ),
{
    let listed = listed_candidates(candidates);
    let ghost l = listed_upto(candidates@, candidates.len() as int);
    let ghost pids0 = audio_state.excluded_pids@;
    let ghost exes0 = audio_state.excluded_exes@;
    let ghost want = unsorted_rows(candidates@, shielded_exes@, audio_shielded_exes@, pids0, exes0);
    proof {
        lemma_listed_upto_bounds(candidates@, candidates.len() as int);
    }
    let mut rows: Vec<WindowInfo> = Vec::new();
    let mut k: usize = 0;
    while k < listed.len()
        invariant
            k <= listed.len(),
            listed@.map_values(|x: usize| x as int) == l,
            l == listed_upto(candidates@, candidates.len() as int),
            forall|j: int| 0 <= j < l.len() ==> 0 <= #[trigger] l[j] < candidates.len(),
            want == unsorted_rows(candidates@, shielded_exes@, audio_shielded_exes@, pids0, exes0),
            rows.len() == k,
            forall|j: int| 0 <= j < k ==> rows@[j] == #[trigger] want[j],
            (audio_state.excluded_pids@, audio_state.excluded_exes@) == audio_registry_after(
                pids0,
                exes0,
                audio_shielded_exes@,
                candidates@,
                l.take(k as int),
            ),
        decreases listed.len() - k,
    {
        let i = listed[k];
        assert(l[k as int] == i as int);
        let c = &candidates[i];
        let ghost reg = (audio_state.excluded_pids@, audio_state.excluded_exes@);
        let mut shown = c.live_shielded;
        if should_reapply_shield(shielded_exes, c.exe_name.as_str(), c.live_shielded) {
            shown = c.live_after_reshield;
        }
        let flag = resolve_audio_shield(audio_state, audio_shielded_exes, c.exe_name.as_str(), c.pid);
        let row = WindowInfo {
            hwnd: c.hwnd,
            pid: c.pid,
            title: c.title.clone(),
            exe_name: c.exe_name.clone(),
            is_shielded: shown,
            is_audio_shielded: flag,
            icon_base64: clone_icon(&c.icon_base64),
        };
        proof {
            assert(row == listed_row(*c, shown_shielded(shielded_exes@, *c), audio_flag(audio_shielded_exes@, reg.0, reg.1, *c)));
            assert(row == want[k as int]);
            assert(l.take(k + 1).drop_last() =~= l.take(k as int));
            assert(l.take(k + 1).last() == i as int);
        }
        rows.push(row);
        k = k + 1;
    }
    proof {
        assert(l.take(l.len() as int) =~= l);
        assert(rows@ =~= want);
    }
    sort_window_list(rows)
}

proof fn lemma_registry_grows(
    pids0: Set<u32>,
    exes0: Set<Seq<char>>,
    audio: Set<Seq<char>>,
    cands: Seq<WindowCandidate>,
    l: Seq<int>,
    m: int,
    n: int,
)
    requires
        0 <= m <= n <= l.len(),
    ensures
        audio_registry_after(pids0, exes0, audio, cands, l.take(m)).0.subset_of(
            audio_registry_after(pids0, exes0, audio, cands, l.take(n)).0,
        ),
        audio_registry_after(pids0, exes0, audio, cands, l.take(m)).1.subset_of(
            audio_registry_after(pids0, exes0, audio, cands, l.take(n)).1,
        ),
    decreases n - m,
{
    if m < n {
        lemma_registry_grows(pids0, exes0, audio, cands, l, m, n - 1);
        assert(l.take(n).drop_last() =~= l.take(n - 1));
    }
}

/// A row shown as audio-shielded stays registered once the list is built: the registry
/// the listing leaves behind shields its process.
pub proof fn law_audio_shielded_rows_stay_registered(
    cands: Seq<WindowCandidate>,
    shielded: Set<Seq<char>>,
    audio: Set<Seq<char>>,
    pids0: Set<u32>,
    exes0: Set<Seq<char>>,
    k: int,
)
    requires
        0 <= k < unsorted_rows(cands, shielded, audio, pids0, exes0).len(),
        unsorted_rows(cands, shielded, audio, pids0, exes0)[k].is_audio_shielded,
    ensures
        ({
            let reg = audio_registry_after(pids0, exes0, audio, cands, listed_upto(cands, cands.len() as int));
            let row = unsorted_rows(cands, shielded, audio, pids0, exes0)[k];
            spec_is_audio_shielded(reg.0, reg.1, row.exe_name@, row.pid)
        }),
{
    let l = listed_upto(cands, cands.len() as int);
    assert(l.take(k + 1).drop_last() =~= l.take(k));
    assert(l.take(k + 1).last() == l[k]);
    lemma_registry_grows(pids0, exes0, audio, cands, l, k + 1, l.len() as int);
    assert(l.take(l.len() as int) =~= l);
    let row = unsorted_rows(cands, shielded, audio, pids0, exes0)[k];
    assert(audio_registry_after(pids0, exes0, audio, cands, l.take(k + 1)).1.contains(lowercase(row.exe_name@)));
}

proof fn lemma_registry_unchanged_for_later_row(
    pids0: Set<u32>,
    exes0: Set<Seq<char>>,
    audio: Set<Seq<char>>,
    cands: Seq<WindowCandidate>,
    m: int,
    k: int,
)
    requires
        0 <= m <= k < listed_upto(cands, cands.len() as int).len(),
        forall|a: int, b: int|
            0 <= a < b < listed_upto(cands, cands.len() as int).len() ==> cands[listed_upto(cands, cands.len() as int)[a]].pid
                != cands[listed_upto(cands, cands.len() as int)[b]].pid,
    ensures
        ({
            let l = listed_upto(cands, cands.len() as int);
            let c = cands[l[k]];
            let reg = audio_registry_after(pids0, exes0, audio, cands, l.take(m));
            &&& reg.0.contains(c.pid) == pids0.contains(c.pid)
            &&& reg.1.contains(lowercase(c.exe_name@)) == exes0.contains(lowercase(c.exe_name@))
        }),
    decreases m,
{
    let l = listed_upto(cands, cands.len() as int);
    if m > 0 {
        lemma_registry_unchanged_for_later_row(pids0, exes0, audio, cands, m - 1, k);
        assert(l.take(m).drop_last() =~= l.take(m - 1));
        assert(l.take(m).last() == l[m - 1]);
        lemma_listed_upto_bounds(cands, cands.len() as int);
        assert(l[m - 1] < l[k]);
        law_listed_rows_distinct_and_visible(cands, l[m - 1], l[k]);
    } else {
        assert(l.take(0) =~= Seq::<int>::empty());
    }
}

/// When the listed windows belong to distinct processes, each row's audio flag depends
/// only on the registry before the listing: the audio list names its executable, or the
/// registry already shielded its process.
pub proof fn law_audio_flags_from_initial_registry(
    cands: Seq<WindowCandidate>,
    shielded: Set<Seq<char>>,
    audio: Set<Seq<char>>,
    pids0: Set<u32>,
    exes0: Set<Seq<char>>,
    k: int,
)
    requires
        0 <= k < unsorted_rows(cands, shielded, audio, pids0, exes0).len(),
        forall|a: int, b: int|
            0 <= a < b < listed_upto(cands, cands.len() as int).len() ==> cands[listed_upto(cands, cands.len() as int)[a]].pid
                != cands[listed_upto(cands, cands.len() as int)[b]].pid,
    ensures
        unsorted_rows(cands, shielded, audio, pids0, exes0)[k].is_audio_shielded == audio_flag(
            audio,
            pids0,
            exes0,
            cands[listed_upto(cands, cands.len() as int)[k]],
        ),
{
    lemma_registry_unchanged_for_later_row(pids0, exes0, audio, cands, k, k);
}

/// A visible window seen by the background watchdog: handle, owning process, its
/// executable name and whether its live display affinity excludes it from capture.
pub struct ObservedWindow {
    pub hwnd: usize,
    pub pid: u32,
    pub exe_name: String,
    pub live_shielded: bool,
}

/// The watchdog shields window `w` again.
pub open spec fn needs_reshield(shielded: Set<Seq<char>>, w: ObservedWindow) -> bool {
    w.pid != 0 && names_match_exe(shielded, w.exe_name@) && !w.live_shielded
}

/// The watchdog registers window `w` for audio exclusion.
pub open spec fn needs_audio_exclusion(audio: Set<Seq<char>>, w: ObservedWindow) -> bool {
    w.pid != 0 && names_match_exe(audio, w.exe_name@)
}

/// The watchdog registers every window with a process id whose executable the audio list
/// names, whatever its live affinity: a window already hidden from capture still has its
/// audio excluded.
pub proof fn law_watchdog_audio_ignores_affinity(audio: Set<Seq<char>>, w: ObservedWindow)
    requires
        w.pid != 0,
        names_match_exe(audio, w.exe_name@),
    ensures
        needs_audio_exclusion(audio, w),
{
}

/// One pass of the background watchdog over the visible windows: the positions of the
/// windows to shield again, in order; windows whose executable is on the audio list are
/// registered for audio exclusion. With both lists empty nothing is done.
pub fn auto_reapply_shields(
    shielded_exes: &ExeSet,
    audio_shielded_exes: &ExeSet,
    windows: &Vec<ObservedWindow>,
    state: &mut AudioShieldState,
) -> (r: Vec<usize>)
    ensures
        forall|k: int|
            0 <= k < r.len() ==> (#[trigger] r@[k]) < windows.len() && needs_reshield(
                shielded_exes@,
                windows@[r@[k] as int],
            ),
        forall|k: int, l: int| 0 <= k < l < r.len() ==> r@[k] < r@[l],
        forall|i: int|
            0 <= i < windows.len() && needs_reshield(shielded_exes@, windows@[i]) ==> r@.contains(
                i as usize,
            ),
        forall|i: int|
            0 <= i < windows.len() && (#[trigger] windows@[i]).pid != 0 && names_match_exe(
                audio_shielded_exes@,
                windows@[i].exe_name@,
            ) ==> final(state).excluded_pids@.contains(windows@[i].pid) && final(state).excluded_exes@.contains(
                lowercase(windows@[i].exe_name@),
            ),
        final(state).excluded_pids@ == old(state).excluded_pids@.union(
            Set::new(
                |p: u32|
                    p != 0 && exists|i: int|
                        0 <= i < windows.len() && needs_audio_exclusion(
                            audio_shielded_exes@,
                            #[trigger] windows@[i],
                        ) && windows@[i].pid == p,
            ),
        ),
        final(state).excluded_exes@ == old(state).excluded_exes@.union(
            Set::new(
                |s: Seq<char>|
                    exists|i: int|
                        0 <= i < windows.len() && needs_audio_exclusion(
                            audio_shielded_exes@,
                            #[trigger] windows@[i],
                        ) && lowercase(windows@[i].exe_name@) == s,
            ),
        ),
{
    let mut r: Vec<usize> = Vec::new();
    let ghost pids0 = state.excluded_pids@;
    let ghost exes0 = state.excluded_exes@;
    let ghost audio = audio_shielded_exes@;
    let ghost shielded = shielded_exes@;
    let both_empty = shielded_exes.is_empty() && audio_shielded_exes.is_empty();
    if both_empty {
        proof {
            assert forall|i: int| 0 <= i < windows.len() implies !needs_reshield(shielded, windows@[i])
                && !needs_audio_exclusion(audio, windows@[i]) by {}
            assert(state.excluded_pids@ =~= pids0.union(
                Set::new(
                    |p: u32|
                        p != 0 && exists|i: int|
                            0 <= i < windows.len() && needs_audio_exclusion(audio, #[trigger] windows@[i])
                                && windows@[i].pid == p,
                ),
            ));
            assert(state.excluded_exes@ =~= exes0.union(
                Set::new(
                    |s: Seq<char>|
                        exists|i: int|
                            0 <= i < windows.len() && needs_audio_exclusion(audio, #[trigger] windows@[i])
                                && lowercase(windows@[i].exe_name@) == s,
                ),
            ));
        }
        return r;
    }
    let mut i: usize = 0;
    while i < windows.len()
        invariant
            i <= windows.len(),
            audio == audio_shielded_exes@,
            shielded == shielded_exes@,
            forall|k: int|
                0 <= k < r.len() ==> (#[trigger] r@[k]) < i && needs_reshield(
                    shielded,
                    windows@[r@[k] as int],
                ),
            forall|k: int, l: int| 0 <= k < l < r.len() ==> r@[k] < r@[l],
            forall|j: int| 0 <= j < i && needs_reshield(shielded, windows@[j]) ==> r@.contains(j as usize),
            state.excluded_pids@ == pids0.union(
                Set::new(
                    |p: u32|
                        p != 0 && exists|j: int|
                            0 <= j < i && needs_audio_exclusion(audio, #[trigger] windows@[j])
                                && windows@[j].pid == p,
                ),
            ),
            state.excluded_exes@ == exes0.union(
                Set::new(
                    |s: Seq<char>|
                        exists|j: int|
                            0 <= j < i && needs_audio_exclusion(audio, #[trigger] windows@[j])
                                && lowercase(windows@[j].exe_name@) == s,
                ),
            ),
        decreases windows.len() - i,
    {
        let w = &windows[i];
        let ghost before = r@;
        let ghost pids_before = state.excluded_pids@;
        let ghost exes_before = state.excluded_exes@;
        if w.pid != 0 {
            if should_reapply_shield(shielded_exes, w.exe_name.as_str(), w.live_shielded) {
                r.push(i);
            }
            if exe_matches_any(audio_shielded_exes, w.exe_name.as_str()) {
                exclude_process_audio(state, w.exe_name.as_str(), w.pid);
            }
        }
        proof {
            assert(windows@[i as int] == *w);
            assert forall|j: int|
                0 <= j < i + 1 && needs_reshield(shielded, windows@[j]) implies r@.contains(
                j as usize,
            ) by {
                if j < i {
                    let x = choose|x: int| 0 <= x < before.len() && before[x] == j as usize;
                    assert(r@[x] == j as usize);
                } else {
                    assert(r@[r.len() - 1] == i);
                }
            }
            let np = Set::new(
                |p: u32|
                    p != 0 && exists|j: int|
                        0 <= j < i + 1 && needs_audio_exclusion(audio, #[trigger] windows@[j])
                            && windows@[j].pid == p,
            );
            let op = Set::new(
                |p: u32|
                    p != 0 && exists|j: int|
                        0 <= j < i && needs_audio_exclusion(audio, #[trigger] windows@[j])
                            && windows@[j].pid == p,
            );
            assert forall|p: u32| np.contains(p) <==> (op.contains(p) || (p != 0
                && needs_audio_exclusion(audio, *w) && w.pid == p)) by {
                if np.contains(p) {
                    let j = choose|j: int|
                        0 <= j < i + 1 && needs_audio_exclusion(audio, #[trigger] windows@[j])
                            && windows@[j].pid == p;
                    if j < i {
                        assert(op.contains(p));
                    }
                }
                if op.contains(p) {
                    let j = choose|j: int|
                        0 <= j < i && needs_audio_exclusion(audio, #[trigger] windows@[j])
                            && windows@[j].pid == p;
                    assert(np.contains(p));
                }
            }
            let ne = Set::new(
                |s: Seq<char>|
                    exists|j: int|
                        0 <= j < i + 1 && needs_audio_exclusion(audio, #[trigger] windows@[j])
                            && lowercase(windows@[j].exe_name@) == s,
            );
            let oe = Set::new(
                |s: Seq<char>|
                    exists|j: int|
                        0 <= j < i && needs_audio_exclusion(audio, #[trigger] windows@[j])
                            && lowercase(windows@[j].exe_name@) == s,
            );
            assert forall|s: Seq<char>| ne.contains(s) <==> (oe.contains(s) || (needs_audio_exclusion(
                audio,
                *w,
            ) && lowercase(w.exe_name@) == s)) by {
                if ne.contains(s) {
                    let j = choose|j: int|
                        0 <= j < i + 1 && needs_audio_exclusion(audio, #[trigger] windows@[j])
                            && lowercase(windows@[j].exe_name@) == s;
                    if j < i {
                        assert(oe.contains(s));
                    }
                }
                if oe.contains(s) {
                    let j = choose|j: int|
                        0 <= j < i && needs_audio_exclusion(audio, #[trigger] windows@[j])
                            && lowercase(windows@[j].exe_name@) == s;
                    assert(ne.contains(s));
                }
            }
            assert(state.excluded_pids@ =~= pids0.union(np));
            assert(state.excluded_exes@ =~= exes0.union(ne));
        }
        i = i + 1;
    }
    r
}

// ---------------------------------------------------------------------------
// Counting and picking rows
// ---------------------------------------------------------------------------

/// The number of shielded rows.
pub open spec fn shielded_row_count(rows: Seq<WindowInfo>) -> nat
    decreases rows.len(),
{
    if rows.len() == 0 {
        0
    } else {
        shielded_row_count(rows.drop_last()) + if rows.last().is_shielded {
            1nat
        } else {
            0nat
        }
    }
}

/// The tray's count is the number of rows shown as shielded: exactly the rows whose
/// `is_shielded` is set, whatever their other fields (an audio-only row is not counted).
pub proof fn law_count_is_number_of_shielded_rows(rows: Seq<WindowInfo>)
    ensures
        shielded_row_count(rows) == rows.filter(|w: WindowInfo| w.is_shielded).len(),
    decreases rows.len(),
{
    reveal(Seq::filter);
    if rows.len() > 0 {
        law_count_is_number_of_shielded_rows(rows.drop_last());
    }
}

/// How many listed windows are shielded (the number the tray reports).
pub fn count_shielded(rows: &Vec<WindowInfo>) -> (n: usize)
    ensures
        n == shielded_row_count(rows@),
        n == rows@.filter(|w: WindowInfo| w.is_shielded).len(),
{
    proof {
        law_count_is_number_of_shielded_rows(rows@);
    }
    let mut n: usize = 0;
    let mut i: usize = 0;
    while i < rows.len()
        invariant
            i <= rows.len(),
            n == shielded_row_count(rows@.subrange(0, i as int)),
            n <= i,
        decreases rows.len() - i,
    {
        assert(rows@.subrange(0, i + 1).drop_last() =~= rows@.subrange(0, i as int));
        if rows[i].is_shielded {
            n = n + 1;
        }
        i = i + 1;
    }
    assert(rows@.subrange(0, rows.len() as int) =~= rows@);
    n
}

/// The rows whose executable (lowercased) is on the shield list, in order: the windows
/// that a manual "reapply" shields again.
pub fn rows_to_reshield(rows: &Vec<WindowInfo>, shielded_exes: &ExeSet) -> (r: Vec<usize>)
    ensures
        forall|k: int|
            0 <= k < r.len() ==> (#[trigger] r@[k]) < rows.len() && shielded_exes@.contains(
                lowercase(rows@[r@[k] as int].exe_name@),
            ),
        forall|k: int, l: int| 0 <= k < l < r.len() ==> r@[k] < r@[l],
        forall|i: int|
            0 <= i < rows.len() && shielded_exes@.contains(lowercase(rows@[i].exe_name@))
                ==> r@.contains(i as usize),
{
    let mut r: Vec<usize> = Vec::new();
    let mut i: usize = 0;
    while i < rows.len()
        invariant
            i <= rows.len(),
            forall|k: int|
                0 <= k < r.len() ==> (#[trigger] r@[k]) < i && shielded_exes@.contains(
                    lowercase(rows@[r@[k] as int].exe_name@),
                ),
            forall|k: int, l: int| 0 <= k < l < r.len() ==> r@[k] < r@[l],
            forall|j: int|
                0 <= j < i && shielded_exes@.contains(lowercase(rows@[j].exe_name@)) ==> r@.contains(
                    j as usize,
                ),
        decreases rows.len() - i,
    {
        let ghost before = r@;
        let lower = to_lowercase(rows[i].exe_name.as_str());
        if shielded_exes.contains(lower.as_str()) {
            r.push(i);
        }
        proof {
            assert forall|j: int|
                0 <= j < i + 1 && shielded_exes@.contains(lowercase(rows@[j].exe_name@))
                    implies r@.contains(j as usize) by {
                if j < i {
                    let x = choose|x: int| 0 <= x < before.len() && before[x] == j as usize;
                    assert(r@[x] == j as usize);
                } else {
                    assert(r@[r.len() - 1] == i);
                }
            }
        }
        i = i + 1;
    }
    r
}

/// The rows that are currently shielded, in order: the windows that "clear all" unshields.
pub fn shielded_rows(rows: &Vec<WindowInfo>) -> (r: Vec<usize>)
    ensures
        forall|k: int| 0 <= k < r.len() ==> (#[trigger] r@[k]) < rows.len() && rows@[r@[k] as int].is_shielded,
        forall|k: int, l: int| 0 <= k < l < r.len() ==> r@[k] < r@[l],
        forall|i: int| 0 <= i < rows.len() && rows@[i].is_shielded ==> r@.contains(i as usize),
{
    let mut r: Vec<usize> = Vec::new();
    let mut i: usize = 0;
    while i < rows.len()
        invariant
            i <= rows.len(),
            forall|k: int| 0 <= k < r.len() ==> (#[trigger] r@[k]) < i && rows@[r@[k] as int].is_shielded,
            forall|k: int, l: int| 0 <= k < l < r.len() ==> r@[k] < r@[l],
            forall|j: int| 0 <= j < i && rows@[j].is_shielded ==> r@.contains(j as usize),
        decreases rows.len() - i,
    {
        let ghost before = r@;
        if rows[i].is_shielded {
            r.push(i);
        }
        proof {
            assert forall|j: int| 0 <= j < i + 1 && rows@[j].is_shielded implies r@.contains(j as usize) by {
                if j < i {
                    let x = choose|x: int| 0 <= x < before.len() && before[x] == j as usize;
                    assert(r@[x] == j as usize);
                } else {
                    assert(r@[r.len() - 1] == i);
                }
            }
        }
        i = i + 1;
    }
    r
}

} // verus!
