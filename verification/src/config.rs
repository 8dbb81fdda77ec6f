//! Persistent settings and the list of shielded executables.
use vstd::prelude::*;
use crate::text::{lowercase, to_lowercase};
use crate::exe_set::ExeSet;

verus! {

pub fn default_autostart() -> (b: bool)
    ensures
        !b,
{
    false
}

pub fn default_start_minimized() -> (b: bool)
    ensures
        !b,
{
    false
}

pub fn default_auto_reapply() -> (b: bool)
    ensures
        b,
{
    true
}

pub fn default_shield_mode() -> (s: String)
    ensures
        s@ == "exclude"@,
{
    String::from_str("exclude")
}

pub fn default_poll_interval_ms() -> (n: u64)
    ensures
        n == 3000,
{
    3000
}

pub fn default_theme() -> (s: String)
    ensures
        s@ == "cyberpunk"@,
{
    String::from_str("cyberpunk")
}

pub fn default_compact_mode() -> (b: bool)
    ensures
        !b,
{
    false
}

pub fn default_show_pid() -> (b: bool)
    ensures
        b,
{
    true
}

pub fn default_confirm_batch() -> (b: bool)
    ensures
        !b,
{
    false
}

/// The user's settings.
pub struct AppSettings {
    pub autostart: bool,
    pub start_minimized: bool,
    pub auto_reapply: bool,
    pub shield_mode: String,
    pub poll_interval_ms: u64,
    pub theme: String,
    pub compact_mode: bool,
    pub show_pid: bool,
    pub confirm_batch: bool,
}

/// The settings a fresh installation starts with.
pub open spec fn is_default_settings(s: AppSettings) -> bool {
    &&& !s.autostart
    &&& !s.start_minimized
    &&& s.auto_reapply
    &&& s.shield_mode@ == "exclude"@
    &&& s.poll_interval_ms == 3000
    &&& s.theme@ == "cyberpunk"@
    &&& !s.compact_mode
    &&& s.show_pid
    &&& !s.confirm_batch
}

impl Default for AppSettings {
    fn default() -> (s: Self)
        ensures
            is_default_settings(s),
    {
        AppSettings {
            autostart: default_autostart(),
            start_minimized: default_start_minimized(),
            auto_reapply: default_auto_reapply(),
            shield_mode: default_shield_mode(),
            poll_interval_ms: default_poll_interval_ms(),
            theme: default_theme(),
            compact_mode: default_compact_mode(),
            show_pid: default_show_pid(),
            confirm_batch: default_confirm_batch(),
        }
    }
}

impl AppSettings {
    /// A field-by-field copy.
    pub fn duplicate(&self) -> (r: Self)
        ensures
            r == *self,
    {
        AppSettings {
            autostart: self.autostart,
            start_minimized: self.start_minimized,
            auto_reapply: self.auto_reapply,
            shield_mode: self.shield_mode.clone(),
            poll_interval_ms: self.poll_interval_ms,
            theme: self.theme.clone(),
            compact_mode: self.compact_mode,
            show_pid: self.show_pid,
            confirm_batch: self.confirm_batch,
        }
    }
}

/// Everything that is saved: the shielded executables (lowercase) and the settings.
pub struct ShieldConfig {
    pub shielded_exes: ExeSet,
    pub settings: AppSettings,
}

impl Default for ShieldConfig {
    fn default() -> (c: Self)
        ensures
            c.shielded_exes@ == Set::<Seq<char>>::empty(),
            is_default_settings(c.settings),
    {
        ShieldConfig { shielded_exes: ExeSet::new(), settings: AppSettings::default() }
    }
}

impl ShieldConfig {
    /// Records that the user shielded (`enable`) or unshielded an executable: its
    /// lowercase name joins or leaves the list; the settings are unchanged.
    pub fn record_shield_toggle(&mut self, exe_name: &str, enable: bool)
        ensures
            final(self).shielded_exes@ == (if enable {
                old(self).shielded_exes@.insert(lowercase(exe_name@))
            } else {
                old(self).shielded_exes@.remove(lowercase(exe_name@))
            }),
            final(self).settings == old(self).settings,
    {
        let normalized = to_lowercase(exe_name);
        if enable {
            self.shielded_exes.insert(normalized);
        } else {
            self.shielded_exes.remove(normalized.as_str());
        }
    }

    /// Forgets every shielded executable; the settings are unchanged.
    pub fn clear_shields(&mut self)
        ensures
            final(self).shielded_exes@ == Set::<Seq<char>>::empty(),
            final(self).settings == old(self).settings,
    {
        self.shielded_exes.clear();
    }

    /// Replaces the settings with the factory defaults; the shielded list is kept.
    pub fn reset_settings(&mut self)
        ensures
            is_default_settings(final(self).settings),
            final(self).shielded_exes@ == old(self).shielded_exes@,
    {
        self.settings = AppSettings::default();
    }
}

/// Shielding an executable puts it on the list, unshielding takes it off, under any
/// spelling of its name that lowercases the same way.
pub proof fn law_toggle_membership(list: Set<Seq<char>>, exe_name: Seq<char>, other: Seq<char>)
    requires
        lowercase(other) == lowercase(exe_name),
    ensures
        list.insert(lowercase(exe_name)).contains(lowercase(other)),
        !list.remove(lowercase(exe_name)).contains(lowercase(other)),
{
}

/// Shielding an executable that was not on the list and then unshielding it restores the list.
pub proof fn law_toggle_round_trip(list: Set<Seq<char>>, exe_name: Seq<char>)
    requires
        !list.contains(lowercase(exe_name)),
    ensures
        list.insert(lowercase(exe_name)).remove(lowercase(exe_name)) == list,
{
    assert(list.insert(lowercase(exe_name)).remove(lowercase(exe_name)) =~= list);
}

} // verus!
