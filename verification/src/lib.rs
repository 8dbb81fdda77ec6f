//! Verified core of StreamShield, a per-application stream privacy manager:
//! which windows are listed and shielded, how shield requests are encoded for the
//! injected hook, the audio-exclusion registry, settings, the OBS companion protocol
//! and the NVIDIA bypass bookkeeping.
#![allow(unused_imports)]

pub mod text;
pub mod exe_set;
pub mod affinity_guard;
pub mod window_filter;
pub mod window_manager;
pub mod audio_bridge;
pub mod affinity;
pub mod config;
pub mod shell;
pub mod nvidia_bypass;
pub mod injector;
pub mod obs_companion;
pub mod icon;
