# streamshield

StreamShield hides chosen application windows (and their audio) from screen and
stream capture on Windows.

- `src/` is the verified library: which windows are listed and in which order, which
  are shielded again, how a shield request is packed for the injected hook and which
  affinity it sets, the audio-exclusion registry, the settings, the OBS WebSocket
  companion's handshake and mute requests, the NVIDIA bypass bookkeeping and the
  icon conversion. Each function states its behaviour in `requires` / `ensures`, and
  the laws that span functions are public proof functions named `law_*`.
- `app/` is the Windows program around it: the Tauri commands and tray, the Win32,
  COM and registry calls, the DLL injection, the WebSocket and the configuration file.
- `tests/` runs the library on concrete values.
