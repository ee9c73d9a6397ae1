# SCRCPY Studio

A desktop front end for scrcpy and ADB, with Mirror, Camera and Desktop modes, Wireless
debugging and a connection doctor.

- `src/` is the verified library `scrcpy_studio`: parsing what ADB and scrcpy print, the
  launch arguments and their progressively safer fallbacks, device recommendations, the
  Desktop Mode decisions and settings backups, remembered wireless phones, and the doctor's
  findings. Every function carries a contract that Verus proves; the laws that span several
  functions are public proof functions beside them.
- `app/` is the Tauri application around it: it runs the programs, reads and writes the
  settings files, watches scrcpy and drives its window, and hands the library plain values.
- `tests/` runs the library on concrete inputs.
