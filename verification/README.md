# Sentinel

Two companion processes keep each other alive. One of them, the tracker, counts how long the user
of the machine has been active. Once a limit is reached, or during certain hours, it covers every
window that does not belong to a whitelisted executable.

- `src/` is a library, verified with Verus. It holds every decision: the watchdog, the reading of
  the configuration, the counting of time, the lockout, and the repair of the registry entries.
  Each function states in its contract what it returns; the public proof functions state what
  holds of the library as a whole.
- `app/` is the program around it. It asks the system, hands what it found to the library, and
  does what the library says.
- `tests/` runs the library on concrete values.

The configuration is read from `config.json`:

    {
      "whitelist": ["explorer.exe", "tracker.exe"],
      "limit_seconds": 1800,
      "start_hour": 22,
      "end_hour": 6
    }

Started with `--enable-kill`, the pair stops when one of the two exits cleanly.
