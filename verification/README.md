# aquerty_stop

The logic of the Aquerty Stop power timer (shutdown, restart, sleep, hibernate or lock after
a delay, optionally gated by conditions), written in Verus and verified.

- `src/` — the verified library:
  - `text` — characters, trimming, case mapping, decimal numbers;
  - `duration` — reading typed durations (`30`, `1h20m`) and writing short labels;
  - `license` — signed Pro license keys (HMAC-SHA256);
  - `power` — actions and their conditions;
  - `conditions` — evaluating the conditions, matching process names;
  - `names` — the sorted list of process names;
  - `settings` — settings, profiles, history;
  - `schedule` — the scheduled action and the commands of the interface;
  - `tick` — one second of the timer;
  - `i18n` — French and English texts.
- `app/` — the application around it: settings file, system readings, power actions on
  Windows, the commands and the ticker.
- `tests/` — tests of the library.
