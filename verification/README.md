# jcode_desktop_core

The decision logic of the Jcode desktop shell as a Verus-verified library,
with a thin command-line program around it.

`src/` (verified):

- `args`, `process` — command-line flags, app mode and process role.
- `keys` — the key binding table and the host/worker wire form of key presses.
- `events` — session events, their wire form, and batch statistics.
- `worker` — numbered, one-line framing of host/worker messages and the frame reader.
- `worker_loop` — the app worker's protocol loop: what it answers to each host frame
  and how it numbers its frames.
- `worker_host` — the host side: what a drain of the worker's messages yields and
  when the worker is dropped.
- `smoke` — the headless chat smoke run: what it prints for each session event and
  when it succeeds or fails.
- `issue_cache`, `issue_sync`, `ranking` — the GitHub issue cache: remote parsing,
  priority and score, the ranked browser, and refreshing the cache from `gh` output.
- `reload` — hot-reload handoff: window placement round trip, relaunch arguments,
  handoff polling and the reload timer.
- `profiling`, `schedule`, `bench` — frame profiling, the no-paint watchdog,
  redraw and buffer scheduling rules, benchmark budgets.
- `capture`, `clipboard`, `hero`, `jobs`, `simulator` — capture requests and help
  text, clipboard text and images (PNG via `image`, base64 via `base64`), hero
  glyph bounds, the background job bound, the stream simulator's chunking.
- `text`, `branding` — character-level helpers and product names.

`app/` holds the program: file and process I/O, the `gh` runner, JSON
(de)serialisation of the cache, threads and pipes, and the outer loops of the
worker process and the smoke run.
