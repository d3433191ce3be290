# faster-cli

Measure the speed of your internet connection from the terminal:

```
$ fast
Latency    204.6 ms (±20.5 ms jitter)
Download   3.8 Mbps
Upload     9.9 Mbps
```

## Layout

- `src/` is the `faster_cli` library, verified with Verus. It holds every
  decision a measurement makes: the units and the exact arithmetic of rates,
  the parsing of the server's trace, the latency summary (median and jitter),
  the supervision of a transfer phase (when to open a connection, when a
  reading is settled, when to stop, when to give up on a failing connection),
  the order of the phases, and all the text that is shown.
- `app/` is the `fast` program around it: argument parsing, the HTTP requests
  and TCP probes, the waiting, the terminal and the JSON printing.
- `tests/` exercises the library on concrete values.

Rates are kept as the exact ratio of bytes to nanoseconds that produced
them, so every digit shown is the measured ratio rounded once: half to even
for the human output, half away from zero to two decimals for `--json`.

## Usage

```bash
fast                  # latency, download and upload
fast --download-only  # skip the upload phase
fast --json           # one JSON object, for scripts
fast --verbose        # also show which server answered
```

Exit codes are `0` on success, `1` on failure, `2` for a bad argument and
`130` if you interrupt it with ctrl-c.
