# rstress

`rstress` is an HTTP load tester: it sends requests at a configured total rate, split
over several processes, and reports request counts, status codes, transport errors and
latency quantiles.

The library in `src/` holds the logic of the tool with its contracts, checked by Verus:

- `redact`, `config`: the configuration, and its redacted form for reports (credential
  query parameters and headers masked), with laws on the redaction.
- `metrics`, `kinds`, `histogram`: the counters of a run, recording and merging, the
  latency histogram (`hdrhistogram`) behind trusted wrappers, and quantiles.
- `schedule`: how the rate is split over workers (with the law that the shares add up),
  the process-count check, the run plan and the per-request decisions of a worker.
- `request`, `http`: the request a worker sends and the settings of its HTTP client
  (`reqwest`).
- `format`: the console text (configuration, summaries) and report file names.
- `text`, `status`, `cli`: helpers on characters, status classes and the command line.

`app/` is the program around it: argument parsing (`clap`), reading the YAML/TOML file
(`serde`), the asynchronous worker loop (`tokio`, `reqwest`), spawning processes, and
printing and writing the JSON reports, where floating point is used.
