# streaming_data_loader

The core of the Streaming Data Loader: a daemon that watches CSV files written
by loggers and instruments and loads their new rows into HydroServer
datastreams.

`src/` is the library, verified with Verus. It holds everything the daemon
decides:

- `models`, `records`, `config_store`: job settings and their normalization,
  per-datastream upload cursors and the job aggregates derived from them, and
  the store of workspaces and jobs with the effect of every command on it.
- `timestamp`, `csv_preview`, `pipeline`: timestamp parsing in every timezone
  mode, file previews with delimiter, header and data-row detection, and the
  scan of a file into observations that only ever returns rows not yet
  uploaded.
- `uploader`, `hydroserver`, `datastreams`, `json`: batching, payloads,
  retries and conflict reconciliation; what each HydroServer answer means; the
  datastream listings and their cache; the session token cache.
- `service`, `service_paths`, `daemon_api`, `daemon_launcher`, `runtime`,
  `commands`, `logging`, `state_files`, `job_logs`: service files and status on
  each platform, configuration folders, the local API's token and endpoint
  file, the answers to interface commands, log plans and crash-safe state
  files.

Each public function states its result in its `ensures`; the properties that
span several functions are public proof functions named `lemma_*`.

`app/` is the daemon itself: file and network I/O, the watcher, the timers, the
HTTP server and the JSON forms of the records. `tests/` runs the library on
concrete inputs.
