# tempest

The logic of an HTTP test runner, verified with Verus: test files are
validated, each file's tree of descriptors is walked depth first with its
options, loops, profiles and retries, requests are built and their replies
judged, and every report event is rendered in the order the files were
scheduled.

- `src/` is the verified library. `validation/` checks a project before a run;
  `pipeline/` holds the run itself (`file_runner.rs` is the state machine of one
  file, `report_coordinator.rs` keeps reports in order, `pipeline_runner.rs`
  schedules the files, `file_paths.rs` confines `fileBytes` paths to their root); `models.rs`, `ordering.rs` and `strings.rs` hold the
  data model and the lemmas the contracts rest on.
- `app/` drives the library: it sends the requests, evaluates CEL assertions,
  sleeps between retries and writes the reports.
- `tests/` runs the library on concrete scenarios.
