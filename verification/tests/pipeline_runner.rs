use tempest::pipeline::pipeline_runner::resolve_worker_count;

#[test]
fn files_are_serial_by_default() {
    assert_eq!(resolve_worker_count(None, None, Some(8)), 1);
    assert_eq!(resolve_worker_count(Some(false), None, Some(8)), 1);
}

#[test]
fn cli_worker_limit_overrides_configuration() {
    let workers = 3;

    assert_eq!(resolve_worker_count(Some(false), Some(workers), Some(8)), 3);
    assert_eq!(resolve_worker_count(Some(true), Some(workers), Some(8)), 3);
}

#[test]
fn configured_concurrency_uses_available_parallelism() {
    assert_eq!(resolve_worker_count(Some(true), None, Some(6)), 6);
    assert_eq!(resolve_worker_count(Some(true), None, None), 1);
}
