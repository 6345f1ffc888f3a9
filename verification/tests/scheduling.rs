use tempest::models::{Descriptor, RunOptions, TestSpec};
use tempest::pipeline::file_scheduler::FileScheduler;
use tempest::templating::LiquidEngine;

fn root(path: &str) -> Descriptor {
    let mut d = Descriptor::named(Some(path.to_string()));
    d.test = Some(TestSpec::default());
    d.file = Some(path.to_string());
    d
}

#[test]
fn scheduling_assigns_contiguous_discovery_ordinals() {
    let roots = [root("b.spec.yml"), root("a.spec.yml")];
    let envs: Vec<(String, String)> = Vec::new();
    let engine = LiquidEngine::with_stdlib();
    let suite_path = ".";
    let mut scheduler = FileScheduler::new();

    for root in &roots {
        scheduler.schedule(root, &envs, RunOptions::default(), &engine, suite_path);
    }

    assert_eq!(
        scheduler
            .jobs()
            .iter()
            .map(|job| (job.ordinal, job.root.file.as_deref()))
            .collect::<Vec<_>>(),
        vec![(0, Some("b.spec.yml")), (1, Some("a.spec.yml")),]
    );
}
