use stackql_deploy::executor::run_test;
use stackql_deploy::queries::{QueryOptions, QueryType};
use stackql_deploy::reconciler::{
    get_resource_type, select_strategy, teardown_order, AnchorPlan, BuildMachine, Config,
    DeleteMachine, DeleteStatus, Event, ExportSource, ReconcileError, ResourceKind, Step, Strategy,
    TeardownTask, TestMachine,
};
use stackql_deploy::strmap::StrMap;

fn opts() -> Option<QueryOptions> {
    Some(QueryOptions::default())
}

fn empty_plan() -> AnchorPlan {
    AnchorPlan {
        exists: None,
        create: None,
        update: None,
        createorupdate: None,
        statecheck: None,
        exports: None,
        delete: None,
        command: None,
    }
}

fn cfg(plan: AnchorPlan, dry_run: bool, has_exports: bool) -> Config {
    Config { plan, multi: false, skip_validation: false, dry_run, has_exports }
}

fn count_rows(n: &str) -> Vec<StrMap> {
    let mut m = StrMap::new();
    m.insert("count".to_string(), n.to_string());
    vec![m]
}

fn is_statement(s: &Step) -> bool {
    matches!(s, Step::Probe { .. } | Step::Fetch { .. } | Step::Mutate { .. })
}

#[test]
fn missing_anchors_fail_before_any_statement() {
    let mut plan = empty_plan();
    plan.create = opts();
    let mut m = BuildMachine::new(cfg(plan, false, false));
    assert!(matches!(m.step(Event::Begin), Step::Fail(ReconcileError::MissingAnchors)));
    assert_eq!(select_strategy(&plan), None);
}

#[test]
fn scenario_net_is_created_then_left_alone() {
    let mut plan = empty_plan();
    plan.exists = opts();
    plan.create = opts();
    plan.statecheck = opts();
    // first build: the probe counts 0, so the resource is created and checked
    let mut m = BuildMachine::new(cfg(plan, false, false));
    assert!(matches!(m.step(Event::Begin), Step::Probe { anchor: QueryType::Exists, .. }));
    let exists = run_test(&count_rows("0"), false);
    assert!(matches!(m.step(Event::Checked(exists)), Step::Mutate { anchor: QueryType::Create, .. }));
    assert!(matches!(m.step(Event::Mutated), Step::Probe { anchor: QueryType::StateCheck, .. }));
    let correct = run_test(&count_rows("1"), false);
    assert!(matches!(m.step(Event::Checked(correct)), Step::Done(ExportSource::Nothing)));
    // second build: the probe counts 1 and the state check agrees
    let mut m = BuildMachine::new(cfg(plan, false, false));
    assert!(matches!(m.step(Event::Begin), Step::Probe { anchor: QueryType::Exists, .. }));
    let exists = run_test(&count_rows("1"), false);
    assert!(matches!(m.step(Event::Checked(exists)), Step::Probe { anchor: QueryType::StateCheck, .. }));
    assert!(matches!(m.step(Event::Checked(true)), Step::Done(ExportSource::Nothing)));
}

#[test]
fn proxy_rows_are_reused_for_exports() {
    let mut plan = empty_plan();
    plan.exports = opts();
    plan.create = opts();
    let mut m = BuildMachine::new(cfg(plan, false, true));
    assert!(matches!(m.step(Event::Begin), Step::Fetch { anchor: QueryType::Exports, retries: 1, delay: 0 }));
    let mut row = StrMap::new();
    row.insert("vpc_id".to_string(), "vpc-123".to_string());
    match m.step(Event::Fetched(vec![row])) {
        Step::Done(ExportSource::Rows(rows)) => {
            assert_eq!(rows.len(), 1);
            assert_eq!(rows[0].get("vpc_id"), Some(&"vpc-123".to_string()));
        }
        _ => panic!("expected the proxy rows"),
    }
}

#[test]
fn createorupdate_runs_once_without_probes() {
    let mut plan = empty_plan();
    plan.createorupdate = opts();
    plan.statecheck = opts();
    plan.exports = opts();
    let mut m = BuildMachine::new(cfg(plan, false, true));
    assert!(matches!(m.step(Event::Begin), Step::Mutate { anchor: QueryType::CreateOrUpdate, .. }));
    let next = m.step(Event::Mutated);
    assert!(matches!(next, Step::Fetch { anchor: QueryType::Exports, .. }));
    let mut row = StrMap::new();
    row.insert("id".to_string(), "1".to_string());
    assert!(matches!(m.step(Event::Fetched(vec![row])), Step::Done(ExportSource::Rows(_))));
    assert_eq!(select_strategy(&plan), Some(Strategy::Upsert));
}

#[test]
fn dry_run_build_sends_nothing() {
    let mut plan = empty_plan();
    plan.exists = opts();
    plan.create = opts();
    plan.statecheck = opts();
    plan.exports = opts();
    let mut m = BuildMachine::new(cfg(plan, true, true));
    let mut step = m.step(Event::Begin);
    let mut n = 0;
    while let Step::Preview { .. } = step {
        assert!(!is_statement(&step));
        step = m.step(Event::Previewed);
        n += 1;
        assert!(n < 10);
    }
    assert!(matches!(step, Step::Done(ExportSource::Placeholders)));
}

#[test]
fn test_run_is_read_only_and_repeatable() {
    let mut plan = empty_plan();
    plan.statecheck = opts();
    plan.exports = opts();
    plan.create = opts();
    for _ in 0..2 {
        let mut t = TestMachine::new(cfg(plan, false, true));
        let s = t.step(Event::Begin);
        assert!(matches!(s, Step::Probe { anchor: QueryType::StateCheck, .. }));
        let s = t.step(Event::Checked(true));
        assert!(matches!(s, Step::Fetch { anchor: QueryType::Exports, .. }));
        let mut row = StrMap::new();
        row.insert("id".to_string(), "7".to_string());
        match t.step(Event::Fetched(vec![row])) {
            Step::Done(ExportSource::Rows(r)) => assert_eq!(r[0].get("id"), Some(&"7".to_string())),
            _ => panic!("expected exports"),
        }
    }
    let mut t = TestMachine::new(cfg(plan, false, true));
    t.step(Event::Begin);
    assert!(matches!(t.step(Event::Checked(false)), Step::Fail(ReconcileError::NotDesiredState)));
}

#[test]
fn teardown_reverses_manifest_order() {
    let kinds = vec![ResourceKind::Resource, ResourceKind::Resource, ResourceKind::Resource];
    assert_eq!(
        teardown_order(&kinds),
        vec![
            TeardownTask::Collect(0),
            TeardownTask::Collect(1),
            TeardownTask::Collect(2),
            TeardownTask::Delete(2),
            TeardownTask::Delete(1),
            TeardownTask::Delete(0),
        ]
    );
    let mixed = vec![ResourceKind::Query, ResourceKind::Multi, ResourceKind::Script];
    assert_eq!(
        teardown_order(&mixed),
        vec![
            TeardownTask::Collect(0),
            TeardownTask::Collect(1),
            TeardownTask::Delete(1),
            TeardownTask::Delete(0),
        ]
    );
}

#[test]
fn deletion_is_confirmed() {
    let mut plan = empty_plan();
    plan.exists = Some(QueryOptions { retries: 1, retry_delay: 0, postdelete_retries: 10, postdelete_retry_delay: 5 });
    plan.delete = opts();
    let mut d = DeleteMachine::new(cfg(plan, false, false));
    assert!(matches!(d.step(Event::Begin), Step::Probe { anchor: QueryType::Exists, delete_test: false, .. }));
    assert!(matches!(d.step(Event::Checked(true)), Step::Mutate { anchor: QueryType::Delete, .. }));
    assert!(matches!(
        d.step(Event::Mutated),
        Step::Probe { anchor: QueryType::Exists, retries: 10, delay: 5, delete_test: true }
    ));
    assert!(matches!(d.step(Event::Checked(false)), Step::Fail(ReconcileError::DeleteFailed)));
    let mut none = DeleteMachine::new(cfg(empty_plan(), false, false));
    assert!(matches!(none.step(Event::Begin), Step::Removed(DeleteStatus::NoDeleteQuery)));
}

#[test]
fn resource_types() {
    assert_eq!(get_resource_type("multi"), Some(ResourceKind::Multi));
    assert_eq!(get_resource_type("thing"), None);
}
