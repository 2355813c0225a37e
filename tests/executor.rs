use stackql_deploy::executor::{
    build_rows, check_exports_as_statecheck_proxy, error_detected_in_notice, prepare_command,
    rewrite_registry_pull_with, run_test, CommandRetry, CommandStep, EngineResponse, ExecFailure,
    ProbeRetry, ProbeStep, QueryRetry, QueryStep,
};
use stackql_deploy::strmap::StrMap;

fn data(columns: &[&str], rows: &[&[&str]]) -> EngineResponse {
    EngineResponse::Data {
        columns: columns.iter().map(|s| s.to_string()).collect(),
        rows: rows.iter().map(|r| r.iter().map(|s| s.to_string()).collect()).collect(),
        notices: Vec::new(),
    }
}

fn row(pairs: &[(&str, &str)]) -> StrMap {
    let mut m = StrMap::new();
    for (k, v) in pairs {
        m.insert(k.to_string(), v.to_string());
    }
    m
}

#[test]
fn count_of_two_is_fatal_at_any_attempt() {
    let mut last = QueryRetry::new(0, true);
    match last.step(data(&["count"], &[&["2"]])) {
        QueryStep::Fatal(ExecFailure::Cardinality(2)) => {}
        _ => panic!("expected a cardinality failure"),
    }
    let mut early = QueryRetry::new(5, true);
    match early.step(data(&["count"], &[&["2"]])) {
        QueryStep::Fatal(ExecFailure::Cardinality(2)) => {}
        _ => panic!("expected a cardinality failure"),
    }
}

#[test]
fn empty_results_are_retried_then_returned() {
    let mut q = QueryRetry::new(1, false);
    assert!(matches!(q.step(EngineResponse::Empty), QueryStep::Retry));
    match q.step(data(&["id"], &[])) {
        QueryStep::Rows(r) => assert!(r.is_empty()),
        _ => panic!("expected rows"),
    }
}

#[test]
fn suppressed_error_becomes_marker_row() {
    let mut q = QueryRetry::new(0, true);
    match q.step(EngineResponse::Failure("boom".to_string())) {
        QueryStep::Rows(r) => {
            assert_eq!(r.len(), 1);
            assert_eq!(r[0].get("_stackql_deploy_error"), Some(&"boom".to_string()));
        }
        _ => panic!("expected a marker row"),
    }
    let mut q = QueryRetry::new(0, false);
    assert!(matches!(q.step(EngineResponse::Failure("boom".to_string())), QueryStep::Fatal(ExecFailure::QueryException(_))));
}

#[test]
fn error_row_is_retried_then_fatal() {
    let mut q = QueryRetry::new(1, false);
    assert!(matches!(q.step(data(&["error"], &[&["bad"]])), QueryStep::Retry));
    match q.step(data(&["error"], &[&["bad"]])) {
        QueryStep::Fatal(ExecFailure::QueryError(m)) => assert_eq!(m, "bad"),
        _ => panic!("expected a query error"),
    }
}

#[test]
fn rows_keep_columns_and_fill_null() {
    let rows = build_rows(&vec!["a".to_string(), "b".to_string()], &vec![vec!["1".to_string()]]);
    assert_eq!(rows[0].get("a"), Some(&"1".to_string()));
    assert_eq!(rows[0].get("b"), Some(&"NULL".to_string()));
}

#[test]
fn command_errors_retry_and_ignored_errors_succeed() {
    let notice = EngineResponse::Data {
        columns: Vec::new(),
        rows: Vec::new(),
        notices: vec!["http response status code: 404".to_string()],
    };
    let mut c = CommandRetry::new(1, false);
    assert!(matches!(c.step(notice), CommandStep::Retry));
    match c.step(EngineResponse::Failure("down".to_string())) {
        CommandStep::Fatal(ExecFailure::CommandException(m)) => assert_eq!(m, "down"),
        _ => panic!("expected an exception"),
    }
    let mut ignoring = CommandRetry::new(3, true);
    match ignoring.step(EngineResponse::Failure("down".to_string())) {
        CommandStep::Done(m) => assert_eq!(m, ""),
        _ => panic!("expected success"),
    }
    let mut ok = CommandRetry::new(0, false);
    match ok.step(EngineResponse::Data { columns: Vec::new(), rows: Vec::new(), notices: vec!["a".to_string(), "b".to_string()] }) {
        CommandStep::Done(m) => assert_eq!(m, "a\nb"),
        _ => panic!("expected success"),
    }
}

#[test]
fn notice_patterns() {
    assert!(error_detected_in_notice("error: nope"));
    assert!(error_detected_in_notice("http response status code: 500, x"));
    assert!(error_detected_in_notice("cannot find matching operation foo"));
    assert!(!error_detected_in_notice("ok"));
}

#[test]
fn registry_pull_is_rewritten() {
    assert_eq!(prepare_command("REGISTRY PULL aws::v24.07.00244"), "REGISTRY PULL aws v24.07.00244");
    assert_eq!(prepare_command("REGISTRY PULL google"), "REGISTRY PULL google");
    assert_eq!(prepare_command("SELECT 1"), "SELECT 1");
    assert_eq!(
        rewrite_registry_pull_with("x", Some(("REGISTRY PULL aws".to_string(), Some("::v1.2".to_string())))),
        "REGISTRY PULL aws v1.2"
    );
}

#[test]
fn probe_verdicts() {
    assert!(run_test(&vec![row(&[("count", "1")])], false));
    assert!(!run_test(&vec![row(&[("count", "0")])], false));
    assert!(run_test(&vec![row(&[("count", "0")])], true));
    assert!(run_test(&Vec::new(), true));
    assert!(!run_test(&Vec::new(), false));
    assert!(run_test(&vec![row(&[("id", "x")])], false));
    assert!(!run_test(&vec![row(&[("error", "x")])], false));
}

#[test]
fn probe_retries_until_positive() {
    let mut p = ProbeRetry::new(2, false);
    assert!(matches!(p.first(), ProbeStep::Query));
    assert!(matches!(p.observe(&vec![row(&[("count", "0")])]), ProbeStep::Wait));
    assert!(matches!(p.observe(&vec![row(&[("count", "0")])]), ProbeStep::Done(false)));
    let none = ProbeRetry::new(0, false);
    assert!(matches!(none.first(), ProbeStep::Done(false)));
}

#[test]
fn proxy_check() {
    assert!(check_exports_as_statecheck_proxy(&vec![row(&[("vpc_id", "v-1")])]));
    assert!(!check_exports_as_statecheck_proxy(&Vec::new()));
    assert!(!check_exports_as_statecheck_proxy(&vec![row(&[("_stackql_deploy_error", "x")])]));
}

#[test]
fn ignored_error_notice_is_an_empty_success() {
    let mut c = CommandRetry::new(3, true);
    let notice = EngineResponse::Data {
        columns: Vec::new(),
        rows: Vec::new(),
        notices: vec!["error: bad request".to_string()],
    };
    match c.step(notice) {
        CommandStep::Done(m) => assert_eq!(m, ""),
        _ => panic!("expected an empty success"),
    }
}
