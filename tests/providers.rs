use stackql_deploy::errors::{get_binary_path_with_error, AppError};
use stackql_deploy::globals::{connection_string, init_globals, server_host, server_port};
use stackql_deploy::num::decimal;
use stackql_deploy::providers::{is_version_higher, providers_to_pull};
use stackql_deploy::strmap::StrMap;

fn installed(name: &str, version: &str) -> StrMap {
    let mut m = StrMap::new();
    m.insert("name".to_string(), name.to_string());
    m.insert("version".to_string(), version.to_string());
    m
}

#[test]
fn versions_compare_as_numbers() {
    assert!(is_version_higher("v24.07.00250", "v24.07.00244"));
    assert!(!is_version_higher("v24.07.00244", "v24.07.00244"));
    assert!(is_version_higher("v1", "junk"));
}

#[test]
fn only_missing_providers_are_pulled() {
    let rows = vec![installed("aws", "v24.07.00250"), installed("google", "v23.01.00100")];
    let wanted = vec![
        "aws::v24.07.00244".to_string(),
        "google::v24.01.00100".to_string(),
        "azure".to_string(),
        "aws".to_string(),
    ];
    assert_eq!(
        providers_to_pull(&rows, &wanted),
        vec!["google::v24.01.00100".to_string(), "azure".to_string()]
    );
}

#[test]
fn connection_string_names_host_and_port() {
    let s = init_globals("localhost".to_string(), 5444);
    assert_eq!(server_host(&s), "localhost");
    assert_eq!(server_port(&s), 5444);
    assert_eq!(
        connection_string(&s),
        "host=localhost port=5444 user=stackql dbname=stackql application_name=stackql"
    );
    assert_eq!(decimal(0), "0");
    assert_eq!(decimal(18446744073709551615), "18446744073709551615");
}

#[test]
fn missing_binary_is_an_error() {
    assert_eq!(get_binary_path_with_error(None), Err(AppError::BinaryNotFound));
    assert_eq!(get_binary_path_with_error(Some("/usr/bin/stackql".to_string())), Ok("/usr/bin/stackql".to_string()));
}
