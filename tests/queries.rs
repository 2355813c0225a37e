use std::str::FromStr;

use stackql_deploy::cli::FailureAction;
use stackql_deploy::keyed::KeyedMap;
use stackql_deploy::queries::{
    get_queries, get_queries_as_map, parse_queries_from_content, Query, QueryOptions, QueryType,
};

fn test_query_file() -> String {
    let mut s = String::new();
    s.push_str("/*+ exists */\n");
    s.push_str("SELECT COUNT(*) as count FROM aws.ec2.vpc_tags\n");
    s.push_str("WHERE region = '{{ region }}';\n");
    s.push_str("\n");
    s.push_str("/*+ create, retries=3, retry_delay=5 */\n");
    s.push_str("INSERT INTO aws.ec2.vpcs (\n");
    s.push_str(" CidrBlock,\n");
    s.push_str(" region\n");
    s.push_str(")\n");
    s.push_str("SELECT \n");
    s.push_str(" '{{ vpc_cidr_block }}',\n");
    s.push_str(" '{{ region }}';\n");
    s
}

#[test]
fn test_parse_queries() {
    let content = test_query_file();

    let queries = parse_queries_from_content(&content).unwrap();

    assert_eq!(queries.len(), 2);
    assert!(queries.contains_key(&QueryType::Exists));
    assert!(queries.contains_key(&QueryType::Create));

    let create_query = queries.get(&QueryType::Create).unwrap();
    assert_eq!(create_query.options.retries, 3);
    assert_eq!(create_query.options.retry_delay, 5);
}

#[test]
fn test_query_type_from_str() {
    assert_eq!(QueryType::from_str("exists").unwrap(), QueryType::Exists);
    assert_eq!(QueryType::from_str("create").unwrap(), QueryType::Create);
    assert_eq!(
        QueryType::from_str("createorupdate").unwrap(),
        QueryType::CreateOrUpdate
    );
    assert_eq!(
        QueryType::from_str("statecheck").unwrap(),
        QueryType::StateCheck
    );
    assert_eq!(QueryType::from_str("exports").unwrap(), QueryType::Exports);
    assert_eq!(QueryType::from_str("delete").unwrap(), QueryType::Delete);

    assert_eq!(QueryType::from_str("EXISTS").unwrap(), QueryType::Exists);
    assert_eq!(QueryType::from_str("Create").unwrap(), QueryType::Create);

    assert_eq!(QueryType::from_str(" exists ").unwrap(), QueryType::Exists);

    assert!(QueryType::from_str("invalid").is_err());
}

#[test]
fn test_get_queries_as_map() {
    let mut queries = KeyedMap::new();
    queries.insert(
        QueryType::Exists,
        Query {
            query_type: QueryType::Exists,
            sql: "SELECT COUNT(*) FROM table".to_string(),
            options: QueryOptions::default(),
        },
    );
    queries.insert(
        QueryType::Create,
        Query {
            query_type: QueryType::Create,
            sql: "INSERT INTO table VALUES (1)".to_string(),
            options: QueryOptions::default(),
        },
    );

    let map = get_queries_as_map(&queries);

    assert_eq!(map.len(), 2);
    assert_eq!(
        map.get(&QueryType::Exists).unwrap(),
        "SELECT COUNT(*) FROM table"
    );
    assert_eq!(
        map.get(&QueryType::Create).unwrap(),
        "INSERT INTO table VALUES (1)"
    );
}

#[test]
fn fragment_text_and_defaults() {
    let queries = parse_queries_from_content(&test_query_file()).unwrap();
    let exists = queries.get(&QueryType::Exists).unwrap();
    assert_eq!(
        exists.sql,
        "SELECT COUNT(*) as count FROM aws.ec2.vpc_tags\nWHERE region = '{{ region }}';"
    );
    assert_eq!(exists.options, QueryOptions { retries: 1, retry_delay: 0, postdelete_retries: 10, postdelete_retry_delay: 5 });
}

#[test]
fn bad_option_values_are_ignored() {
    let q = parse_queries_from_content("/*+ delete, retries=x, postdelete_retries=7, a=b=c */\nDELETE FROM t\n").unwrap();
    let d = q.get(&QueryType::Delete).unwrap();
    assert_eq!(d.options.retries, 1);
    assert_eq!(d.options.postdelete_retries, 7);
}

#[test]
fn legacy_names_are_normalized() {
    let q = get_queries("/*+ preflight */\nSELECT 1\n/*+ postdeploy, retries=4 */\nSELECT 2\n").unwrap();
    assert_eq!(q.len(), 2);
    assert_eq!(q.get(&QueryType::Exists).unwrap().template, "SELECT 1");
    let sc = q.get(&QueryType::StateCheck).unwrap();
    assert_eq!(sc.template, "SELECT 2");
    assert_eq!(sc.options.retries, 4);
    assert!(!q.contains_key(&QueryType::Preflight));
}

#[test]
fn current_name_wins_over_legacy_name() {
    let q = get_queries("/*+ preflight */\nSELECT 1\n/*+ exists */\nSELECT 3\n").unwrap();
    assert_eq!(q.get(&QueryType::Exists).unwrap().template, "SELECT 3");
}

#[test]
fn unknown_anchor_opens_no_fragment() {
    let q = parse_queries_from_content("/*+ bogus */\nSELECT 1\n").unwrap();
    assert_eq!(q.len(), 0);
}

#[test]
fn failure_actions_parse_ignoring_case() {
    assert_eq!(FailureAction::from_str("Rollback"), Ok(FailureAction::Rollback));
    assert_eq!(FailureAction::from_str("error"), Ok(FailureAction::Error));
    assert_eq!(FailureAction::from_str("later"), Err("Unknown failure action: later".to_string()));
}

#[test]
fn options_do_not_carry_over_from_a_bodiless_marker() {
    let q = parse_queries_from_content("/*+ create, retries=3 */\n/*+ exists */\nSELECT 1\n").unwrap();
    assert!(!q.contains_key(&QueryType::Create));
    assert_eq!(q.get(&QueryType::Exists).unwrap().options.retries, 1);
    let q = parse_queries_from_content("/*+ bogus, retries=4 */\n/*+ delete */\nDELETE 1\n").unwrap();
    assert_eq!(q.get(&QueryType::Delete).unwrap().options.retries, 1);
}
