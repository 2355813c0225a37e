use stackql_deploy::context::Context;
use stackql_deploy::exports::{
    apply_exports_to_context, process_raw_exports, ExportOutput,
    display_value, export_values, export_vars, get_export_names, placeholder_values,
    process_exports, process_stack_exports, reverse_exports, script_exports, ExportError,
};
use stackql_deploy::manifest::{ExportDecl, Resource};
use stackql_deploy::strmap::StrMap;

fn row() -> StrMap {
    let mut m = StrMap::new();
    m.insert("id".to_string(), "123".to_string());
    m.insert("name".to_string(), "test".to_string());
    m
}

#[test]
fn plain_and_renamed_exports() {
    let plain = vec![ExportDecl::Name("id".to_string()), ExportDecl::Name("name".to_string())];
    assert_eq!(
        export_values(&plain, &row()).unwrap(),
        vec![("id".to_string(), "123".to_string()), ("name".to_string(), "test".to_string())]
    );
    let renamed = vec![ExportDecl::Rename(vec![("id".to_string(), "vpc_id".to_string())])];
    assert_eq!(export_values(&renamed, &row()).unwrap(), vec![("vpc_id".to_string(), "123".to_string())]);
    let mixed = vec![ExportDecl::Name("id".to_string()), ExportDecl::Rename(Vec::new())];
    assert_eq!(export_values(&mixed, &row()), Err(ExportError::MixedDeclarations));
}

#[test]
fn export_results_need_one_row() {
    let decls = vec![ExportDecl::Name("id".to_string())];
    assert_eq!(process_exports(&decls, &Vec::new(), false), Err(ExportError::NoRows));
    assert_eq!(process_exports(&decls, &Vec::new(), true), Ok(Vec::new()));
    assert_eq!(process_exports(&decls, &vec![row(), row()], false), Err(ExportError::TooManyRows(2)));
    let mut bad = StrMap::new();
    bad.insert("_stackql_deploy_error".to_string(), "x".to_string());
    assert_eq!(process_exports(&decls, &vec![bad], false), Err(ExportError::QueryFailed("x".to_string())));
}

#[test]
fn exported_values_reach_the_context() {
    let mut context = Context::new();
    export_vars(&mut context, &vec![("id".to_string(), "123".to_string()), ("name".to_string(), "test".to_string())]);
    assert_eq!(context.get_variable("id").unwrap(), "123");
    assert_eq!(context.get_variable("name").unwrap(), "test");
}

#[test]
fn protected_values_are_masked() {
    let protected = vec!["secret".to_string()];
    assert_eq!(display_value("secret", "hunter2", &protected), "*******");
    assert_eq!(display_value("open", "hunter2", &protected), "hunter2");
}

#[test]
fn placeholders_for_dry_run() {
    let decls = vec![ExportDecl::Name("a".to_string()), ExportDecl::Rename(vec![("c".to_string(), "b".to_string())])];
    assert_eq!(
        placeholder_values(&decls),
        vec![("a".to_string(), "<evaluated>".to_string()), ("b".to_string(), "<evaluated>".to_string())]
    );
}

#[test]
fn stack_exports_object() {
    let mut context = Context::new();
    context.add_variable("vpc_id".to_string(), "vpc-1".to_string());
    context.add_variable("subnets".to_string(), "[\"a\", \"b\"]".to_string());
    let names = vec!["vpc_id".to_string(), "subnets".to_string(), "stack_name".to_string()];
    let text = process_stack_exports(&names, &context, "s", "dev", "1.5").unwrap();
    assert_eq!(
        text,
        "{\"elapsed_time\":\"1.5\",\"stack_env\":\"dev\",\"stack_name\":\"s\",\"subnets\":[\"a\",\"b\"],\"vpc_id\":\"vpc-1\"}"
    );
    let missing = vec!["nope".to_string()];
    assert_eq!(
        process_stack_exports(&missing, &context, "s", "dev", "1"),
        Err(ExportError::MissingVariables(vec!["nope".to_string()]))
    );
}

#[test]
fn script_output_must_hold_declared_exports() {
    let decls = vec![ExportDecl::Name("vpc_id".to_string())];
    assert_eq!(
        script_exports(&decls, "{\"vpc_id\": \"v-1\", \"extra\": \"x\"}").unwrap(),
        vec![("extra".to_string(), "x".to_string()), ("vpc_id".to_string(), "v-1".to_string())]
    );
    assert_eq!(script_exports(&decls, "{\"other\": \"1\"}"), Err(ExportError::MissingExport("vpc_id".to_string())));
    assert!(matches!(script_exports(&decls, "not json"), Err(ExportError::InvalidScriptOutput(_))));
    assert_eq!(script_exports(&Vec::new(), "garbage"), Ok(Vec::new()));
}

#[test]
fn renamed_exports_are_reversed_for_teardown() {
    let decls = vec![ExportDecl::Rename(vec![("id".to_string(), "vpc_id".to_string()), ("arn".to_string(), "vpc_arn".to_string())])];
    let mut global = Context::new();
    global.add_variable("vpc_id".to_string(), "v-1".to_string());
    let mut ctx = Context::new();
    reverse_exports(&decls, &global, &mut ctx);
    assert_eq!(ctx.get_variable("id"), Some(&"v-1".to_string()));
    assert_eq!(ctx.get_variable("arn"), None);
}

#[test]
fn export_names_one_per_declaration() {
    let decls = vec![
        ExportDecl::Name("a".to_string()),
        ExportDecl::Rename(vec![("src".to_string(), "b".to_string())]),
    ];
    assert_eq!(get_export_names(&decls), vec!["a".to_string(), "b".to_string()]);
}

#[test]
fn test_process_raw_exports() {
    let resource = Resource {
        name: "test-resource".to_string(),
        resource_type: "resource".to_string(),
        file: None,
        sql: None,
        run: None,
        props: Vec::new(),
        exports: vec![ExportDecl::Name("id".to_string()), ExportDecl::Name("name".to_string())],
        protected: vec!["id".to_string()],
        description: "".to_string(),
        condition: None,
        skip_validation: false,
        auth: None,
    };

    let columns = vec!["id".to_string(), "name".to_string()];
    let row = vec!["123".to_string(), "test".to_string()];

    let result = process_raw_exports(&resource, Some(&row), &columns, false).unwrap();

    assert_eq!(result.values.get_variables().len(), 2);
    assert_eq!(result.values.get_variable("id").unwrap(), "123");
    assert_eq!(result.values.get_variable("name").unwrap(), "test");
    assert_eq!(result.protected.len(), 1);
    assert!(result.protected.contains(&"id".to_string()));

    let dry_result = process_raw_exports(&resource, None, &columns, true).unwrap();

    assert_eq!(dry_result.values.get_variables().len(), 2);
    assert_eq!(dry_result.values.get_variable("id").unwrap(), "<dry-run-value>");
    assert_eq!(dry_result.values.get_variable("name").unwrap(), "<dry-run-value>");
}

#[test]
fn test_apply_exports_to_context() {
    let mut context = Context::new();

    let values = Context::with_variables(vec![
        ("id".to_string(), "123".to_string()),
        ("name".to_string(), "test".to_string()),
    ]);

    let exports = ExportOutput {
        values,
        protected: vec!["id".to_string()],
    };

    apply_exports_to_context(&mut context, &exports);

    assert_eq!(context.get_variable("id").unwrap(), "123");
    assert_eq!(context.get_variable("name").unwrap(), "test");
}

#[test]
fn raw_export_errors() {
    let resource = Resource {
        name: "r".to_string(),
        resource_type: "resource".to_string(),
        file: None,
        sql: None,
        run: None,
        props: Vec::new(),
        exports: vec![ExportDecl::Name("missing".to_string())],
        protected: Vec::new(),
        description: String::new(),
        condition: None,
        skip_validation: false,
        auth: None,
    };
    let columns = vec!["id".to_string()];
    assert!(matches!(process_raw_exports(&resource, Some(&vec!["1".to_string()]), &columns, false), Err(ExportError::MissingExport(_))));
    assert!(matches!(process_raw_exports(&resource, Some(&Vec::new()), &columns, false), Err(ExportError::InvalidFormat(_))));
    assert!(matches!(process_raw_exports(&resource, None, &columns, false), Err(ExportError::ProcessingFailed(_))));
}
