use stackql_deploy::context::Context;

#[test]
fn test_add_and_get_variable() {
    let mut context = Context::new();
    context.add_variable("name".to_string(), "Value".to_string());

    assert_eq!(context.get_variable("name"), Some(&"Value".to_string()));
    assert_eq!(context.get_variable("nonexistent"), None);
}

#[test]
fn test_has_variable() {
    let mut context = Context::new();
    context.add_variable("name".to_string(), "Value".to_string());

    assert!(context.has_variable("name"));
    assert!(!context.has_variable("nonexistent"));
}

#[test]
fn test_remove_variable() {
    let mut context = Context::new();
    context.add_variable("name".to_string(), "Value".to_string());

    let removed = context.remove_variable("name");
    assert_eq!(removed, Some("Value".to_string()));
    assert!(!context.has_variable("name"));

    let nonexistent = context.remove_variable("nonexistent");
    assert_eq!(nonexistent, None);
}

#[test]
fn test_context_merge() {
    let mut context1 = Context::new();
    context1.add_variable("var1".to_string(), "Value1".to_string());
    context1.add_variable("common".to_string(), "OriginalValue".to_string());

    let mut context2 = Context::new();
    context2.add_variable("var2".to_string(), "Value2".to_string());
    context2.add_variable("common".to_string(), "NewValue".to_string());

    context1.merge(&context2);

    assert_eq!(context1.get_variable("var1"), Some(&"Value1".to_string()));
    assert_eq!(context1.get_variable("var2"), Some(&"Value2".to_string()));
    assert_eq!(context1.get_variable("common"), Some(&"NewValue".to_string()));
}

#[test]
fn test_merged_with() {
    let mut context1 = Context::new();
    context1.add_variable("var1".to_string(), "Value1".to_string());

    let mut context2 = Context::new();
    context2.add_variable("var2".to_string(), "Value2".to_string());

    let merged = context1.merged_with(&context2);

    assert_eq!(context1.get_variable("var1"), Some(&"Value1".to_string()));
    assert_eq!(context1.get_variable("var2"), None);
    assert_eq!(context2.get_variable("var1"), None);
    assert_eq!(context2.get_variable("var2"), Some(&"Value2".to_string()));

    assert_eq!(merged.get_variable("var1"), Some(&"Value1".to_string()));
    assert_eq!(merged.get_variable("var2"), Some(&"Value2".to_string()));
}

#[test]
fn test_with_initial_variables() {
    let variables = vec![
        ("var1".to_string(), "Value1".to_string()),
        ("var2".to_string(), "Value2".to_string()),
    ];

    let context = Context::with_variables(variables);

    assert_eq!(context.get_variable("var1"), Some(&"Value1".to_string()));
    assert_eq!(context.get_variable("var2"), Some(&"Value2".to_string()));
}

#[test]
fn test_add_built_ins() {
    let mut context = Context::new();
    context.add_built_ins();

    assert!(context.has_variable("current_date"));
    assert!(context.has_variable("current_time"));
    assert!(context.has_variable("current_datetime"));
    assert!(context.has_variable("uuid"));
}

#[test]
fn built_in_uuid_is_hyphenated() {
    let mut context = Context::new();
    context.add_built_ins();
    let id = context.get_variable("uuid").unwrap();
    assert_eq!(id.len(), 36);
    assert_eq!(id.matches('-').count(), 4);
    let date = context.get_variable("current_date").unwrap();
    assert_eq!(date.len(), 10);
}

#[test]
fn later_pair_wins_in_initial_variables() {
    let context = Context::with_variables(vec![
        ("a".to_string(), "1".to_string()),
        ("a".to_string(), "2".to_string()),
    ]);
    assert_eq!(context.get_variable("a"), Some(&"2".to_string()));
    assert_eq!(context.get_variables().len(), 1);
}

#[test]
fn child_context_is_independent() {
    let mut parent = Context::new();
    parent.add_variable("x".to_string(), "1".to_string());
    let mut child = parent.create_child();
    child.add_variable("x".to_string(), "2".to_string());
    assert_eq!(parent.get_variable("x"), Some(&"1".to_string()));
    assert_eq!(child.get_variable("x"), Some(&"2".to_string()));
}
