use stackql_deploy::context::Context;
use stackql_deploy::engine::{TemplateEngine, TemplateError};
use stackql_deploy::template::TemplateError as CombinedError;

#[test]
fn test_simple_variable_substitution() {
    let engine = TemplateEngine::new();
    let mut context = Context::new();
    context.add_variable("name".to_string(), "World".to_string());

    let result = engine.render("Hello {{ name }}!", &context).unwrap();
    assert_eq!(result, "Hello World!");
}

#[test]
fn test_multiple_variables() {
    let engine = TemplateEngine::new();
    let mut context = Context::new();
    context.add_variable("first".to_string(), "Hello".to_string());
    context.add_variable("second".to_string(), "World".to_string());

    let result = engine.render("{{ first }} {{ second }}!", &context).unwrap();
    assert_eq!(result, "Hello World!");
}

#[test]
fn test_variable_not_found() {
    let engine = TemplateEngine::new();
    let context = Context::new();

    let result = engine.render("Hello {{ name }}!", &context);
    assert!(result.is_err());
    match result {
        Err(TemplateError::VariableNotFound(var)) => assert_eq!(var, "name"),
        _ => panic!("Expected VariableNotFound error"),
    }
}

#[test]
fn test_unclosed_variable() {
    let engine = TemplateEngine::new();
    let mut context = Context::new();
    context.add_variable("name".to_string(), "World".to_string());

    let result = engine.render("Hello {{ name!", &context);
    assert!(result.is_err());
    match result {
        Err(TemplateError::SyntaxError(_)) => {}
        _ => panic!("Expected SyntaxError"),
    }
}

#[test]
fn test_nested_braces() {
    let engine = TemplateEngine::new();
    let mut context = Context::new();
    context.add_variable("json".to_string(), r#"{"key": "value"}"#.to_string());

    let result = engine.render("JSON: {{ json }}", &context).unwrap();
    assert_eq!(result, r#"JSON: {"key": "value"}"#);
}

#[test]
fn single_brace_is_kept() {
    let engine = TemplateEngine::new();
    let context = Context::new();
    assert_eq!(engine.render("a { b } c", &context).unwrap(), "a { b } c");
}

#[test]
fn advanced_rendering_is_refused() {
    let engine = TemplateEngine::new();
    let context = Context::new();
    match engine.render_advanced("x", &context) {
        Err(TemplateError::InvalidTemplate(m)) => assert_eq!(m, "Advanced rendering not implemented yet"),
        _ => panic!("expected InvalidTemplate"),
    }
}

#[test]
fn error_messages() {
    assert_eq!(TemplateError::VariableNotFound("x".to_string()).message(), "Variable not found: x");
    match CombinedError::other("boom") {
        CombinedError::Other(m) => assert_eq!(m, "boom"),
        _ => panic!("expected Other"),
    }
}
