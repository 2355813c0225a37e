use stackql_deploy::condition::evaluate_simple_condition;
use stackql_deploy::config::{
    evaluate_condition, get_full_context, parse_env_var, prepare_query_context, render_globals,
    render_properties, render_string_value, render_value, to_sql_compatible_json, ConfigError,
};
use stackql_deploy::context::Context;
use stackql_deploy::engine::TemplateEngine;
use stackql_deploy::manifest::{GlobalVar, Manifest, ManifestValue, Property, PropertyValue};

fn err<T>(r: Result<T, ConfigError>) -> ConfigError {
    match r {
        Err(e) => e,
        Ok(_) => panic!("expected an error"),
    }
}

fn prop(name: &str, value: &str, merge: Option<Vec<&str>>) -> Property {
    Property {
        name: name.to_string(),
        value: Some(ManifestValue::Str(value.to_string())),
        values: None,
        description: String::new(),
        merge: merge.map(|m| m.into_iter().map(|s| s.to_string()).collect()),
    }
}

#[test]
fn merge_unites_arrays_in_order_without_repeats() {
    let engine = TemplateEngine::new();
    let mut global = Context::new();
    global.add_variable("a".to_string(), "[\"y\"]".to_string());
    global.add_variable("b".to_string(), "[\"x\",\"z\"]".to_string());
    let props = vec![prop("tags", "[\"x\"]", Some(vec!["a", "b"]))];
    let out = render_properties(&engine, &props, &global, "dev").unwrap();
    assert_eq!(out.get_variable("tags"), Some(&"[\"x\",\"y\",\"z\"]".to_string()));
}

#[test]
fn merge_overlays_objects_right_wins() {
    let engine = TemplateEngine::new();
    let mut global = Context::new();
    global.add_variable("extra".to_string(), "{\"b\": 3, \"c\": 4}".to_string());
    let props = vec![prop("obj", "{\"a\": 1, \"b\": 2}", Some(vec!["extra"]))];
    let out = render_properties(&engine, &props, &global, "dev").unwrap();
    assert_eq!(out.get_variable("obj"), Some(&"{\"a\":1,\"b\":3,\"c\":4}".to_string()));
}

#[test]
fn merge_errors() {
    let engine = TemplateEngine::new();
    let mut global = Context::new();
    global.add_variable("o".to_string(), "{\"k\": 1}".to_string());
    global.add_variable("bad".to_string(), "not json".to_string());
    let props = vec![prop("p", "[1]", Some(vec!["o"]))];
    assert_eq!(
        err(render_properties(&engine, &props, &global, "dev")),
        ConfigError::MergeTypeMismatch("p".to_string())
    );
    let props = vec![prop("p", "[1]", Some(vec!["missing"]))];
    assert_eq!(
        err(render_properties(&engine, &props, &global, "dev")),
        ConfigError::MergeSourceMissing("missing".to_string())
    );
    let props = vec![prop("p", "[1]", Some(vec!["bad"]))];
    assert_eq!(
        err(render_properties(&engine, &props, &global, "dev")),
        ConfigError::MergeSourceInvalid("bad".to_string())
    );
}

#[test]
fn missing_environment_value_is_an_error() {
    let engine = TemplateEngine::new();
    let global = Context::new();
    let props = vec![Property {
        name: "size".to_string(),
        value: None,
        values: Some(vec![("prod".to_string(), PropertyValue { value: ManifestValue::Number("3".to_string()) })]),
        description: String::new(),
        merge: None,
    }];
    assert_eq!(
        err(render_properties(&engine, &props, &global, "dev")),
        ConfigError::MissingPropertyValue("size".to_string())
    );
    let out = render_properties(&engine, &props, &global, "prod").unwrap();
    assert_eq!(out.get_variable("size"), Some(&"3".to_string()));
}

#[test]
fn later_properties_see_earlier_ones() {
    let engine = TemplateEngine::new();
    let mut global = Context::new();
    global.add_variable("region".to_string(), "us-east-1".to_string());
    let props = vec![prop("zone", "{{ region }}a", None), prop("label", "{{ zone }}-web", None)];
    let full = get_full_context(&engine, &global, &props, "dev").unwrap();
    assert_eq!(full.get_variable("label"), Some(&"us-east-1a-web".to_string()));
    assert_eq!(full.get_variable("region"), Some(&"us-east-1".to_string()));
}

#[test]
fn globals_render_in_order_and_reject_empty() {
    let engine = TemplateEngine::new();
    let mut vars = Context::new();
    vars.add_variable("AWS_REGION".to_string(), "eu-west-1".to_string());
    let mut manifest = Manifest {
        version: 1,
        name: "s".to_string(),
        description: String::new(),
        providers: vec!["aws".to_string()],
        globals: vec![
            GlobalVar { name: "region".to_string(), value: ManifestValue::Str("{{ AWS_REGION }}".to_string()), description: String::new() },
            GlobalVar { name: "flag".to_string(), value: ManifestValue::Str("True".to_string()), description: String::new() },
            GlobalVar { name: "where".to_string(), value: ManifestValue::Str("{{ region }}/{{ stack_env }}".to_string()), description: String::new() },
        ],
        resources: Vec::new(),
        exports: Vec::new(),
    };
    let g = render_globals(&engine, &vars, &manifest, "dev", "s").unwrap();
    assert_eq!(g.get_variable("region"), Some(&"eu-west-1".to_string()));
    assert_eq!(g.get_variable("flag"), Some(&"true".to_string()));
    assert_eq!(g.get_variable("where"), Some(&"eu-west-1/dev".to_string()));
    assert_eq!(g.get_variable("stack_name"), Some(&"s".to_string()));
    manifest.globals.push(GlobalVar { name: "e".to_string(), value: ManifestValue::Null, description: String::new() });
    assert_eq!(
        err(render_globals(&engine, &vars, &manifest, "dev", "s")),
        ConfigError::EmptyGlobal("e".to_string())
    );
}

#[test]
fn structured_values_render_as_compact_json() {
    let engine = TemplateEngine::new();
    let mut ctx = Context::new();
    ctx.add_variable("n".to_string(), "web".to_string());
    let v = ManifestValue::List(vec![
        ManifestValue::Str("{{ n }}".to_string()),
        ManifestValue::Number("5".to_string()),
        ManifestValue::Mapping(vec![("k".to_string(), ManifestValue::Bool(true))]),
    ]);
    assert_eq!(render_value(&engine, &v, &ctx), "[\"web\",5,{\"k\":true}]");
}

#[test]
fn string_rendering_lowercases_booleans_and_keeps_failures() {
    let engine = TemplateEngine::new();
    let mut ctx = Context::new();
    ctx.add_variable("x".to_string(), "True".to_string());
    assert_eq!(render_string_value(&engine, "{{ x }} and False", &ctx), "true and false");
    assert_eq!(render_string_value(&engine, "{{ missing }}", &ctx), "{{ missing }}");
    assert_eq!(to_sql_compatible_json("True"), "true");
    assert_eq!(to_sql_compatible_json("False"), "false");
    assert_eq!(to_sql_compatible_json("Truex"), "Truex");
}

#[test]
fn query_context_compacts_json() {
    let mut ctx = Context::new();
    ctx.add_variable("j".to_string(), "{ \"a\" : [1, 2] }".to_string());
    ctx.add_variable("s".to_string(), "plain".to_string());
    let q = prepare_query_context(&ctx);
    assert_eq!(q.get_variable("j"), Some(&"{\"a\":[1,2]}".to_string()));
    assert_eq!(q.get_variable("s"), Some(&"plain".to_string()));
}

#[test]
fn conditions() {
    assert_eq!(evaluate_simple_condition("true"), Some(true));
    assert_eq!(evaluate_simple_condition(" False "), Some(false));
    assert_eq!(evaluate_simple_condition("'dev' == 'dev'"), Some(true));
    assert_eq!(evaluate_simple_condition("'dev' == \"prod\""), Some(false));
    assert_eq!(evaluate_simple_condition("'dev' != 'prod'"), Some(true));
    assert_eq!(evaluate_simple_condition("'b' in ['a', 'b']"), Some(true));
    assert_eq!(evaluate_simple_condition("'c' in ['a', 'b']"), Some(false));
    assert_eq!(evaluate_simple_condition("'c' not in ['a', 'b']"), Some(true));
    assert_eq!(evaluate_simple_condition("maybe"), None);
    let engine = TemplateEngine::new();
    let mut ctx = Context::new();
    ctx.add_variable("stack_env".to_string(), "prod".to_string());
    assert_eq!(evaluate_condition(&engine, "'{{ stack_env }}' == 'prod'", &ctx), Some(true));
}

#[test]
fn env_overrides() {
    assert_eq!(parse_env_var("A=b=c"), Some(("A".to_string(), "b=c".to_string())));
    assert_eq!(parse_env_var("novalue"), None);
    assert_eq!(parse_env_var("E="), Some(("E".to_string(), String::new())));
}
