use stackql_deploy::manifest::{
    ExportDecl, GlobalVar, Manifest, ManifestError, ManifestValue, Property, PropertyValue, Resource,
};

fn resource(name: &str) -> Resource {
    Resource {
        name: name.to_string(),
        resource_type: "resource".to_string(),
        file: None,
        sql: None,
        run: None,
        props: vec![Property {
            name: "vpc_cidr".to_string(),
            value: Some(ManifestValue::Str("10.0.0.0/16".to_string())),
            values: None,
            description: String::new(),
            merge: None,
        }],
        exports: Vec::new(),
        protected: Vec::new(),
        description: String::new(),
        condition: None,
        skip_validation: false,
        auth: None,
    }
}

fn test_manifest() -> Manifest {
    Manifest {
        version: 1,
        name: "test-stack".to_string(),
        description: "Test Stack".to_string(),
        providers: vec!["aws".to_string()],
        globals: vec![GlobalVar {
            name: "region".to_string(),
            value: ManifestValue::Str("us-east-1".to_string()),
            description: String::new(),
        }],
        resources: vec![resource("test-resource")],
        exports: Vec::new(),
    }
}

#[test]
fn test_find_resource() {
    let manifest = test_manifest();

    let resource = manifest.find_resource("test-resource");
    assert!(resource.is_some());
    assert_eq!(resource.unwrap().name, "test-resource");

    let nonexistent = manifest.find_resource("nonexistent");
    assert!(nonexistent.is_none());
}

#[test]
fn test_get_property_value() {
    let prop_direct = Property {
        name: "test".to_string(),
        value: Some(ManifestValue::Str("direct-value".to_string())),
        values: None,
        description: "".to_string(),
        merge: None,
    };

    assert_eq!(
        Manifest::get_property_value(&prop_direct, "any"),
        Some(&ManifestValue::Str("direct-value".to_string()))
    );

    let env_values = vec![
        ("dev".to_string(), PropertyValue { value: ManifestValue::Str("dev-value".to_string()) }),
        ("prod".to_string(), PropertyValue { value: ManifestValue::Str("prod-value".to_string()) }),
    ];

    let prop_env = Property {
        name: "test".to_string(),
        value: None,
        values: Some(env_values),
        description: "".to_string(),
        merge: None,
    };

    assert_eq!(
        Manifest::get_property_value(&prop_env, "dev"),
        Some(&ManifestValue::Str("dev-value".to_string()))
    );
    assert_eq!(
        Manifest::get_property_value(&prop_env, "prod"),
        Some(&ManifestValue::Str("prod-value".to_string()))
    );
    assert_eq!(Manifest::get_property_value(&prop_env, "unknown"), None);
}

#[test]
fn valid_manifest_passes() {
    assert_eq!(test_manifest().validate(), Ok(()));
}

#[test]
fn manifest_needs_name_and_providers() {
    let mut m = test_manifest();
    m.name = String::new();
    assert_eq!(m.validate(), Err(ManifestError::MissingField("name".to_string())));
    let mut m = test_manifest();
    m.providers.clear();
    assert_eq!(m.validate(), Err(ManifestError::MissingField("providers".to_string())));
}

#[test]
fn mixed_export_styles_are_invalid() {
    let mut m = test_manifest();
    m.resources[0].exports = vec![
        ExportDecl::Name("id".to_string()),
        ExportDecl::Rename(vec![("arn".to_string(), "vpc_arn".to_string())]),
    ];
    assert!(matches!(m.validate(), Err(ManifestError::InvalidField(_))));
}

#[test]
fn protected_must_be_exported() {
    let mut m = test_manifest();
    m.resources[0].exports = vec![ExportDecl::Rename(vec![("arn".to_string(), "vpc_arn".to_string())])];
    m.resources[0].protected = vec!["vpc_arn".to_string()];
    assert_eq!(m.validate(), Ok(()));
    m.resources[0].protected = vec!["arn".to_string()];
    assert!(m.validate().is_err());
}

#[test]
fn query_path_defaults_to_resource_name() {
    let m = test_manifest();
    let r = &m.resources[0];
    assert_eq!(m.get_resource_query_path("stacks/dev", r), "stacks/dev/resources/test-resource.iql");
    let mut r2 = resource("x");
    r2.file = Some("custom.iql".to_string());
    assert_eq!(m.get_resource_query_path("s", &r2), "s/resources/custom.iql");
    assert_eq!(m.get_resource_query_path("s/", &r2), "s/resources/custom.iql");
    r2.file = Some("/abs/q.iql".to_string());
    assert_eq!(m.get_resource_query_path("s", &r2), "/abs/q.iql");
}
