use kcmdline::{
    ConfigMap, DatabaseLoader, ParameterBuilder, ParameterCatalog, ParameterConfig,
    ParameterDefinitionRaw, SchemaSource, SyntaxDefinitionRaw,
};

fn catalog_with(name: &str) -> ParameterCatalog {
    let src = SchemaSource {
        definitions: vec![ParameterDefinitionRaw {
            name: name.to_string(),
            processor: "kernel".to_string(),
            description: String::new(),
            deprecated: None,
            selectors: None,
            syntax: SyntaxDefinitionRaw {
                validator_type: "boolean".to_string(),
                format: String::new(),
                config: ConfigMap::new(),
            },
            distributions: None,
            examples: None,
            documentation: None,
        }],
        versions: Vec::new(),
    };
    let mut loader = DatabaseLoader::new().with_source(src);
    loader.load().unwrap();
    ParameterCatalog::from_database(loader.into_database().unwrap())
}

#[test]
fn builds_boolean_tokens() {
    let catalog = catalog_with("quiet");
    let p = catalog.get_parameter("quiet").unwrap();
    let b = ParameterBuilder::new(p);
    assert_eq!(b.build(&ParameterConfig::from_bool(true)).unwrap(), "quiet");
    assert_eq!(b.build(&ParameterConfig::from_bool(false)).unwrap(), "quiet=0");
}

#[test]
fn builds_numeric_and_text_tokens() {
    let catalog = catalog_with("loglevel");
    let p = catalog.get_parameter("loglevel").unwrap();
    let b = ParameterBuilder::new(p);
    assert_eq!(b.build(&ParameterConfig::from_int(7)).unwrap(), "loglevel=7");
    assert_eq!(b.build(&ParameterConfig::from_int(-12)).unwrap(), "loglevel=-12");
    assert_eq!(
        b.build(&ParameterConfig::from_string("ttyS0".to_string())).unwrap(),
        "loglevel=ttyS0"
    );
    assert_eq!(
        b.build(&ParameterConfig::from_string_list(vec![
            "a".to_string(),
            "b".to_string(),
        ]))
        .unwrap(),
        "loglevel=a,b"
    );
}

#[test]
fn builds_cpu_lists_with_and_without_flags() {
    let catalog = catalog_with("isolcpus");
    let p = catalog.get_parameter("isolcpus").unwrap();
    let b = ParameterBuilder::new(p);
    let plain = ParameterConfig::from_cpu_list(vec![0, 2, 15]);
    assert_eq!(b.build(&plain).unwrap(), "isolcpus=0,2,15");
    let flagged = ParameterConfig::from_cpu_list(vec![1, 3])
        .with_flags(vec!["nohz".to_string(), "domain".to_string()]);
    assert_eq!(b.build(&flagged).unwrap(), "isolcpus=nohz,domain:1,3");
}

#[test]
fn nested_configuration_is_refused() {
    let catalog = catalog_with("x");
    let p = catalog.get_parameter("x").unwrap();
    let b = ParameterBuilder::new(p);
    let nested = ParameterConfig::Complex(vec![(
        "inner".to_string(),
        ParameterConfig::from_bool(true),
    )]);
    assert!(b.build(&nested).is_err());
}

#[test]
fn with_flags_leaves_other_variants_alone() {
    let v = ParameterConfig::from_int(3).with_flags(vec!["x".to_string()]);
    assert!(matches!(v, ParameterConfig::Integer(3)));
}
