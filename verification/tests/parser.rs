use kcmdline::{
    CommandLineParser, ConfigMap, DatabaseLoader, ParameterCatalog, ParameterDefinitionRaw,
    ParameterParser, SchemaSource, SyntaxDefinitionRaw, ValidationResult,
};

fn raw_def(name: &str, processor: &str, validator_type: &str) -> ParameterDefinitionRaw {
    ParameterDefinitionRaw {
        name: name.to_string(),
        processor: processor.to_string(),
        description: String::new(),
        deprecated: None,
        selectors: None,
        syntax: SyntaxDefinitionRaw {
            validator_type: validator_type.to_string(),
            format: String::new(),
            config: ConfigMap::new(),
        },
        distributions: None,
        examples: None,
        documentation: None,
    }
}

fn demo_catalog() -> ParameterCatalog {
    let src = SchemaSource {
        definitions: vec![
            raw_def("quiet", "kernel", "boolean"),
            raw_def("splash", "plymouth", "boolean"),
            raw_def("rd.lvm.lv", "dracut", "dracut_lvm_lv"),
            raw_def("mystery", "kernel", "nosuchvalidator"),
        ],
        versions: Vec::new(),
    };
    let mut loader = DatabaseLoader::new().with_source(src);
    loader.load().unwrap();
    ParameterCatalog::from_database(loader.into_database().unwrap())
}

#[test]
fn end_to_end_summary_counts() {
    let catalog = demo_catalog();
    let parser = CommandLineParser::new(&catalog);
    let out = parser
        .parse("quiet splash rd.lvm.lv=myvg/mylv nosuchparam=1")
        .unwrap();
    let s = &out.validation_summary;
    assert_eq!(s.total_parameters, 4);
    assert_eq!(s.valid_count, 3);
    assert_eq!(s.warning_count, 0);
    assert_eq!(s.error_count, 0);
    assert_eq!(s.unknown_count, 1);
    assert_eq!(out.unknown_parameters, vec!["nosuchparam".to_string()]);
    assert!(matches!(
        out.parameters[3].validation,
        ValidationResult::Unknown(_)
    ));
}

#[test]
fn tokens_keep_their_order_and_values() {
    let catalog = demo_catalog();
    let parser = CommandLineParser::new(&catalog);
    let out = parser.parse("  quiet   rd.lvm.lv=vg/lv ").unwrap();
    assert_eq!(out.parameters.len(), 2);
    assert_eq!(out.parameters[0].name, "quiet");
    assert_eq!(out.parameters[0].value, None);
    assert_eq!(out.parameters[1].name, "rd.lvm.lv");
    assert_eq!(out.parameters[1].value, Some("vg/lv".to_string()));
    assert!(out.parameters[1].parameter_def.is_some());
    assert!(out.parameters[0].subparameters.is_empty());
}

#[test]
fn one_failing_token_does_not_block_the_rest() {
    let catalog = demo_catalog();
    let parser = CommandLineParser::new(&catalog);
    let out = parser.parse("quiet=maybe splash").unwrap();
    let s = &out.validation_summary;
    assert_eq!(s.total_parameters, 2);
    assert_eq!(s.error_count, 1);
    assert_eq!(s.valid_count, 1);
    assert!(matches!(
        out.parameters[0].validation,
        ValidationResult::Error(_)
    ));
    assert!(matches!(out.parameters[1].validation, ValidationResult::Valid));
}

#[test]
fn missing_validator_is_an_error_not_unknown() {
    let catalog = demo_catalog();
    let parser = CommandLineParser::new(&catalog);
    let out = parser.parse("mystery=1").unwrap();
    let s = &out.validation_summary;
    assert_eq!(s.error_count, 1);
    assert_eq!(s.unknown_count, 0);
}

#[test]
fn empty_line_parses_to_nothing() {
    let catalog = demo_catalog();
    let parser = CommandLineParser::new(&catalog);
    let out = parser.parse("   ").unwrap();
    assert_eq!(out.validation_summary.total_parameters, 0);
    assert!(out.parameters.is_empty());
    assert!(out.unknown_parameters.is_empty());
}

#[test]
fn whole_line_verdict_prefers_errors() {
    let catalog = demo_catalog();
    let parser = CommandLineParser::new(&catalog);
    let probe = kcmdline::SystemProbe::from_parts(
        Vec::new(),
        Vec::new(),
        kcmdline::DistributionInfo {
            id: "test".to_string(),
            version_id: "1".to_string(),
            variant_id: None,
            name: "Test".to_string(),
        },
    );
    assert!(matches!(
        parser.validate("quiet splash", &probe),
        ValidationResult::Valid
    ));
    assert!(matches!(
        parser.validate("quiet=maybe nosuchparam", &probe),
        ValidationResult::Error(_)
    ));
    assert!(matches!(
        parser.validate("quiet nosuchparam", &probe),
        ValidationResult::Unknown(_)
    ));
}

#[test]
fn parse_single_token() {
    let catalog = demo_catalog();
    let parser = ParameterParser::new(&catalog);
    let pp = parser.parse_single("quiet=yes").unwrap();
    assert_eq!(pp.name, "quiet");
    assert_eq!(pp.value, Some("yes".to_string()));
    assert!(matches!(pp.validation, ValidationResult::Valid));
    let unknown = parser.parse_single("nosuch").unwrap();
    assert!(matches!(unknown.validation, ValidationResult::Unknown(_)));
    assert!(unknown.parameter_def.is_none());
}
