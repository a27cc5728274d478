use kcmdline::{
    ConfigMap, DatabaseLoader, DistributionInfo, DistributionQuery, KCmdline, ParameterCatalog,
    ParameterDefinitionRaw, ParameterProcessor, QueryMode, QueryParameters, SchemaSource,
    SyntaxDefinitionRaw, SystemProbe,
};

fn raw_def(name: &str, processor: &str) -> ParameterDefinitionRaw {
    ParameterDefinitionRaw {
        name: name.to_string(),
        processor: processor.to_string(),
        description: String::new(),
        deprecated: None,
        selectors: None,
        syntax: SyntaxDefinitionRaw {
            validator_type: "boolean".to_string(),
            format: String::new(),
            config: ConfigMap::new(),
        },
        distributions: None,
        examples: None,
        documentation: None,
    }
}

fn demo_kcmdline() -> KCmdline {
    let mut deprecated_def = raw_def("oldparam", "kernel");
    deprecated_def.deprecated = Some(true);
    let mut tagged_def = raw_def("needsfeature", "kernel");
    tagged_def.selectors = Some(vec!["cpu:sse4".to_string()]);
    let mut dist_def = raw_def("distparam", "kernel");
    dist_def.distributions = Some(vec![(
        "testos".to_string(),
        kcmdline::DistributionSupportRaw {
            min_version: Some("2".to_string()),
            max_version: Some("4.5".to_string()),
            component_version: None,
            notes: None,
        },
    )]);
    let src = SchemaSource {
        definitions: vec![
            raw_def("quiet", "kernel"),
            raw_def("splash", "plymouth"),
            deprecated_def,
            tagged_def,
            dist_def,
        ],
        versions: Vec::new(),
    };
    let mut loader = DatabaseLoader::new().with_source(src);
    loader.load().unwrap();
    let catalog = ParameterCatalog::from_database(loader.into_database().unwrap());
    let probe = SystemProbe::from_parts(
        vec!["arch:x86_64".to_string(), "pci:10de:1234".to_string()],
        vec!["init:systemd".to_string()],
        DistributionInfo {
            id: "testos".to_string(),
            version_id: "3".to_string(),
            variant_id: None,
            name: "Test OS".to_string(),
        },
    );
    KCmdline::new(catalog, probe)
}

#[test]
fn unconstrained_query_returns_full_catalog_under_both_modes() {
    let kc = demo_kcmdline();
    let total = kc.catalog.parameters().len();
    let and_query = QueryParameters::new();
    assert_eq!(kc.query_parameters(&and_query).len(), total);
    let mut or_query = QueryParameters::new();
    or_query.query_mode = QueryMode::Or;
    assert_eq!(kc.query_parameters(&or_query).len(), total);
}

#[test]
fn single_constraint_filters_under_and() {
    let kc = demo_kcmdline();
    let q = QueryParameters::new().with_processor(ParameterProcessor::Plymouth);
    let hits = kc.query_parameters(&q);
    assert_eq!(hits.len(), 1);
    assert_eq!(hits[0].name, "splash");
}

#[test]
fn or_mode_with_vacuous_conditions_matches_everything() {
    // With six fields unset and vacuously true, OR mode passes every
    // parameter even though the one set condition fails for most of them.
    let kc = demo_kcmdline();
    let total = kc.catalog.parameters().len();
    let mut q = QueryParameters::new().with_processor(ParameterProcessor::Plymouth);
    q.query_mode = QueryMode::Or;
    assert_eq!(kc.query_parameters(&q).len(), total);
}

#[test]
fn deprecated_condition_matches_flag() {
    let kc = demo_kcmdline();
    let mut q = QueryParameters::new();
    q.deprecated = Some(true);
    let hits = kc.query_parameters(&q);
    assert_eq!(hits.len(), 1);
    assert_eq!(hits[0].name, "oldparam");
}

#[test]
fn applicability_follows_probe_tags() {
    let kc = demo_kcmdline();
    let q = QueryParameters::new().applicable_only();
    let hits = kc.query_parameters(&q);
    // The probe lacks cpu:sse4, so the selector-gated parameter drops out.
    assert!(hits.iter().all(|p| p.name != "needsfeature"));
    assert!(hits.iter().any(|p| p.name == "quiet"));
}

#[test]
fn distribution_window_contains_version() {
    let kc = demo_kcmdline();
    let p = kc.catalog.get_parameter("distparam").unwrap();
    assert!(p.is_available_in_distribution("testos", "3"));
    assert!(p.is_available_in_distribution("testos", "4.5"));
    assert!(!p.is_available_in_distribution("testos", "1.9"));
    assert!(!p.is_available_in_distribution("testos", "4.6"));
    assert!(!p.is_available_in_distribution("otheros", "3"));
    let mut q = QueryParameters::new();
    q.distribution = Some(DistributionQuery {
        id: "testos".to_string(),
        version: Some("3".to_string()),
    });
    let hits = kc.query_parameters(&q);
    assert_eq!(hits.len(), 1);
    assert_eq!(hits[0].name, "distparam");
}

#[test]
fn hardware_condition_checks_probe_devices() {
    let kc = demo_kcmdline();
    // The probed machine carries pci:10de:1234.
    let present = kc.parameters_for_pci_device(0x10de, 0x1234);
    assert_eq!(present.len(), kc.catalog.parameters().len());
    let absent = kc.parameters_for_pci_device(0x8086, 0x0001);
    assert!(absent.is_empty());
}

#[test]
fn name_pattern_filters_names() {
    let kc = demo_kcmdline();
    let hits = kc.find_parameters("^spl");
    assert_eq!(hits.len(), 1);
    assert_eq!(hits[0].name, "splash");
    assert!(kc.find_parameters_checked("^spl").is_some());
    assert!(kc.find_parameters_checked("(unclosed").is_none());
}

#[test]
fn with_name_pattern_rejects_bad_patterns() {
    let ok = QueryParameters::new().with_name_pattern("qu.*");
    assert!(ok.is_ok());
    let bad = QueryParameters::new().with_name_pattern("(unclosed");
    assert!(bad.is_err());
}

#[test]
fn flags_condition_requires_selector_tags() {
    let kc = demo_kcmdline();
    let mut q = QueryParameters::new();
    q.flags = vec!["cpu:sse4".to_string()];
    let hits = kc.query_parameters(&q);
    assert_eq!(hits.len(), 1);
    assert_eq!(hits[0].name, "needsfeature");
}

#[test]
fn seven_conditions_individually() {
    let kc = demo_kcmdline();
    let quiet = kc.catalog.get_parameter("quiet").unwrap();
    let q = QueryParameters::new();
    assert!(kc.check_name_condition(quiet, &q));
    assert!(kc.check_processor_condition(quiet, &q));
    assert!(kc.check_hardware_condition(quiet, &q));
    assert!(kc.check_applicability_condition(quiet, &q));
    assert!(kc.check_distribution_condition(quiet, &q));
    assert!(kc.check_deprecated_condition(quiet, &q));
    assert!(kc.check_flags_condition(quiet, &q));
    let with_proc = QueryParameters::new().with_processor(ParameterProcessor::Plymouth);
    assert!(!kc.check_processor_condition(quiet, &with_proc));
}

#[test]
fn tree_follows_subparameter_index() {
    let src = SchemaSource {
        definitions: vec![
            raw_def("pci", "kernel"),
            raw_def("pci/resource_alignment", "kernel"),
            raw_def("pci/noaer", "kernel"),
        ],
        versions: Vec::new(),
    };
    let mut loader = DatabaseLoader::new().with_source(src);
    loader.load().unwrap();
    let catalog = ParameterCatalog::from_database(loader.into_database().unwrap());
    let tree = catalog.build_parameter_tree("pci").unwrap();
    assert_eq!(tree.root.name, "pci");
    let mut kids: Vec<&str> = tree.children.iter().map(|c| c.0.as_str()).collect();
    kids.sort();
    assert_eq!(kids, vec!["pci/noaer", "pci/resource_alignment"]);
    assert!(catalog.build_parameter_tree("nosuch").is_none());
}

#[test]
fn version_components_compare_numerically() {
    let kc = demo_kcmdline();
    // Window is [2, 4.5]; "10" would be inside lexicographically-broken
    // comparisons only if components were compared as text.
    let p = kc.catalog.get_parameter("distparam").unwrap();
    assert!(!p.is_available_in_distribution("testos", "10"));
    assert!(p.is_available_in_distribution("testos", "4.5.0"));
    assert!(!p.is_available_in_distribution("testos", "4.5.1"));
    assert!(p.is_available_in_distribution("testos", "2"));
}

#[test]
fn probe_tags_are_found_in_either_set() {
    let kc = demo_kcmdline();
    assert!(kc.probe.has_tag("arch:x86_64"));
    assert!(kc.probe.has_tag("init:systemd"));
    assert!(!kc.probe.has_tag("arch:riscv64"));
}

#[test]
fn subparameters_of_leaf_are_empty() {
    let kc = demo_kcmdline();
    assert!(kc.catalog.get_subparameters("quiet").is_empty());
}
