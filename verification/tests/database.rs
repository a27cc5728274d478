use kcmdline::{
    ConfigMap, DatabaseLoader, ParameterDefinitionRaw, SchemaSource, SyntaxDefinitionRaw,
};

fn raw_def(name: &str, processor: &str, validator_type: &str, description: &str)
    -> ParameterDefinitionRaw {
    ParameterDefinitionRaw {
        name: name.to_string(),
        processor: processor.to_string(),
        description: description.to_string(),
        deprecated: None,
        selectors: None,
        syntax: SyntaxDefinitionRaw {
            validator_type: validator_type.to_string(),
            format: String::new(),
            config: ConfigMap::new(),
        },
        distributions: None,
        examples: None,
        documentation: None,
    }
}

fn source_of(defs: Vec<ParameterDefinitionRaw>) -> SchemaSource {
    SchemaSource { definitions: defs, versions: Vec::new() }
}

#[test]
fn later_source_overrides_whole_record() {
    let base = source_of(vec![raw_def("quiet", "kernel", "boolean", "base description")]);
    let mut over_def = raw_def("quiet", "grub", "integer", "override description");
    over_def.deprecated = Some(true);
    let overlay = source_of(vec![over_def]);
    let mut loader = DatabaseLoader::new().with_source(base).with_source(overlay);
    loader.load().unwrap();
    let db = loader.database().unwrap();
    let p = db.get_parameter("quiet").unwrap();
    // The whole later record wins, even fields the earlier record also set.
    assert_eq!(p.description, "override description");
    assert_eq!(p.syntax.validator_type, "integer");
    assert!(p.deprecated);
}

#[test]
fn later_source_overrides_even_with_omitted_fields() {
    let mut base_def = raw_def("quiet", "kernel", "boolean", "base");
    base_def.deprecated = Some(true);
    base_def.selectors = Some(vec!["arch:x86_64".to_string()]);
    let base = source_of(vec![base_def]);
    // The overriding record omits deprecated and selectors entirely.
    let overlay = source_of(vec![raw_def("quiet", "kernel", "boolean", "over")]);
    let mut loader = DatabaseLoader::new().with_source(base).with_source(overlay);
    loader.load().unwrap();
    let db = loader.database().unwrap();
    let p = db.get_parameter("quiet").unwrap();
    // No field blending: the omitted fields take their defaults.
    assert!(!p.deprecated);
    assert!(p.selectors.is_empty());
    assert_eq!(p.description, "over");
}

#[test]
fn subparameter_indexed_under_parent_either_order() {
    let forward = source_of(vec![
        raw_def("pci", "kernel", "boolean", ""),
        raw_def("pci/resource_alignment", "kernel", "key_value", ""),
    ]);
    let backward = source_of(vec![
        raw_def("pci/resource_alignment", "kernel", "key_value", ""),
        raw_def("pci", "kernel", "boolean", ""),
    ]);
    for src in [forward, backward] {
        let mut loader = DatabaseLoader::new().with_source(src);
        loader.load().unwrap();
        let db = loader.database().unwrap();
        let subs = db.get_subparameters("pci");
        assert_eq!(subs.len(), 1);
        assert_eq!(subs[0].name, "pci/resource_alignment");
    }
}

#[test]
fn malformed_record_is_excluded_and_recorded() {
    let src = source_of(vec![
        raw_def("good", "kernel", "boolean", ""),
        raw_def("bad", "notaprocessor", "boolean", ""),
    ]);
    let mut loader = DatabaseLoader::new().with_source(src);
    loader.load().unwrap();
    let db = loader.database().unwrap();
    assert!(db.get_parameter("good").is_some());
    assert!(db.get_parameter("bad").is_none());
    assert_eq!(db.issues.len(), 1);
    assert_eq!(db.issues[0].0, "bad");
    assert_eq!(db.issues[0].1, "notaprocessor");
}

fn two_source_loader() -> DatabaseLoader {
    let a = source_of(vec![
        raw_def("quiet", "kernel", "boolean", "a"),
        raw_def("pci", "kernel", "boolean", ""),
        raw_def("pci/resource_alignment", "kernel", "key_value", ""),
    ]);
    let b = source_of(vec![
        raw_def("splash", "plymouth", "boolean", "b"),
        raw_def("quiet", "kernel", "boolean", "b override"),
    ]);
    DatabaseLoader::new().with_source(a).with_source(b)
}

#[test]
fn rebuild_from_unchanged_sources_is_identical() {
    let mut loader = two_source_loader();
    loader.load().unwrap();
    let names1: Vec<String> = {
        let db = loader.database().unwrap();
        db.parameters.iter().map(|e| e.0.clone()).collect()
    };
    let subidx1: Vec<(String, Vec<String>)> = {
        let db = loader.database().unwrap();
        db.subparameter_index.clone()
    };
    loader.reload().unwrap();
    let db2 = loader.database().unwrap();
    let names2: Vec<String> = db2.parameters.iter().map(|e| e.0.clone()).collect();
    assert_eq!(names1, names2);
    assert_eq!(subidx1, db2.subparameter_index);
    assert_eq!(
        db2.parameters
            .iter()
            .find(|e| e.0 == "quiet")
            .unwrap()
            .1
            .description,
        "b override"
    );
}

#[test]
fn processor_index_groups_names() {
    let mut loader = two_source_loader();
    loader.load().unwrap();
    let db = loader.database().unwrap();
    let kernel = kcmdline::ParameterProcessor::Kernel;
    let names: Vec<&str> = db
        .parameters_by_processor(&kernel)
        .iter()
        .map(|p| p.name.as_str())
        .collect();
    assert!(names.contains(&"quiet"));
    assert!(names.contains(&"pci"));
    assert!(!names.contains(&"splash"));
}

#[test]
fn load_caches_until_reload() {
    let mut loader = DatabaseLoader::new();
    assert!(loader.database().is_none());
    loader.load().unwrap();
    assert!(loader.database().is_some());
    let db = loader.database().unwrap();
    assert!(db.parameters.is_empty());
}
