use kcmdline::{ParameterProcessor, StandardValidatorRegistry, ValidatorKind};

#[test]
fn builtins_resolve_by_name() {
    let reg = StandardValidatorRegistry::new();
    let k = ParameterProcessor::Kernel;
    assert_eq!(reg.get_validator(&k, "boolean"), Some(ValidatorKind::Boolean));
    assert_eq!(reg.get_validator(&k, "integer"), Some(ValidatorKind::Integer));
    assert_eq!(reg.get_validator(&k, "cpu_list"), Some(ValidatorKind::CpuList));
    assert_eq!(
        reg.get_validator(&k, "dracut_lvm_lv"),
        Some(ValidatorKind::DracutLvmLv)
    );
    assert_eq!(reg.get_validator(&k, "nosuch"), None);
}

#[test]
fn lookup_ignores_processor_payload() {
    let reg = StandardValidatorRegistry::new();
    let sysd = ParameterProcessor::Systemd {
        min_version: "219".to_string(),
    };
    assert_eq!(
        reg.get_validator(&sysd, "systemd_unit"),
        Some(ValidatorKind::SystemdUnit)
    );
}

#[test]
fn builtin_names_may_be_shadowed_without_error() {
    let mut reg = StandardValidatorRegistry::new();
    let k = ParameterProcessor::Kernel;
    // Overriding a built-in silently succeeds.
    assert!(reg
        .register_validator("boolean".to_string(), ValidatorKind::Integer)
        .is_ok());
    assert_eq!(reg.get_validator(&k, "boolean"), Some(ValidatorKind::Integer));
}

#[test]
fn explicit_registrations_collide() {
    let mut reg = StandardValidatorRegistry::new();
    assert!(reg
        .register_validator("custom".to_string(), ValidatorKind::Hex)
        .is_ok());
    // A second explicit registration under the same name is refused.
    assert!(reg
        .register_validator("custom".to_string(), ValidatorKind::Size)
        .is_err());
    let k = ParameterProcessor::Kernel;
    assert_eq!(reg.get_validator(&k, "custom"), Some(ValidatorKind::Hex));
}
