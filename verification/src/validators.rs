//! Validation outcomes, the validator registry, and the built-in validators
//! grouped by the boot component whose values they check.
//!
//! A validator is a pure, total rule: every string value yields exactly one
//! outcome. The registry resolves a syntax-type name to a validator,
//! consulting explicit registrations before the built-in table.

pub mod common;
pub mod dracut;
pub mod hardware;
pub mod kernel;
pub mod systemd;

use vstd::prelude::*;

use crate::assoc::{assoc_get, lemma_assoc_get_at, lemma_assoc_get_none};
use crate::error::RegistryError;
use crate::parameter::{ConfigMap, ParameterProcessor};
use crate::strutil::string_eq_str;

verus! {

/// The four-way outcome of validating one value: accepted, accepted with a
/// non-fatal advisory, rejected, or not recognized at all.
#[derive(Debug, PartialEq)]
pub enum ValidationResult {
    Valid,
    Warning(String),
    Error(String),
    Unknown(String),
}

/// The outcome stripped of its message, for contracts that pin the verdict
/// but not the advisory text.
pub ghost enum Verdict {
    Valid,
    Warning,
    Error,
    Unknown,
}

pub open spec fn verdict_of(r: ValidationResult) -> Verdict {
    match r {
        ValidationResult::Valid => Verdict::Valid,
        ValidationResult::Warning(_) => Verdict::Warning,
        ValidationResult::Error(_) => Verdict::Error,
        ValidationResult::Unknown(_) => Verdict::Unknown,
    }
}

impl Clone for ValidationResult {
    fn clone(&self) -> (r: Self)
        ensures
            verdict_of(r) == verdict_of(*self),
    {
        match self {
            ValidationResult::Valid => ValidationResult::Valid,
            ValidationResult::Warning(m) => ValidationResult::Warning(m.clone()),
            ValidationResult::Error(m) => ValidationResult::Error(m.clone()),
            ValidationResult::Unknown(m) => ValidationResult::Unknown(m.clone()),
        }
    }
}

/// Totals of one parsed command line: one entry per token, in token order.
#[derive(Debug)]
pub struct ValidationSummary {
    pub total_parameters: usize,
    pub valid_count: usize,
    pub warning_count: usize,
    pub error_count: usize,
    pub unknown_count: usize,
    pub details: Vec<(String, ValidationResult)>,
}

/// The built-in validators, as one closed dispatch set; a registration binds
/// a syntax-type name to one of these.
#[derive(Clone, Copy, PartialEq, Eq, Structural, Debug)]
pub enum ValidatorKind {
    Boolean,
    Integer,
    Size,
    Enum,
    Hex,
    KeyValue,
    CpuList,
    MemoryRange,
    IoRange,
    PciDevice,
    UsbDevice,
    Dmi,
    SystemdUnit,
    DracutLvmLv,
    DracutLuksName,
    DracutBreak,
    DracutIp,
}

/// The verdict each validator gives on a value, as one total function.
pub open spec fn validator_verdict(
    kind: ValidatorKind,
    s: Seq<char>,
    cfg: Seq<(Seq<char>, crate::parameter::ConfigValueV)>,
) -> Verdict {
    match kind {
        ValidatorKind::Boolean => if common::is_boolean_value(s) {
            Verdict::Valid
        } else {
            Verdict::Error
        },
        ValidatorKind::Integer => if common::integer_valid(s, cfg) {
            Verdict::Valid
        } else {
            Verdict::Error
        },
        ValidatorKind::Size => if common::is_size_value(s) {
            Verdict::Valid
        } else {
            Verdict::Error
        },
        ValidatorKind::Enum => match crate::parameter::cfg_list(cfg, "choices"@) {
            None => Verdict::Error,
            Some(choices) => if common::enum_valid(
                s,
                choices,
                crate::parameter::cfg_bool(cfg, "allow_empty"@, false),
                crate::parameter::cfg_bool(cfg, "allow_multiple"@, false),
            ) {
                Verdict::Valid
            } else {
                Verdict::Error
            },
        },
        ValidatorKind::Hex => if common::is_hex_value(s) {
            Verdict::Valid
        } else {
            Verdict::Error
        },
        ValidatorKind::KeyValue => common::kv_verdict(s, common::kv_separator(cfg)),
        ValidatorKind::CpuList => if kernel::cpu_list_valid(s, cfg) {
            Verdict::Valid
        } else {
            Verdict::Error
        },
        ValidatorKind::MemoryRange => if kernel::is_memory_range(s) {
            Verdict::Valid
        } else {
            Verdict::Error
        },
        ValidatorKind::IoRange => if kernel::is_io_range(s) {
            Verdict::Valid
        } else {
            Verdict::Error
        },
        ValidatorKind::PciDevice => if hardware::is_pci_device_value(s) {
            Verdict::Valid
        } else {
            Verdict::Error
        },
        ValidatorKind::UsbDevice => if hardware::is_usb_device_value(s) {
            Verdict::Valid
        } else {
            Verdict::Error
        },
        ValidatorKind::Dmi => hardware::dmi_verdict(s),
        ValidatorKind::SystemdUnit => systemd::systemd_unit_verdict(s),
        ValidatorKind::DracutLvmLv => dracut::lvm_lv_verdict(s),
        ValidatorKind::DracutLuksName => dracut::luks_name_verdict(s),
        ValidatorKind::DracutBreak => if dracut::is_breakpoint_value(s) {
            Verdict::Valid
        } else {
            Verdict::Error
        },
        ValidatorKind::DracutIp => if dracut::is_dracut_ip_value(s) {
            Verdict::Valid
        } else {
            Verdict::Error
        },
    }
}

/// Runs the validator named by `kind` on one value.
pub fn validate_value(kind: ValidatorKind, value: &str, config: &ConfigMap) -> (r:
    ValidationResult)
    ensures
        verdict_of(r) == validator_verdict(kind, value@, config@),
{
    match kind {
        ValidatorKind::Boolean => common::BooleanValidator.validate(value, config),
        ValidatorKind::Integer => common::IntegerValidator.validate(value, config),
        ValidatorKind::Size => common::SizeValidator.validate(value, config),
        ValidatorKind::Enum => common::EnumValidator.validate(value, config),
        ValidatorKind::Hex => common::HexValidator.validate(value, config),
        ValidatorKind::KeyValue => common::KeyValueValidator.validate(value, config),
        ValidatorKind::CpuList => kernel::CpuListValidator.validate(value, config),
        ValidatorKind::MemoryRange => kernel::MemoryRangeValidator.validate(value, config),
        ValidatorKind::IoRange => kernel::IoRangeValidator.validate(value, config),
        ValidatorKind::PciDevice => hardware::PciDeviceSpecValidator.validate(value, config),
        ValidatorKind::UsbDevice => hardware::UsbDeviceSpecValidator.validate(value, config),
        ValidatorKind::Dmi => hardware::DmiSpecValidator.validate(value, config),
        ValidatorKind::SystemdUnit => systemd::SystemdUnitValidator.validate(value, config),
        ValidatorKind::DracutLvmLv => dracut::DracutLvmLvValidator.validate(value, config),
        ValidatorKind::DracutLuksName => dracut::DracutLuksNameValidator.validate(value, config),
        ValidatorKind::DracutBreak => dracut::DracutBreakValidator.validate(value, config),
        ValidatorKind::DracutIp => dracut::DracutNetworkValidator.validate(value, config),
    }
}

/// The table of built-in syntax-type names.
pub open spec fn builtin_table() -> Seq<(Seq<char>, ValidatorKind)> {
    seq![
        ("boolean"@, ValidatorKind::Boolean),
        ("integer"@, ValidatorKind::Integer),
        ("size"@, ValidatorKind::Size),
        ("enum"@, ValidatorKind::Enum),
        ("hex"@, ValidatorKind::Hex),
        ("key_value"@, ValidatorKind::KeyValue),
        ("cpu_list"@, ValidatorKind::CpuList),
        ("memory_range"@, ValidatorKind::MemoryRange),
        ("io_range"@, ValidatorKind::IoRange),
        ("pci_device"@, ValidatorKind::PciDevice),
        ("usb_device"@, ValidatorKind::UsbDevice),
        ("dmi"@, ValidatorKind::Dmi),
        ("systemd_unit"@, ValidatorKind::SystemdUnit),
        ("dracut_lvm_lv"@, ValidatorKind::DracutLvmLv),
        ("dracut_luks_name"@, ValidatorKind::DracutLuksName),
        ("dracut_break"@, ValidatorKind::DracutBreak),
        ("dracut_ip"@, ValidatorKind::DracutIp),
    ]
}

pub ghost struct RegistryV {
    /// The built-in table installed at construction time.
    pub common: Seq<(Seq<char>, ValidatorKind)>,
    /// Explicit registrations, consulted first.
    pub registered: Seq<(Seq<char>, ValidatorKind)>,
}

/// The registry of validators: built-ins installed at construction, plus
/// caller registrations that shadow them. Lookup resolves names the same
/// way for every processor.
pub struct StandardValidatorRegistry {
    pub common_validators: Vec<(String, ValidatorKind)>,
    pub processor_validators: Vec<(String, ValidatorKind)>,
}

impl View for StandardValidatorRegistry {
    type V = RegistryV;

    open spec fn view(&self) -> RegistryV {
        RegistryV {
            common: self.common_validators@.map_values(
                |e: (String, ValidatorKind)| (e.0@, e.1),
            ),
            registered: self.processor_validators@.map_values(
                |e: (String, ValidatorKind)| (e.0@, e.1),
            ),
        }
    }
}

#[verifier::loop_isolation(false)]
fn table_lookup(table: &Vec<(String, ValidatorKind)>, name: &str) -> (r: Option<ValidatorKind>)
    ensures
        r == assoc_get(
            table@.map_values(|e: (String, ValidatorKind)| (e.0@, e.1)),
            name@,
        ),
{
    let ghost view = table@.map_values(|e: (String, ValidatorKind)| (e.0@, e.1));
    let mut i: usize = 0;
    while i < table.len()
        invariant
            i <= table@.len(),
            forall|j: int| 0 <= j < i ==> view[j].0 != name@,
        decreases table@.len() - i,
    {
        if string_eq_str(&table[i].0, name) {
            proof {
                lemma_assoc_get_at(view, name@, i as int);
            }
            return Some(table[i].1);
        }
        i = i + 1;
    }
    proof {
        lemma_assoc_get_none(view, name@);
    }
    None
}

/// A full lookup in a registry: explicit registrations shadow built-ins.
pub open spec fn reg_lookup(rv: RegistryV, name: Seq<char>) -> Option<ValidatorKind> {
    match assoc_get(rv.registered, name) {
        Some(k) => Some(k),
        None => assoc_get(rv.common, name),
    }
}

impl StandardValidatorRegistry {
    /// A full lookup: explicit registrations shadow built-ins.
    pub open spec fn spec_lookup(&self, name: Seq<char>) -> Option<ValidatorKind> {
        reg_lookup(self@, name)
    }

    /// A registry holding exactly the built-in validators.
    pub fn new() -> (r: StandardValidatorRegistry)
        ensures
            r@.common == builtin_table(),
            r@.registered == Seq::<(Seq<char>, ValidatorKind)>::empty(),
    {
        let mut common: Vec<(String, ValidatorKind)> = Vec::new();
        common.push(("boolean".to_owned(), ValidatorKind::Boolean));
        common.push(("integer".to_owned(), ValidatorKind::Integer));
        common.push(("size".to_owned(), ValidatorKind::Size));
        common.push(("enum".to_owned(), ValidatorKind::Enum));
        common.push(("hex".to_owned(), ValidatorKind::Hex));
        common.push(("key_value".to_owned(), ValidatorKind::KeyValue));
        common.push(("cpu_list".to_owned(), ValidatorKind::CpuList));
        common.push(("memory_range".to_owned(), ValidatorKind::MemoryRange));
        common.push(("io_range".to_owned(), ValidatorKind::IoRange));
        common.push(("pci_device".to_owned(), ValidatorKind::PciDevice));
        common.push(("usb_device".to_owned(), ValidatorKind::UsbDevice));
        common.push(("dmi".to_owned(), ValidatorKind::Dmi));
        common.push(("systemd_unit".to_owned(), ValidatorKind::SystemdUnit));
        common.push(("dracut_lvm_lv".to_owned(), ValidatorKind::DracutLvmLv));
        common.push(("dracut_luks_name".to_owned(), ValidatorKind::DracutLuksName));
        common.push(("dracut_break".to_owned(), ValidatorKind::DracutBreak));
        common.push(("dracut_ip".to_owned(), ValidatorKind::DracutIp));
        let r = StandardValidatorRegistry {
            common_validators: common,
            processor_validators: Vec::new(),
        };
        proof {
            assert(r@.common =~= builtin_table());
            assert(r@.registered =~= Seq::<(Seq<char>, ValidatorKind)>::empty());
        }
        r
    }

    /// Resolves a syntax-type name: explicit registrations first, then the
    /// built-in table; a miss means "no validator", never a failure.
    pub fn get_validator(&self, _processor: &ParameterProcessor, name: &str) -> (r: Option<
        ValidatorKind,
    >)
        ensures
            r == self.spec_lookup(name@),
    {
        match table_lookup(&self.processor_validators, name) {
            Some(k) => Some(k),
            None => table_lookup(&self.common_validators, name),
        }
    }

    /// Registers a validator under a name. A name already explicitly
    /// registered is refused; a built-in name is silently shadowed.
    pub fn register_validator(&mut self, name: String, validator: ValidatorKind) -> (r: Result<
        (),
        RegistryError,
    >)
        ensures
            assoc_get(old(self)@.registered, name@) is Some ==> r is Err && final(self)@ == old(
                self,
            )@,
            assoc_get(old(self)@.registered, name@) is None ==> r is Ok && final(self)@.common
                == old(self)@.common && final(self)@.registered == old(self)@.registered.push(
                (name@, validator),
            ),
    {
        match table_lookup(&self.processor_validators, name.as_str()) {
            Some(_) => Err(RegistryError::NameError(name)),
            None => {
                let ghost before = self@.registered;
                self.processor_validators.push((name, validator));
                proof {
                    assert(final(self)@.registered =~= before.push(
                        (self.processor_validators@.last().0@, validator),
                    ));
                }
                Ok(())
            },
        }
    }
}

} // verus!
