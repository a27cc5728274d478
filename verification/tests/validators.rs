use kcmdline::{
    BooleanValidator, ConfigMap, ConfigValue, CpuListValidator, DmiSpecValidator,
    DracutBreakValidator, DracutLuksNameValidator, DracutLvmLvValidator, DracutNetworkValidator,
    HexValidator, IntegerValidator, IoRangeValidator, KeyValueValidator, MemoryRangeValidator,
    PciDeviceSpecValidator, SizeValidator, SystemdUnitValidator, UsbDeviceSpecValidator,
    ValidationResult,
};

fn empty_config() -> ConfigMap {
    ConfigMap::new()
}

fn is_valid(r: &ValidationResult) -> bool {
    matches!(r, ValidationResult::Valid)
}

fn is_warning(r: &ValidationResult) -> bool {
    matches!(r, ValidationResult::Warning(_))
}

fn is_error(r: &ValidationResult) -> bool {
    matches!(r, ValidationResult::Error(_))
}

#[test]
fn boolean_accepts_empty_and_words() {
    let c = empty_config();
    let v = BooleanValidator;
    assert!(is_valid(&v.validate("", &c)));
    assert!(is_valid(&v.validate("yes", &c)));
    assert!(is_valid(&v.validate("0", &c)));
    assert!(is_valid(&v.validate("1", &c)));
    assert!(is_valid(&v.validate("true", &c)));
    assert!(is_valid(&v.validate("false", &c)));
    assert!(is_valid(&v.validate("on", &c)));
    assert!(is_valid(&v.validate("off", &c)));
    assert!(is_valid(&v.validate("no", &c)));
    assert!(is_valid(&v.validate("y", &c)));
    assert!(is_valid(&v.validate("n", &c)));
}

#[test]
fn boolean_rejects_other_words() {
    let c = empty_config();
    let v = BooleanValidator;
    assert!(is_error(&v.validate("maybe", &c)));
    assert!(is_error(&v.validate("YES", &c)));
    assert!(is_error(&v.validate("2", &c)));
}

fn range_config(min: i64, max: i64) -> ConfigMap {
    let mut c = ConfigMap::new();
    c.push("min".to_string(), ConfigValue::Int(min));
    c.push("max".to_string(), ConfigValue::Int(max));
    c
}

#[test]
fn integer_in_range_is_valid() {
    let c = range_config(0, 10);
    let v = IntegerValidator;
    assert!(is_valid(&v.validate("5", &c)));
    assert!(is_valid(&v.validate("0", &c)));
    assert!(is_valid(&v.validate("10", &c)));
}

#[test]
fn integer_out_of_range_is_error() {
    let c = range_config(0, 10);
    let v = IntegerValidator;
    assert!(is_error(&v.validate("11", &c)));
    assert!(is_error(&v.validate("-1", &c)));
}

#[test]
fn integer_non_numeric_is_error() {
    let c = range_config(0, 10);
    let v = IntegerValidator;
    assert!(is_error(&v.validate("x", &c)));
    assert!(is_error(&v.validate("", &c)));
    assert!(is_error(&v.validate("5x", &c)));
}

#[test]
fn integer_without_range_accepts_any_i64() {
    let c = empty_config();
    let v = IntegerValidator;
    assert!(is_valid(&v.validate("9223372036854775807", &c)));
    assert!(is_valid(&v.validate("-9223372036854775808", &c)));
    assert!(is_error(&v.validate("9223372036854775808", &c)));
}

#[test]
fn size_accepts_digits_and_suffix() {
    let c = empty_config();
    let v = SizeValidator;
    assert!(is_valid(&v.validate("512", &c)));
    assert!(is_valid(&v.validate("16K", &c)));
    assert!(is_valid(&v.validate("2M", &c)));
    assert!(is_valid(&v.validate("1G", &c)));
    assert!(is_error(&v.validate("", &c)));
    assert!(is_error(&v.validate("K", &c)));
    assert!(is_error(&v.validate("16KB", &c)));
    assert!(is_error(&v.validate("1T", &c)));
}

fn enum_config(choices: &[&str], allow_empty: bool, allow_multiple: bool) -> ConfigMap {
    let mut c = ConfigMap::new();
    let list: Vec<String> = choices.iter().map(|s| s.to_string()).collect();
    c.push("choices".to_string(), ConfigValue::List(list));
    c.push("allow_empty".to_string(), ConfigValue::Bool(allow_empty));
    c.push("allow_multiple".to_string(), ConfigValue::Bool(allow_multiple));
    c
}

use kcmdline::EnumValidator;

#[test]
fn enum_checks_membership() {
    let c = enum_config(&["a", "b"], false, false);
    let v = EnumValidator;
    assert!(is_valid(&v.validate("a", &c)));
    assert!(is_error(&v.validate("c", &c)));
    assert!(is_error(&v.validate("", &c)));
}

#[test]
fn enum_allow_empty_and_multiple() {
    let v = EnumValidator;
    let c = enum_config(&["a", "b"], true, true);
    assert!(is_valid(&v.validate("", &c)));
    assert!(is_valid(&v.validate("a,b", &c)));
    assert!(is_valid(&v.validate("a, b", &c)));
    assert!(is_error(&v.validate("a,c", &c)));
}

#[test]
fn enum_without_choices_is_error() {
    let v = EnumValidator;
    let c = empty_config();
    assert!(is_error(&v.validate("a", &c)));
}

#[test]
fn enum_suggestions_filter_by_prefix() {
    let v = EnumValidator;
    let c = enum_config(&["alpha", "beta", "al"], false, false);
    let s = v.get_completion_suggestions("al", &c);
    assert_eq!(s, vec!["alpha".to_string(), "al".to_string()]);
}

#[test]
fn hex_requires_prefix_and_digits() {
    let c = empty_config();
    let v = HexValidator;
    assert!(is_valid(&v.validate("0x1A2b", &c)));
    assert!(is_error(&v.validate("0x", &c)));
    assert!(is_error(&v.validate("1A2b", &c)));
    assert!(is_error(&v.validate("0xZZ", &c)));
}

#[test]
fn key_value_default_separator() {
    let c = empty_config();
    let v = KeyValueValidator;
    assert!(is_valid(&v.validate("a=b", &c)));
    assert!(is_error(&v.validate("ab", &c)));
    assert!(is_error(&v.validate("=b", &c)));
    assert!(is_warning(&v.validate("a=", &c)));
}

#[test]
fn key_value_custom_separator() {
    let mut c = ConfigMap::new();
    c.push("separator".to_string(), ConfigValue::Str(":".to_string()));
    let v = KeyValueValidator;
    assert!(is_valid(&v.validate("a:b", &c)));
    assert!(is_error(&v.validate("a=b", &c)));
}

fn cpu_config(supports_exclusion: bool, supports_flags: bool) -> ConfigMap {
    let mut c = ConfigMap::new();
    c.push(
        "supports_exclusion".to_string(),
        ConfigValue::Bool(supports_exclusion),
    );
    c.push("supports_flags".to_string(), ConfigValue::Bool(supports_flags));
    c
}

#[test]
fn cpu_list_plain_items_and_ranges() {
    let v = CpuListValidator;
    let c = cpu_config(false, false);
    assert!(is_valid(&v.validate("0,2-4", &c)));
    assert!(is_valid(&v.validate("7", &c)));
    assert!(is_error(&v.validate("5-3", &c)));
    assert!(is_error(&v.validate("5-5", &c)));
    assert!(is_error(&v.validate("a", &c)));
    assert!(is_error(&v.validate("", &c)));
}

#[test]
fn cpu_list_exclusion_depends_on_support() {
    let v = CpuListValidator;
    let unsupported = cpu_config(false, false);
    assert!(is_error(&v.validate("^1", &unsupported)));
    let supported = cpu_config(true, false);
    assert!(is_valid(&v.validate("^1", &supported)));
}

#[test]
fn cpu_list_flags_checked_against_configured_set() {
    let v = CpuListValidator;
    let mut c = cpu_config(false, true);
    c.push(
        "valid_flags".to_string(),
        ConfigValue::List(vec!["nohz".to_string()]),
    );
    assert!(is_valid(&v.validate("nohz:1,2", &c)));
    assert!(is_error(&v.validate("bogus:1,2", &c)));
}

#[test]
fn memory_range_needs_two_sizes() {
    let v = MemoryRangeValidator;
    let c = empty_config();
    assert!(is_valid(&v.validate("512M@1G", &c)));
    assert!(is_valid(&v.validate("64#128", &c)));
    assert!(is_valid(&v.validate("4K$8K", &c)));
    assert!(is_error(&v.validate("512M", &c)));
    assert!(is_error(&v.validate("@1G", &c)));
    assert!(is_error(&v.validate("1G@", &c)));
}

#[test]
fn io_range_takes_decimal_or_hex_fields() {
    let v = IoRangeValidator;
    let c = empty_config();
    assert!(is_valid(&v.validate("0x1000,256", &c)));
    assert!(is_valid(&v.validate("4096,0x100", &c)));
    assert!(is_error(&v.validate("4096", &c)));
    assert!(is_error(&v.validate("a,b", &c)));
    assert!(is_error(&v.validate("1,2,3", &c)));
}

#[test]
fn pci_device_id_form() {
    let v = PciDeviceSpecValidator;
    let c = empty_config();
    assert!(is_valid(&v.validate("pci:10de:1234", &c)));
    assert!(is_valid(&v.validate("pci:10de:1234:abcd:0001", &c)));
    assert!(is_error(&v.validate("pci:10de:123", &c)));
    assert!(is_error(&v.validate("pci:10de", &c)));
    assert!(is_error(&v.validate("pci:10de:12g4", &c)));
}

#[test]
fn pci_device_address_form() {
    let v = PciDeviceSpecValidator;
    let c = empty_config();
    assert!(is_valid(&v.validate("0000:01:00.0", &c)));
    assert!(is_valid(&v.validate("01:00.7", &c)));
    assert!(is_error(&v.validate("01:00.8", &c)));
    assert!(is_error(&v.validate("01.00.0", &c)));
}

#[test]
fn usb_device_spec() {
    let v = UsbDeviceSpecValidator;
    let c = empty_config();
    assert!(is_valid(&v.validate("usb:1d6b:0002", &c)));
    assert!(is_error(&v.validate("1d6b:0002", &c)));
    assert!(is_error(&v.validate("usb:1d6b", &c)));
    assert!(is_error(&v.validate("usb:1d6b:02", &c)));
}

#[test]
fn dmi_spec_fields_and_values() {
    let v = DmiSpecValidator;
    let c = empty_config();
    assert!(is_valid(&v.validate("dmi:vendor:LENOVO", &c)));
    assert!(is_warning(&v.validate("dmi:oddfield:x", &c)));
    assert!(is_error(&v.validate("dmi:vendor:", &c)));
    assert!(is_error(&v.validate("dmi:vendor", &c)));
    assert!(is_error(&v.validate("vendor:x", &c)));
}

#[test]
fn systemd_unit_names() {
    let v = SystemdUnitValidator;
    let c = empty_config();
    assert!(is_valid(&v.validate("multi-user.target", &c)));
    assert!(is_warning(&v.validate("oddname", &c)));
    assert!(is_error(&v.validate("", &c)));
    assert!(is_error(&v.validate("a/b.service", &c)));
}

#[test]
fn systemd_unit_suggestions() {
    let v = SystemdUnitValidator;
    let c = empty_config();
    let s = v.get_completion_suggestions("resc", &c);
    assert_eq!(s, vec!["rescue.target".to_string()]);
}

#[test]
fn dracut_lvm_lv_wants_vg_slash_lv() {
    let v = DracutLvmLvValidator;
    let c = empty_config();
    assert!(is_valid(&v.validate("myvg/mylv", &c)));
    assert!(is_error(&v.validate("myvg", &c)));
    assert!(is_error(&v.validate("/mylv", &c)));
    assert!(is_error(&v.validate("myvg/", &c)));
}

#[test]
fn dracut_luks_name_checks_uuid_shape() {
    let v = DracutLuksNameValidator;
    let c = empty_config();
    assert!(is_valid(&v.validate("123e4567-e89b-12d3-a456-426614174000=root", &c)));
    assert!(is_warning(&v.validate("notauuid=root", &c)));
    assert!(is_error(&v.validate("123e4567-e89b-12d3-a456-426614174000=", &c)));
    assert!(is_error(&v.validate("123e4567-e89b-12d3-a456-426614174000=a/b", &c)));
    assert!(is_error(&v.validate("justaname", &c)));
}

#[test]
fn dracut_break_points() {
    let v = DracutBreakValidator;
    let c = empty_config();
    assert!(is_valid(&v.validate("", &c)));
    assert!(is_valid(&v.validate("pre-mount", &c)));
    assert!(is_valid(&v.validate("initqueue", &c)));
    assert!(is_error(&v.validate("post-mount", &c)));
}

#[test]
fn dracut_ip_needs_seven_fields_and_protocol() {
    let v = DracutNetworkValidator;
    let c = empty_config();
    assert!(is_valid(&v.validate("10.0.0.2::10.0.0.1:255.255.255.0:host:eth0:dhcp", &c)));
    assert!(is_error(&v.validate("10.0.0.2::10.0.0.1:255.255.255.0:host:eth0", &c)));
    assert!(is_error(&v.validate("10.0.0.2::10.0.0.1:255.255.255.0:host:eth0:bogus", &c)));
}
