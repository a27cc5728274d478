//! Validators for early-boot disk setup values: LVM logical volumes, LUKS
//! device names, breakpoints and network configuration.

use vstd::prelude::*;

use crate::parameter::ConfigMap;
use crate::strutil::{
    find_char, first_index_of, is_hex, is_hex_char, lemma_first_index_of_props, split_char,
    split_str, str_eq,
};
use crate::validators::{verdict_of, ValidationResult, Verdict};

verus! {

/// `volume_group/logical_volume`: split at the first `/`; an empty volume
/// group (which also covers a leading `/`) or an empty logical volume is
/// rejected.
pub open spec fn lvm_lv_verdict(s: Seq<char>) -> Verdict {
    match first_index_of(s, '/') {
        None => Verdict::Error,
        Some(i) => if i == 0 {
            Verdict::Error
        } else if i + 1 == s.len() {
            Verdict::Error
        } else {
            Verdict::Valid
        },
    }
}

/// LVM logical volume references `vg/lv`.
pub struct DracutLvmLvValidator;

impl DracutLvmLvValidator {
    pub fn validate(&self, value: &str, _config: &ConfigMap) -> (r: ValidationResult)
        ensures
            verdict_of(r) == lvm_lv_verdict(value@),
    {
        let n = value.unicode_len();
        match find_char(value, '/') {
            None => ValidationResult::Error(
                "must be in format volume_group/logical_volume".to_owned(),
            ),
            Some(i) => {
                proof {
                    lemma_first_index_of_props(value@, '/');
                }
                if i == 0 {
                    ValidationResult::Error("volume group name cannot be empty".to_owned())
                } else if i + 1 == n {
                    ValidationResult::Error("logical volume name cannot be empty".to_owned())
                } else {
                    ValidationResult::Valid
                }
            },
        }
    }
}

/// The canonical `8-4-4-4-12` UUID shape.
pub open spec fn is_uuid(u: Seq<char>) -> bool {
    u.len() == 36 && forall|i: int|
        0 <= i < 36 ==> if i == 8 || i == 13 || i == 18 || i == 23 {
            #[trigger] u[i] == '-'
        } else {
            is_hex_char(u[i])
        }
}

#[verifier::loop_isolation(false)]
fn check_uuid(u: &str) -> (r: bool)
    ensures
        r == is_uuid(u@),
{
    let n = u.unicode_len();
    if n != 36 {
        return false;
    }
    let mut i: usize = 0;
    while i < 36
        invariant
            i <= 36,
            forall|k: int|
                0 <= k < i ==> if k == 8 || k == 13 || k == 18 || k == 23 {
                    #[trigger] u@[k] == '-'
                } else {
                    is_hex_char(u@[k])
                },
        decreases 36 - i,
    {
        let c = u.get_char(i);
        if i == 8 || i == 13 || i == 18 || i == 23 {
            if c != '-' {
                return false;
            }
        } else {
            if !is_hex(c) {
                return false;
            }
        }
        i = i + 1;
    }
    true
}

/// `uuid=name`: split at the first `=`; a uuid of another shape is only an
/// advisory, an empty name or one containing `/` is rejected.
pub open spec fn luks_name_verdict(s: Seq<char>) -> Verdict {
    match first_index_of(s, '=') {
        None => Verdict::Error,
        Some(i) => {
            let name = s.skip(i + 1);
            if !is_uuid(s.take(i)) {
                Verdict::Warning
            } else if name.len() == 0 {
                Verdict::Error
            } else if first_index_of(name, '/') is Some {
                Verdict::Error
            } else {
                Verdict::Valid
            }
        },
    }
}

/// LUKS mappings `uuid=name`.
pub struct DracutLuksNameValidator;

impl DracutLuksNameValidator {
    pub fn validate(&self, value: &str, _config: &ConfigMap) -> (r: ValidationResult)
        ensures
            verdict_of(r) == luks_name_verdict(value@),
    {
        let n = value.unicode_len();
        match find_char(value, '=') {
            None => ValidationResult::Error("must be in format uuid=name".to_owned()),
            Some(i) => {
                proof {
                    lemma_first_index_of_props(value@, '=');
                }
                let uuid = value.substring_char(0, i);
                let name = value.substring_char(i + 1, n);
                proof {
                    assert(uuid@ =~= value@.take(i as int));
                    assert(name@ =~= value@.skip(i + 1));
                }
                if !check_uuid(uuid) {
                    let mut msg = "does not look like a valid UUID: ".to_owned();
                    msg.append(uuid);
                    ValidationResult::Warning(msg)
                } else if name.is_empty() {
                    ValidationResult::Error("LUKS device name cannot be empty".to_owned())
                } else {
                    match find_char(name, '/') {
                        Some(_) => ValidationResult::Error(
                            "LUKS device name cannot contain '/'".to_owned(),
                        ),
                        None => ValidationResult::Valid,
                    }
                }
            },
        }
    }
}

/// The named stages at which early boot can be paused; an empty value means
/// the default stage.
pub open spec fn is_breakpoint_value(s: Seq<char>) -> bool {
    ||| s.len() == 0
    ||| s == "cmdline"@
    ||| s == "pre-udev"@
    ||| s == "pre-trigger"@
    ||| s == "initqueue"@
    ||| s == "pre-mount"@
    ||| s == "mount"@
    ||| s == "pre-pivot"@
    ||| s == "cleanup"@
}

/// Boot breakpoints for debugging.
pub struct DracutBreakValidator;

impl DracutBreakValidator {
    pub fn validate(&self, value: &str, _config: &ConfigMap) -> (r: ValidationResult)
        ensures
            r is Valid <==> is_breakpoint_value(value@),
            r is Valid || r is Error,
    {
        if value.is_empty() || str_eq(value, "cmdline") || str_eq(value, "pre-udev") || str_eq(
            value,
            "pre-trigger",
        ) || str_eq(value, "initqueue") || str_eq(value, "pre-mount") || str_eq(value, "mount")
            || str_eq(value, "pre-pivot") || str_eq(value, "cleanup") {
            ValidationResult::Valid
        } else {
            let mut msg = "invalid break point: ".to_owned();
            msg.append(value);
            ValidationResult::Error(msg)
        }
    }
}

pub open spec fn is_boot_proto(p: Seq<char>) -> bool {
    ||| p == "none"@
    ||| p == "off"@
    ||| p == "dhcp"@
    ||| p == "on"@
    ||| p == "any"@
    ||| p == "dhcp6"@
    ||| p == "auto6"@
    ||| p == "ibft"@
}

/// At least seven colon-separated fields, the seventh being a recognized
/// boot protocol.
pub open spec fn is_dracut_ip_value(s: Seq<char>) -> bool {
    let ps = split_char(s, ':');
    ps.len() >= 7 && is_boot_proto(ps[6])
}

/// Early-boot network configuration `ip=...` values.
pub struct DracutNetworkValidator;

impl DracutNetworkValidator {
    pub fn validate(&self, value: &str, _config: &ConfigMap) -> (r: ValidationResult)
        ensures
            r is Valid <==> is_dracut_ip_value(value@),
            r is Valid || r is Error,
    {
        let parts = split_str(value, ':');
        assert(parts.deep_view().len() == parts@.len());
        if parts.len() < 7 {
            return ValidationResult::Error(
                "IP configuration requires at least 7 colon-separated fields".to_owned(),
            );
        }
        let proto = parts[6];
        assert(parts.deep_view()[6] == parts@[6]@);
        if str_eq(proto, "none") || str_eq(proto, "off") || str_eq(proto, "dhcp") || str_eq(
            proto,
            "on",
        ) || str_eq(proto, "any") || str_eq(proto, "dhcp6") || str_eq(proto, "auto6") || str_eq(
            proto,
            "ibft",
        ) {
            ValidationResult::Valid
        } else {
            let mut msg = "invalid boot protocol: ".to_owned();
            msg.append(proto);
            ValidationResult::Error(msg)
        }
    }
}

} // verus!
