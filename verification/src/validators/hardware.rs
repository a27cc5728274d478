//! Validators for hardware identifiers: PCI device specs, USB device specs
//! and DMI identity fields.

use vstd::prelude::*;

use crate::parameter::ConfigMap;
use crate::strutil::{
    all_hex, find_char, first_index_of, is_hex, is_hex_char, lemma_first_index_of_props,
    split_char, split_str, str_eq, str_has_prefix,
};
use crate::validators::{verdict_of, ValidationResult, Verdict};

verus! {

/// Exactly four hexadecimal digits.
pub open spec fn is_hex4(p: Seq<char>) -> bool {
    p.len() == 4 && all_hex(p)
}

#[verifier::loop_isolation(false)]
fn check_hex4(p: &str) -> (r: bool)
    ensures
        r == is_hex4(p@),
{
    let n = p.unicode_len();
    if n != 4 {
        return false;
    }
    let mut i: usize = 0;
    while i < n
        invariant
            i <= n,
            forall|k: int| 0 <= k < i ==> is_hex_char(#[trigger] p@[k]),
        decreases n - i,
    {
        if !is_hex(p.get_char(i)) {
            return false;
        }
        i = i + 1;
    }
    true
}

/// The id form after `pci:`: two or four colon-separated groups of four hex
/// digits (vendor:device, optionally :subvendor:subdevice).
pub open spec fn is_pci_id_tail(rest: Seq<char>) -> bool {
    let ps = split_char(rest, ':');
    &&& (ps.len() == 2 || ps.len() == 4)
    &&& forall|i: int| 0 <= i < ps.len() ==> is_hex4(#[trigger] ps[i])
}

/// A device and function suffix `d.f` or `dd.f`, with the function digit in
/// `0..=7`.
pub open spec fn is_devfunc(d: Seq<char>) -> bool {
    ||| (d.len() == 3 && is_hex_char(d[0]) && d[1] == '.' && '0' <= d[2] && d[2] <= '7')
    ||| (d.len() == 4 && is_hex_char(d[0]) && is_hex_char(d[1]) && d[2] == '.' && '0' <= d[3]
        && d[3] <= '7')
}

fn check_devfunc(d: &str) -> (r: bool)
    ensures
        r == is_devfunc(d@),
{
    let n = d.unicode_len();
    if n == 3 {
        let c0 = d.get_char(0);
        let c1 = d.get_char(1);
        let c2 = d.get_char(2);
        is_hex(c0) && c1 == '.' && '0' <= c2 && c2 <= '7'
    } else if n == 4 {
        let c0 = d.get_char(0);
        let c1 = d.get_char(1);
        let c2 = d.get_char(2);
        let c3 = d.get_char(3);
        is_hex(c0) && is_hex(c1) && c2 == '.' && '0' <= c3 && c3 <= '7'
    } else {
        false
    }
}

/// A hexadecimal group of bounded width.
pub open spec fn is_hex_group(g: Seq<char>, lo: int, hi: int) -> bool {
    lo <= g.len() <= hi && all_hex(g)
}

#[verifier::loop_isolation(false)]
fn check_hex_group(g: &str, lo: usize, hi: usize) -> (r: bool)
    ensures
        r == is_hex_group(g@, lo as int, hi as int),
{
    let n = g.unicode_len();
    if n < lo || n > hi {
        return false;
    }
    let mut i: usize = 0;
    while i < n
        invariant
            i <= n,
            forall|k: int| 0 <= k < i ==> is_hex_char(#[trigger] g@[k]),
        decreases n - i,
    {
        if !is_hex(g.get_char(i)) {
            return false;
        }
        i = i + 1;
    }
    true
}

/// The address form `[domain:]bus:dev.func`: one colon separates bus from
/// the device/function suffix, an optional further colon puts a domain in
/// front. Splitting at the first colons is exact because hex groups and the
/// suffix contain no colon.
pub open spec fn is_pci_address(s: Seq<char>) -> bool {
    match first_index_of(s, ':') {
        None => false,
        Some(i) => {
            let rest = s.skip(i + 1);
            match first_index_of(rest, ':') {
                None => is_hex_group(s.take(i), 1, 2) && is_devfunc(rest),
                Some(j) => is_hex_group(s.take(i), 1, 4) && is_hex_group(rest.take(j), 1, 2)
                    && is_devfunc(rest.skip(j + 1)),
            }
        },
    }
}

/// Either a `pci:` id pair (with optional subsystem pair) or a PCI address.
pub open spec fn is_pci_device_value(s: Seq<char>) -> bool {
    if s.len() >= 4 && s.take(4) == "pci:"@ {
        is_pci_id_tail(s.skip(4))
    } else {
        is_pci_address(s)
    }
}

/// PCI device specifications, as `pci:<vendor>:<device>[:<sub>:<sub>]` or
/// as `[domain:]bus:dev.func`.
pub struct PciDeviceSpecValidator;

impl PciDeviceSpecValidator {
    pub fn validate(&self, value: &str, _config: &ConfigMap) -> (r: ValidationResult)
        ensures
            r is Valid <==> is_pci_device_value(value@),
            r is Valid || r is Error,
    {
        proof {
            reveal_strlit("pci:");
        }
        if str_has_prefix(value, "pci:") {
            let n = value.unicode_len();
            let rest = value.substring_char(4, n);
            proof {
                assert(rest@ =~= value@.skip(4));
            }
            self.validate_pci_id_format(rest)
        } else {
            self.validate_pci_address_format(value)
        }
    }

    /// Checks the `vendor:device[:subvendor:subdevice]` groups.
    #[verifier::loop_isolation(false)]
    fn validate_pci_id_format(&self, rest: &str) -> (r: ValidationResult)
        ensures
            r is Valid <==> is_pci_id_tail(rest@),
            r is Valid || r is Error,
    {
        let parts = split_str(rest, ':');
        assert(parts.deep_view().len() == parts@.len());
        if parts.len() != 2 && parts.len() != 4 {
            return ValidationResult::Error(
                "PCI ID must be vendor:device or vendor:device:subvendor:subdevice".to_owned(),
            );
        }
        let mut i: usize = 0;
        while i < parts.len()
            invariant
                i <= parts@.len(),
                parts.deep_view() == split_char(rest@, ':'),
                forall|j: int| 0 <= j < i ==> is_hex4(#[trigger] split_char(rest@, ':')[j]),
            decreases parts@.len() - i,
        {
            assert(parts.deep_view()[i as int] == parts@[i as int]@);
            if !check_hex4(parts[i]) {
                return ValidationResult::Error("PCI IDs must be 4-digit hex".to_owned());
            }
            i = i + 1;
        }
        ValidationResult::Valid
    }

    /// Checks the `[domain:]bus:dev.func` address form.
    fn validate_pci_address_format(&self, value: &str) -> (r: ValidationResult)
        ensures
            r is Valid <==> is_pci_address(value@),
            r is Valid || r is Error,
    {
        let n = value.unicode_len();
        let ok: bool = match find_char(value, ':') {
            None => false,
            Some(i) => {
                proof {
                    lemma_first_index_of_props(value@, ':');
                }
                let head = value.substring_char(0, i);
                let rest = value.substring_char(i + 1, n);
                proof {
                    assert(head@ =~= value@.take(i as int));
                    assert(rest@ =~= value@.skip(i + 1));
                }
                let m = rest.unicode_len();
                match find_char(rest, ':') {
                    None => check_hex_group(head, 1, 2) && check_devfunc(rest),
                    Some(j) => {
                        proof {
                            lemma_first_index_of_props(rest@, ':');
                        }
                        let bus = rest.substring_char(0, j);
                        let tail = rest.substring_char(j + 1, m);
                        proof {
                            assert(bus@ =~= rest@.take(j as int));
                            assert(tail@ =~= rest@.skip(j + 1));
                        }
                        check_hex_group(head, 1, 4) && check_hex_group(bus, 1, 2)
                            && check_devfunc(tail)
                    },
                }
            },
        };
        if ok {
            ValidationResult::Valid
        } else {
            let mut msg = "invalid PCI address format: ".to_owned();
            msg.append(value);
            ValidationResult::Error(msg)
        }
    }
}

/// The id form after `usb:`: exactly vendor and product, four hex digits
/// each.
pub open spec fn is_usb_id_tail(rest: Seq<char>) -> bool {
    let ps = split_char(rest, ':');
    ps.len() == 2 && is_hex4(ps[0]) && is_hex4(ps[1])
}

pub open spec fn is_usb_device_value(s: Seq<char>) -> bool {
    s.len() >= 4 && s.take(4) == "usb:"@ && is_usb_id_tail(s.skip(4))
}

/// USB device specifications `usb:<vendor>:<product>`.
pub struct UsbDeviceSpecValidator;

impl UsbDeviceSpecValidator {
    pub fn validate(&self, value: &str, _config: &ConfigMap) -> (r: ValidationResult)
        ensures
            r is Valid <==> is_usb_device_value(value@),
            r is Valid || r is Error,
    {
        proof {
            reveal_strlit("usb:");
        }
        if !str_has_prefix(value, "usb:") {
            return ValidationResult::Error("USB device spec must start with 'usb:'".to_owned());
        }
        let n = value.unicode_len();
        let rest = value.substring_char(4, n);
        proof {
            assert(rest@ =~= value@.skip(4));
        }
        let parts = split_str(rest, ':');
        assert(parts.deep_view().len() == parts@.len());
        if parts.len() != 2 {
            return ValidationResult::Error(
                "USB device spec must be usb:vendor:product".to_owned(),
            );
        }
        assert(parts.deep_view()[0] == parts@[0]@);
        assert(parts.deep_view()[1] == parts@[1]@);
        if check_hex4(parts[0]) && check_hex4(parts[1]) {
            ValidationResult::Valid
        } else {
            ValidationResult::Error("USB vendor/product IDs must be 4-digit hex".to_owned())
        }
    }
}

/// The DMI identity fields a schema may constrain.
pub open spec fn is_dmi_field(f: Seq<char>) -> bool {
    ||| f == "vendor"@
    ||| f == "product"@
    ||| f == "version"@
    ||| f == "serial"@
    ||| f == "uuid"@
    ||| f == "sku"@
    ||| f == "family"@
    ||| f == "board_vendor"@
    ||| f == "board_name"@
    ||| f == "chassis_vendor"@
}

/// `dmi:<field>:<value>`: a missing prefix, a missing second colon or an
/// empty value is rejected; an unknown field is only an advisory.
pub open spec fn dmi_verdict(s: Seq<char>) -> Verdict {
    if !(s.len() >= 4 && s.take(4) == "dmi:"@) {
        Verdict::Error
    } else {
        let rest = s.skip(4);
        match first_index_of(rest, ':') {
            None => Verdict::Error,
            Some(i) => if !is_dmi_field(rest.take(i)) {
                Verdict::Warning
            } else if i + 1 == rest.len() {
                Verdict::Error
            } else {
                Verdict::Valid
            },
        }
    }
}

/// DMI identity constraints `dmi:<field>:<value>`.
pub struct DmiSpecValidator;

impl DmiSpecValidator {
    pub fn validate(&self, value: &str, _config: &ConfigMap) -> (r: ValidationResult)
        ensures
            verdict_of(r) == dmi_verdict(value@),
    {
        proof {
            reveal_strlit("dmi:");
        }
        if !str_has_prefix(value, "dmi:") {
            return ValidationResult::Error("DMI spec must start with 'dmi:'".to_owned());
        }
        let n = value.unicode_len();
        let rest = value.substring_char(4, n);
        proof {
            assert(rest@ =~= value@.skip(4));
        }
        let m = rest.unicode_len();
        match find_char(rest, ':') {
            None => ValidationResult::Error("DMI spec must be dmi:field:value".to_owned()),
            Some(i) => {
                proof {
                    lemma_first_index_of_props(rest@, ':');
                }
                let field = rest.substring_char(0, i);
                proof {
                    assert(field@ =~= rest@.take(i as int));
                }
                let known = str_eq(field, "vendor") || str_eq(field, "product") || str_eq(
                    field,
                    "version",
                ) || str_eq(field, "serial") || str_eq(field, "uuid") || str_eq(field, "sku")
                    || str_eq(field, "family") || str_eq(field, "board_vendor") || str_eq(
                    field,
                    "board_name",
                ) || str_eq(field, "chassis_vendor");
                if !known {
                    let mut msg = "unknown DMI field: ".to_owned();
                    msg.append(field);
                    ValidationResult::Warning(msg)
                } else if i + 1 == m {
                    ValidationResult::Error("DMI value cannot be empty".to_owned())
                } else {
                    ValidationResult::Valid
                }
            },
        }
    }
}

} // verus!
