//! The system state that applicability decisions are made against.
//!
//! Probing itself (reading hardware and software identity from the running
//! system) is an external concern; this module only models the resulting
//! immutable snapshot: tag sets plus a distribution identity.

use vstd::prelude::*;

use crate::strutil::string_eq_str;

verus! {

/// Identity of the running distribution, as probed from the system.
pub struct DistributionInfo {
    pub id: String,
    pub version_id: String,
    pub variant_id: Option<String>,
    pub name: String,
}

/// An immutable snapshot of system state: hardware tags (architecture, CPU
/// features, PCI/USB devices, DMI identity), software tags (init system,
/// initramfs generator), and the distribution identity.
pub struct SystemProbe {
    pub hardware_tags: Vec<String>,
    pub software_tags: Vec<String>,
    pub distribution: DistributionInfo,
}

/// A bare set of hardware tags, for callers that probe hardware alone.
pub struct HardwareProbe {
    pub tags: Vec<String>,
}

impl SystemProbe {
    /// Builds the snapshot from already-probed plain values.
    pub fn from_parts(
        hardware_tags: Vec<String>,
        software_tags: Vec<String>,
        distribution: DistributionInfo,
    ) -> (r: SystemProbe)
        ensures
            r.hardware_tags == hardware_tags,
            r.software_tags == software_tags,
            r.distribution == distribution,
    {
        SystemProbe { hardware_tags, software_tags, distribution }
    }

    /// Whether `tag` occurs in either tag set.
    pub open spec fn spec_has_tag(&self, tag: Seq<char>) -> bool {
        (exists|i: int|
            0 <= i < self.hardware_tags@.len() && self.hardware_tags@[i]@ == tag) || (exists|i: int|
            0 <= i < self.software_tags@.len() && self.software_tags@[i]@ == tag)
    }

    pub fn has_tag(&self, tag: &str) -> (r: bool)
        ensures
            r == self.spec_has_tag(tag@),
    {
        let mut i: usize = 0;
        while i < self.hardware_tags.len()
            invariant
                i <= self.hardware_tags@.len(),
                forall|j: int| 0 <= j < i ==> self.hardware_tags@[j]@ != tag@,
            decreases self.hardware_tags@.len() - i,
        {
            if string_eq_str(&self.hardware_tags[i], tag) {
                return true;
            }
            i = i + 1;
        }
        let mut i: usize = 0;
        while i < self.software_tags.len()
            invariant
                i <= self.software_tags@.len(),
                forall|j: int| 0 <= j < i ==> self.software_tags@[j]@ != tag@,
                forall|j: int|
                    0 <= j < self.hardware_tags@.len() ==> self.hardware_tags@[j]@ != tag@,
            decreases self.software_tags@.len() - i,
        {
            if string_eq_str(&self.software_tags[i], tag) {
                return true;
            }
            i = i + 1;
        }
        false
    }
}

impl HardwareProbe {
    pub fn from_tags(tags: Vec<String>) -> (r: HardwareProbe)
        ensures
            r.tags == tags,
    {
        HardwareProbe { tags }
    }
}

} // verus!
