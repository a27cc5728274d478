//! Validators specific to the init system: unit names.

use vstd::prelude::*;

use crate::parameter::ConfigMap;
use crate::strutil::{
    find_char, first_index_of, str_has_prefix, str_has_suffix, string_eq_str,
};
use crate::validators::{verdict_of, ValidationResult, Verdict};

verus! {

/// Whether `s` ends in one of the recognized unit suffixes.
pub open spec fn has_unit_suffix(s: Seq<char>) -> bool {
    ||| ends_with(s, ".service"@)
    ||| ends_with(s, ".target"@)
    ||| ends_with(s, ".socket"@)
    ||| ends_with(s, ".timer"@)
    ||| ends_with(s, ".mount"@)
    ||| ends_with(s, ".automount"@)
    ||| ends_with(s, ".swap"@)
    ||| ends_with(s, ".path"@)
    ||| ends_with(s, ".slice"@)
    ||| ends_with(s, ".scope"@)
}

pub open spec fn ends_with(s: Seq<char>, suffix: Seq<char>) -> bool {
    s.len() >= suffix.len() && s.skip(s.len() - suffix.len()) == suffix
}

/// An empty name or one containing a path separator is rejected; a name
/// without a recognized suffix is only an advisory.
pub open spec fn systemd_unit_verdict(s: Seq<char>) -> Verdict {
    if s.len() == 0 {
        Verdict::Error
    } else if !has_unit_suffix(s) {
        Verdict::Warning
    } else if first_index_of(s, '/') is Some || first_index_of(s, '\\') is Some {
        Verdict::Error
    } else {
        Verdict::Valid
    }
}

/// Unit names handed to the init system on the command line.
pub struct SystemdUnitValidator;

impl SystemdUnitValidator {
    pub fn validate(&self, value: &str, _config: &ConfigMap) -> (r: ValidationResult)
        ensures
            verdict_of(r) == systemd_unit_verdict(value@),
    {
        if value.is_empty() {
            return ValidationResult::Error("unit name cannot be empty".to_owned());
        }
        let suffixed = str_has_suffix(value, ".service") || str_has_suffix(value, ".target")
            || str_has_suffix(value, ".socket") || str_has_suffix(value, ".timer")
            || str_has_suffix(value, ".mount") || str_has_suffix(value, ".automount")
            || str_has_suffix(value, ".swap") || str_has_suffix(value, ".path")
            || str_has_suffix(value, ".slice") || str_has_suffix(value, ".scope");
        if !suffixed {
            let mut msg = "unit name has no recognized suffix: ".to_owned();
            msg.append(value);
            return ValidationResult::Warning(msg);
        }
        let has_sep = match find_char(value, '/') {
            Some(_) => true,
            None => match find_char(value, '\\') {
                Some(_) => true,
                None => false,
            },
        };
        if has_sep {
            ValidationResult::Error("unit names cannot contain path separators".to_owned())
        } else {
            ValidationResult::Valid
        }
    }

    /// A fixed list of common boot targets, filtered down to those that
    /// begin with `partial`.
    pub open spec fn spec_suggestions() -> Seq<Seq<char>> {
        seq!["multi-user.target"@, "graphical.target"@, "rescue.target"@, "emergency.target"@]
    }

    #[verifier::loop_isolation(false)]
    pub fn get_completion_suggestions(&self, partial: &str, _config: &ConfigMap) -> (r: Vec<
        String,
    >)
        ensures
            r.deep_view() == Self::spec_suggestions().filter(
                |c: Seq<char>| c.len() >= partial@.len() && c.take(partial@.len() as int)
                    == partial@,
            ),
    {
        let mut candidates: Vec<String> = Vec::new();
        candidates.push("multi-user.target".to_owned());
        candidates.push("graphical.target".to_owned());
        candidates.push("rescue.target".to_owned());
        candidates.push("emergency.target".to_owned());
        assert(candidates.deep_view() =~= Self::spec_suggestions());
        let mut r: Vec<String> = Vec::new();
        let mut i: usize = 0;
        while i < candidates.len()
            invariant
                i <= candidates@.len(),
                candidates.deep_view() == Self::spec_suggestions(),
                r.deep_view() == candidates.deep_view().take(i as int).filter(
                    |c: Seq<char>| c.len() >= partial@.len() && c.take(partial@.len() as int)
                        == partial@,
                ),
            decreases candidates@.len() - i,
        {
            proof {
                assert(candidates.deep_view().take(i + 1).drop_last() =~= candidates.deep_view()
                    .take(i as int));
                reveal_with_fuel(Seq::filter, 2);
            }
            let keep = str_has_prefix(candidates[i].as_str(), partial);
            assert(candidates.deep_view()[i as int] == candidates@[i as int]@);
            if keep {
                r.push(candidates[i].clone());
            }
            proof {
                assert(candidates.deep_view().take(i + 1).last() == candidates.deep_view()[
                    i as int
                ]);
                assert(r.deep_view() =~= candidates.deep_view().take(i + 1).filter(
                    |c: Seq<char>| c.len() >= partial@.len() && c.take(partial@.len() as int)
                        == partial@,
                ));
            }
            i = i + 1;
        }
        assert(candidates.deep_view().take(candidates@.len() as int) =~= candidates.deep_view());
        r
    }
}

} // verus!
