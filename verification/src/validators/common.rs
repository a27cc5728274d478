//! Validators shared by every boot component: booleans, ranged integers,
//! sizes, enumerated choices, hexadecimal words and key/value pairs.

use vstd::prelude::*;

use crate::parameter::{cfg_bool, cfg_int, cfg_list, cfg_str, ConfigMap, ConfigValueV};
use crate::strutil::{
    all_digits, all_hex, first_match, find_sub, i64_parse, is_digit, is_digit_char, is_hex,
    is_hex_char, list_contains_str, parse_i64_str, seq_contains_str, split_char, split_str,
    str_eq, trim_spec, trim_str,
};
use crate::validators::{verdict_of, ValidationResult, Verdict};

verus! {

/// The words a boolean parameter accepts; an empty value means bare presence.
pub open spec fn is_boolean_value(s: Seq<char>) -> bool {
    ||| s.len() == 0
    ||| s == "0"@
    ||| s == "1"@
    ||| s == "true"@
    ||| s == "false"@
    ||| s == "on"@
    ||| s == "off"@
    ||| s == "yes"@
    ||| s == "no"@
    ||| s == "y"@
    ||| s == "n"@
}

/// Accepts the empty string and the usual boolean words; anything else is
/// rejected.
pub struct BooleanValidator;

impl BooleanValidator {
    pub fn validate(&self, value: &str, _config: &ConfigMap) -> (r: ValidationResult)
        ensures
            r is Valid <==> is_boolean_value(value@),
            r is Valid || r is Error,
    {
        if value.is_empty() || str_eq(value, "0") || str_eq(value, "1") || str_eq(value, "true")
            || str_eq(value, "false") || str_eq(value, "on") || str_eq(value, "off") || str_eq(
            value,
            "yes",
        ) || str_eq(value, "no") || str_eq(value, "y") || str_eq(value, "n") {
            ValidationResult::Valid
        } else {
            let mut msg = "invalid boolean value: ".to_owned();
            msg.append(value);
            ValidationResult::Error(msg)
        }
    }
}

/// When the configuration supplies both `min` and `max`, the parsed value
/// must lie in that closed range; otherwise any 64-bit integer passes.
pub open spec fn integer_in_range(v: int, cfg: Seq<(Seq<char>, ConfigValueV)>) -> bool {
    match (cfg_int(cfg, "min"@), cfg_int(cfg, "max"@)) {
        (Some(mn), Some(mx)) => mn <= v && v <= mx,
        _ => true,
    }
}

pub open spec fn integer_valid(s: Seq<char>, cfg: Seq<(Seq<char>, ConfigValueV)>) -> bool {
    match i64_parse(s) {
        Some(v) => integer_in_range(v, cfg),
        None => false,
    }
}

/// Accepts signed 64-bit integers, optionally confined to a configured
/// `[min, max]` range.
pub struct IntegerValidator;

impl IntegerValidator {
    pub fn validate(&self, value: &str, config: &ConfigMap) -> (r: ValidationResult)
        ensures
            r is Valid <==> integer_valid(value@, config@),
            r is Valid || r is Error,
    {
        let parsed = match parse_i64_str(value) {
            Some(n) => n,
            None => {
                let mut msg = "invalid integer: ".to_owned();
                msg.append(value);
                return ValidationResult::Error(msg);
            },
        };
        let min = config.get_int("min");
        let max = config.get_int("max");
        match (min, max) {
            (Some(mn), Some(mx)) => {
                if parsed < mn || parsed > mx {
                    ValidationResult::Error("integer out of configured range".to_owned())
                } else {
                    ValidationResult::Valid
                }
            },
            _ => ValidationResult::Valid,
        }
    }
}

pub open spec fn is_kmg(c: char) -> bool {
    c == 'K' || c == 'M' || c == 'G'
}

/// A size: one or more digits, optionally followed by one of `K`, `M`, `G`.
pub open spec fn is_size_value(s: Seq<char>) -> bool {
    if s.len() == 0 {
        false
    } else {
        let d = if is_kmg(s.last()) {
            s.drop_last()
        } else {
            s
        };
        d.len() > 0 && all_digits(d)
    }
}

/// Whether `value` has the size shape, by one scan.
#[verifier::loop_isolation(false)]
pub fn check_size(value: &str) -> (r: bool)
    ensures
        r == is_size_value(value@),
{
    let n = value.unicode_len();
    if n == 0 {
        return false;
    }
    let last = value.get_char(n - 1);
    let dlen: usize = if last == 'K' || last == 'M' || last == 'G' {
        n - 1
    } else {
        n
    };
    proof {
        assert(value@.drop_last() =~= value@.take(n - 1));
        assert(value@.take(n as int) =~= value@);
    }
    if dlen == 0 {
        return false;
    }
    let mut i: usize = 0;
    while i < dlen
        invariant
            i <= dlen <= n,
            forall|k: int| 0 <= k < i ==> is_digit_char(#[trigger] value@[k]),
        decreases dlen - i,
    {
        if !is_digit(value.get_char(i)) {
            assert(value@.take(dlen as int)[i as int] == value@[i as int]);
            assert(!all_digits(value@.take(dlen as int)));
            return false;
        }
        i = i + 1;
    }
    assert(all_digits(value@.take(dlen as int)));
    true
}

pub struct SizeValidator;

impl SizeValidator {
    pub fn validate(&self, value: &str, _config: &ConfigMap) -> (r: ValidationResult)
        ensures
            r is Valid <==> is_size_value(value@),
            r is Valid || r is Error,
    {
        if check_size(value) {
            ValidationResult::Valid
        } else {
            let mut msg = "invalid size format: ".to_owned();
            msg.append(value);
            ValidationResult::Error(msg)
        }
    }
}

/// Membership of a value in the configured choice list; `allow_empty`
/// permits the empty string, `allow_multiple` permits a comma-separated
/// list whose members are checked independently after trimming.
pub open spec fn enum_valid(
    s: Seq<char>,
    choices: Seq<Seq<char>>,
    allow_empty: bool,
    allow_multiple: bool,
) -> bool {
    if s.len() == 0 && allow_empty {
        true
    } else if allow_multiple {
        forall|i: int|
            0 <= i < split_char(s, ',').len() ==> seq_contains_str(
                choices,
                trim_spec(#[trigger] split_char(s, ',')[i]),
            )
    } else {
        seq_contains_str(choices, s)
    }
}

pub struct EnumValidator;

impl EnumValidator {
    #[verifier::loop_isolation(false)]
    pub fn validate(&self, value: &str, config: &ConfigMap) -> (r: ValidationResult)
        ensures
            cfg_list(config@, "choices"@) is None ==> r is Error,
            cfg_list(config@, "choices"@) matches Some(choices) ==> (r is Valid <==> enum_valid(
                value@,
                choices,
                cfg_bool(config@, "allow_empty"@, false),
                cfg_bool(config@, "allow_multiple"@, false),
            )),
            r is Valid || r is Error,
    {
        let choices = match config.get_list("choices") {
            Some(l) => l,
            None => {
                return ValidationResult::Error("no choices configured for enum".to_owned());
            },
        };
        let allow_empty = config.get_bool_or("allow_empty", false);
        let allow_multiple = config.get_bool_or("allow_multiple", false);
        if value.is_empty() && allow_empty {
            return ValidationResult::Valid;
        }
        if allow_multiple {
            let parts = split_str(value, ',');
            let mut i: usize = 0;
            while i < parts.len()
                invariant
                    i <= parts@.len(),
                    parts.deep_view() == split_char(value@, ','),
                    choices.deep_view() == cfg_list(config@, "choices"@)->0,
                    forall|j: int|
                        0 <= j < i ==> seq_contains_str(
                            choices.deep_view(),
                            trim_spec(#[trigger] split_char(value@, ',')[j]),
                        ),
                decreases parts@.len() - i,
            {
                let trimmed = trim_str(parts[i]);
                assert(parts.deep_view()[i as int] == parts@[i as int]@);
                if !list_contains_str(&choices, trimmed) {
                    proof {
                        assert(parts.deep_view().len() == parts@.len());
                        assert(i < split_char(value@, ',').len());
                        assert(parts.deep_view()[i as int] == split_char(value@, ',')[i as int]);
                        assert(!seq_contains_str(
                            choices.deep_view(),
                            trim_spec(split_char(value@, ',')[i as int]),
                        ));
                        assert(!enum_valid(
                            value@,
                            choices.deep_view(),
                            cfg_bool(config@, "allow_empty"@, false),
                            true,
                        ));
                    }
                    let mut msg = "invalid choice: ".to_owned();
                    msg.append(trimmed);
                    return ValidationResult::Error(msg);
                }
                i = i + 1;
            }
            proof {
                assert(parts.deep_view().len() == parts@.len());
                assert(parts.deep_view().len() == split_char(value@, ',').len());
            }
            ValidationResult::Valid
        } else {
            if list_contains_str(&choices, value) {
                ValidationResult::Valid
            } else {
                let mut msg = "invalid choice: ".to_owned();
                msg.append(value);
                ValidationResult::Error(msg)
            }
        }
    }

    /// The configured choices that begin with `partial`, in choice order;
    /// empty when no choices are configured.
    #[verifier::loop_isolation(false)]
    pub fn get_completion_suggestions(&self, partial: &str, config: &ConfigMap) -> (r: Vec<
        String,
    >)
        ensures
            match cfg_list(config@, "choices"@) {
                Some(choices) => r.deep_view() == choices.filter(
                    |c: Seq<char>| c.len() >= partial@.len() && c.take(partial@.len() as int)
                        == partial@,
                ),
                None => r.deep_view() == Seq::<Seq<char>>::empty(),
            },
    {
        let choices = match config.get_list("choices") {
            Some(l) => l,
            None => {
                let r: Vec<String> = Vec::new();
                assert(r.deep_view() =~= Seq::<Seq<char>>::empty());
                return r;
            },
        };
        let mut r: Vec<String> = Vec::new();
        let mut i: usize = 0;
        while i < choices.len()
            invariant
                i <= choices@.len(),
                choices.deep_view() == cfg_list(config@, "choices"@)->0,
                r.deep_view() == choices.deep_view().take(i as int).filter(
                    |c: Seq<char>| c.len() >= partial@.len() && c.take(partial@.len() as int)
                        == partial@,
                ),
            decreases choices@.len() - i,
        {
            proof {
                assert(choices.deep_view().take(i + 1).drop_last() =~= choices.deep_view().take(
                    i as int,
                ));
                reveal_with_fuel(Seq::filter, 2);
            }
            let keep = crate::strutil::str_has_prefix(choices[i].as_str(), partial);
            assert(choices.deep_view()[i as int] == choices@[i as int]@);
            if keep {
                r.push(choices[i].clone());
            }
            proof {
                assert(choices.deep_view().take(i + 1).last() == choices.deep_view()[i as int]);
                assert(r.deep_view() =~= choices.deep_view().take(i + 1).filter(
                    |c: Seq<char>| c.len() >= partial@.len() && c.take(partial@.len() as int)
                        == partial@,
                ));
            }
            i = i + 1;
        }
        assert(choices.deep_view().take(choices@.len() as int) =~= choices.deep_view());
        r
    }
}

/// A hexadecimal word: `0x` followed by one or more hex digits.
pub open spec fn is_hex_value(s: Seq<char>) -> bool {
    s.len() >= 3 && s[0] == '0' && s[1] == 'x' && all_hex(s.skip(2))
}

pub struct HexValidator;

impl HexValidator {
    #[verifier::loop_isolation(false)]
    pub fn validate(&self, value: &str, _config: &ConfigMap) -> (r: ValidationResult)
        ensures
            r is Valid <==> is_hex_value(value@),
            r is Valid || r is Error,
    {
        let n = value.unicode_len();
        if n < 3 || value.get_char(0) != '0' || value.get_char(1) != 'x' {
            let mut msg = "invalid hex format: ".to_owned();
            msg.append(value);
            return ValidationResult::Error(msg);
        }
        let mut i: usize = 2;
        while i < n
            invariant
                2 <= i <= n,
                n == value@.len(),
                forall|k: int| 2 <= k < i ==> is_hex_char(#[trigger] value@[k]),
            decreases n - i,
        {
            if !is_hex(value.get_char(i)) {
                assert(!all_hex(value@.skip(2))) by {
                    assert(value@.skip(2)[i - 2] == value@[i as int]);
                }
                let mut msg = "invalid hex format: ".to_owned();
                msg.append(value);
                return ValidationResult::Error(msg);
            }
            i = i + 1;
        }
        assert(all_hex(value@.skip(2))) by {
            assert(forall|k: int|
                0 <= k < value@.skip(2).len() ==> #[trigger] value@.skip(2)[k] == value@[k + 2]);
        }
        ValidationResult::Valid
    }
}

/// The separator a key/value pair splits on; `=` unless configured.
pub open spec fn kv_separator(cfg: Seq<(Seq<char>, ConfigValueV)>) -> Seq<char> {
    match cfg_str(cfg, "separator"@) {
        Some(s) => s,
        None => "="@,
    }
}

/// Split at the first separator occurrence: a missing separator or an empty
/// key rejects the value, an empty value is only an advisory.
pub open spec fn kv_verdict(s: Seq<char>, sep: Seq<char>) -> Verdict {
    match first_match(s, sep) {
        None => Verdict::Error,
        Some(i) => if i == 0 {
            Verdict::Error
        } else if i + sep.len() == s.len() {
            Verdict::Warning
        } else {
            Verdict::Valid
        },
    }
}

pub struct KeyValueValidator;

impl KeyValueValidator {
    pub fn validate(&self, value: &str, config: &ConfigMap) -> (r: ValidationResult)
        ensures
            verdict_of(r) == kv_verdict(value@, kv_separator(config@)),
    {
        let sep_opt = config.get_str("separator");
        let sep: &str = match &sep_opt {
            Some(s) => s.as_str(),
            None => "=",
        };
        let n = value.unicode_len();
        let m = sep.unicode_len();
        match find_sub(value, sep) {
            None => ValidationResult::Error("missing separator in key/value pair".to_owned()),
            Some(i) => {
                if i == 0 {
                    ValidationResult::Error("empty key in key/value pair".to_owned())
                } else if i + m == n {
                    ValidationResult::Warning("empty value in key/value pair".to_owned())
                } else {
                    ValidationResult::Valid
                }
            },
        }
    }
}

} // verus!
