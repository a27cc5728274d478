//! Validators for values the kernel itself interprets: CPU lists, memory
//! ranges and I/O ranges.

use vstd::prelude::*;

use crate::parameter::{cfg_bool, cfg_list, ConfigMap, ConfigValueV};
use crate::strutil::{
    all_digits, all_hex, digits_val, find_char, first_index_of, hex_digits_val, is_digit_char,
    lemma_first_index_of_props, list_contains_str, parse_dec_u64, parse_hex_u64,
    seq_contains_str, split_char, split_str, trim_spec, trim_str,
};
use crate::validators::common::is_size_value;
use crate::validators::common::check_size;
use crate::validators::ValidationResult;

verus! {

/// One item of a CPU list: an optional `^` (exclusion, only when supported),
/// a CPU index, and optionally `-` and a strictly larger end index; indices
/// must fit in 32 bits.
pub open spec fn cpu_item_valid(p: Seq<char>, supports_exclusion: bool) -> bool {
    let excl = p.len() > 0 && p[0] == '^';
    let core = if excl {
        p.drop_first()
    } else {
        p
    };
    &&& (excl ==> supports_exclusion)
    &&& match first_index_of(core, '-') {
        None => core.len() > 0 && all_digits(core) && digits_val(core) <= u32::MAX,
        Some(i) => {
            let a = core.take(i);
            let b = core.skip(i + 1);
            &&& a.len() > 0 && all_digits(a) && digits_val(a) <= u32::MAX
            &&& b.len() > 0 && all_digits(b) && digits_val(b) <= u32::MAX
            &&& digits_val(b) > digits_val(a)
        },
    }
}

#[verifier::loop_isolation(false)]
fn check_cpu_item(p: &str, supports_exclusion: bool) -> (r: bool)
    ensures
        r == cpu_item_valid(p@, supports_exclusion),
{
    let n = p.unicode_len();
    let excl = n > 0 && p.get_char(0) == '^';
    if excl && !supports_exclusion {
        return false;
    }
    let start: usize = if excl {
        1
    } else {
        0
    };
    let core = p.substring_char(start, n);
    proof {
        if excl {
            assert(core@ =~= p@.drop_first());
        } else {
            assert(core@ =~= p@);
        }
    }
    match find_char(core, '-') {
        None => {
            match parse_dec_u64(core) {
                Some(x) => x <= 0xffff_ffff,
                None => false,
            }
        },
        Some(i) => {
            proof {
                lemma_first_index_of_props(core@, '-');
            }
            let m = core.unicode_len();
            let a = core.substring_char(0, i);
            let b = core.substring_char(i + 1, m);
            proof {
                assert(a@ =~= core@.take(i as int));
                assert(b@ =~= core@.skip(i + 1));
            }
            let av = match parse_dec_u64(a) {
                Some(x) => x,
                None => {
                    return false;
                },
            };
            let bv = match parse_dec_u64(b) {
                Some(x) => x,
                None => {
                    return false;
                },
            };
            av <= 0xffff_ffff && bv <= 0xffff_ffff && bv > av
        },
    }
}

/// Every comma-separated item of the list, after trimming, is a valid CPU
/// item.
pub open spec fn cpu_items_ok(s: Seq<char>, supports_exclusion: bool) -> bool {
    forall|i: int|
        0 <= i < split_char(s, ',').len() ==> cpu_item_valid(
            trim_spec(#[trigger] split_char(s, ',')[i]),
            supports_exclusion,
        )
}

#[verifier::loop_isolation(false)]
fn check_cpu_items(s: &str, supports_exclusion: bool) -> (r: bool)
    ensures
        r == cpu_items_ok(s@, supports_exclusion),
{
    let parts = split_str(s, ',');
    let mut i: usize = 0;
    while i < parts.len()
        invariant
            i <= parts@.len(),
            parts.deep_view() == split_char(s@, ','),
            forall|j: int|
                0 <= j < i ==> cpu_item_valid(
                    trim_spec(#[trigger] split_char(s@, ',')[j]),
                    supports_exclusion,
                ),
        decreases parts@.len() - i,
    {
        let trimmed = trim_str(parts[i]);
        assert(parts.deep_view()[i as int] == parts@[i as int]@);
        if !check_cpu_item(trimmed, supports_exclusion) {
            assert(parts.deep_view().len() == parts@.len());
            assert(!cpu_items_ok(s@, supports_exclusion));
            return false;
        }
        i = i + 1;
    }
    assert(parts.deep_view().len() == parts@.len());
    true
}

/// When a flag list is configured, every comma-separated flag, after
/// trimming, must be one of the configured flags; an empty configured list
/// accepts anything.
pub open spec fn cpu_flags_ok(f: Seq<char>, valid_flags: Seq<Seq<char>>) -> bool {
    valid_flags.len() == 0 || forall|i: int|
        0 <= i < split_char(f, ',').len() ==> seq_contains_str(
            valid_flags,
            trim_spec(#[trigger] split_char(f, ',')[i]),
        )
}

#[verifier::loop_isolation(false)]
fn check_cpu_flags(f: &str, valid_flags: &Vec<String>) -> (r: bool)
    ensures
        r == cpu_flags_ok(f@, valid_flags.deep_view()),
{
    if valid_flags.len() == 0 {
        return true;
    }
    let parts = split_str(f, ',');
    let mut i: usize = 0;
    while i < parts.len()
        invariant
            i <= parts@.len(),
            parts.deep_view() == split_char(f@, ','),
            forall|j: int|
                0 <= j < i ==> seq_contains_str(
                    valid_flags.deep_view(),
                    trim_spec(#[trigger] split_char(f@, ',')[j]),
                ),
        decreases parts@.len() - i,
    {
        let trimmed = trim_str(parts[i]);
        assert(parts.deep_view()[i as int] == parts@[i as int]@);
        if !list_contains_str(valid_flags, trimmed) {
            assert(parts.deep_view().len() == parts@.len());
            assert(!cpu_flags_ok(f@, valid_flags.deep_view()));
            return false;
        }
        i = i + 1;
    }
    assert(parts.deep_view().len() == parts@.len());
    true
}

/// With `supports_flags`, a value containing `:` is split at the first `:`
/// into a flag list and the CPU items; otherwise the whole value is the CPU
/// items.
pub open spec fn cpu_list_valid(s: Seq<char>, cfg: Seq<(Seq<char>, ConfigValueV)>) -> bool {
    let sf = cfg_bool(cfg, "supports_flags"@, false);
    let se = cfg_bool(cfg, "supports_exclusion"@, false);
    let vf = match cfg_list(cfg, "valid_flags"@) {
        Some(l) => l,
        None => Seq::<Seq<char>>::empty(),
    };
    if sf && first_index_of(s, ':') is Some {
        let i = first_index_of(s, ':')->0;
        cpu_flags_ok(s.take(i), vf) && cpu_items_ok(s.skip(i + 1), se)
    } else {
        cpu_items_ok(s, se)
    }
}

/// Comma-separated CPU indices and ranges, with optional exclusion markers
/// and an optional leading flag list.
pub struct CpuListValidator;

impl CpuListValidator {
    pub fn validate(&self, value: &str, config: &ConfigMap) -> (r: ValidationResult)
        ensures
            r is Valid <==> cpu_list_valid(value@, config@),
            r is Valid || r is Error,
    {
        let supports_flags = config.get_bool_or("supports_flags", false);
        let supports_exclusion = config.get_bool_or("supports_exclusion", false);
        let ok: bool = if supports_flags {
            match find_char(value, ':') {
                Some(i) => {
                    proof {
                        lemma_first_index_of_props(value@, ':');
                    }
                    let n = value.unicode_len();
                    let flag_part = value.substring_char(0, i);
                    let cpu_part = value.substring_char(i + 1, n);
                    proof {
                        assert(flag_part@ =~= value@.take(i as int));
                        assert(cpu_part@ =~= value@.skip(i + 1));
                    }
                    let valid_flags = match config.get_list("valid_flags") {
                        Some(l) => l,
                        None => Vec::new(),
                    };
                    proof {
                        if cfg_list(config@, "valid_flags"@) is None {
                            assert(valid_flags.deep_view() =~= Seq::<Seq<char>>::empty());
                        }
                    }
                    check_cpu_flags(flag_part, &valid_flags) && check_cpu_items(
                        cpu_part,
                        supports_exclusion,
                    )
                },
                None => check_cpu_items(value, supports_exclusion),
            }
        } else {
            check_cpu_items(value, supports_exclusion)
        };
        if ok {
            ValidationResult::Valid
        } else {
            let mut msg = "invalid CPU list: ".to_owned();
            msg.append(value);
            ValidationResult::Error(msg)
        }
    }
}

pub open spec fn is_mem_sep(c: char) -> bool {
    c == '@' || c == '#' || c == '$'
}

/// First position of a memory-range separator in `s`, if any.
pub open spec fn first_mem_sep(s: Seq<char>) -> Option<int>
    decreases s.len(),
{
    if s.len() == 0 {
        None
    } else if is_mem_sep(s[0]) {
        Some(0int)
    } else {
        match first_mem_sep(s.drop_first()) {
            Some(i) => Some(i + 1),
            None => None,
        }
    }
}

proof fn lemma_first_mem_sep_at(s: Seq<char>, i: int)
    requires
        0 <= i < s.len(),
        is_mem_sep(s[i]),
        forall|j: int| 0 <= j < i ==> !is_mem_sep(s[j]),
    ensures
        first_mem_sep(s) == Some(i),
    decreases i,
{
    if i > 0 {
        lemma_first_mem_sep_at(s.drop_first(), i - 1);
    }
}

proof fn lemma_first_mem_sep_none(s: Seq<char>)
    requires
        forall|j: int| 0 <= j < s.len() ==> !is_mem_sep(s[j]),
    ensures
        first_mem_sep(s) is None,
    decreases s.len(),
{
    if s.len() > 0 {
        lemma_first_mem_sep_none(s.drop_first());
    }
}

/// Two sizes joined by `@`, `#` or `$`. Splitting at the first separator is
/// exact because a size contains no separator characters.
pub open spec fn is_memory_range(s: Seq<char>) -> bool {
    match first_mem_sep(s) {
        Some(i) => is_size_value(s.take(i)) && is_size_value(s.skip(i + 1)),
        None => false,
    }
}

/// A placement `size@start` (or reservation `#`, protection `$`) value.
pub struct MemoryRangeValidator;

impl MemoryRangeValidator {
    #[verifier::loop_isolation(false)]
    pub fn validate(&self, value: &str, _config: &ConfigMap) -> (r: ValidationResult)
        ensures
            r is Valid <==> is_memory_range(value@),
            r is Valid || r is Error,
    {
        let n = value.unicode_len();
        let mut i: usize = 0;
        while i < n
            invariant
                i <= n,
                forall|j: int| 0 <= j < i ==> !is_mem_sep(value@[j]),
            decreases n - i,
        {
            let c = value.get_char(i);
            if c == '@' || c == '#' || c == '$' {
                proof {
                    lemma_first_mem_sep_at(value@, i as int);
                }
                let base = value.substring_char(0, i);
                let rest = value.substring_char(i + 1, n);
                proof {
                    assert(base@ =~= value@.take(i as int));
                    assert(rest@ =~= value@.skip(i + 1));
                }
                if check_size(base) && check_size(rest) {
                    return ValidationResult::Valid;
                } else {
                    let mut msg = "invalid memory range format: ".to_owned();
                    msg.append(value);
                    return ValidationResult::Error(msg);
                }
            }
            i = i + 1;
        }
        proof {
            lemma_first_mem_sep_none(value@);
        }
        let mut msg = "invalid memory range format: ".to_owned();
        msg.append(value);
        ValidationResult::Error(msg)
    }
}

/// One field of an I/O range: a decimal number, or `0x` followed by hex
/// digits, in the range of a 64-bit integer either way.
pub open spec fn is_io_field(p: Seq<char>) -> bool {
    ||| (p.len() > 0 && all_digits(p) && digits_val(p) <= u64::MAX)
    ||| (p.len() > 2 && p[0] == '0' && p[1] == 'x' && all_hex(p.skip(2)) && hex_digits_val(
        p.skip(2),
    ) <= u64::MAX)
}

fn check_io_field(p: &str) -> (r: bool)
    ensures
        r == is_io_field(p@),
{
    let n = p.unicode_len();
    if n > 2 && p.get_char(0) == '0' && p.get_char(1) == 'x' {
        let digits = p.substring_char(2, n);
        proof {
            assert(digits@ =~= p@.skip(2));
        }
        let ok = match parse_hex_u64(digits) {
            Some(_) => true,
            None => false,
        };
        proof {
            assert(!is_digit_char('x'));
            assert(!all_digits(p@));
        }
        ok
    } else {
        match parse_dec_u64(p) {
            Some(_) => true,
            None => false,
        }
    }
}

/// Exactly one comma, with a valid field on each side.
pub open spec fn is_io_range(s: Seq<char>) -> bool {
    let parts = split_char(s, ',');
    parts.len() == 2 && is_io_field(parts[0]) && is_io_field(parts[1])
}

/// A `base,size` pair of decimal or hexadecimal numbers.
pub struct IoRangeValidator;

impl IoRangeValidator {
    pub fn validate(&self, value: &str, _config: &ConfigMap) -> (r: ValidationResult)
        ensures
            r is Valid <==> is_io_range(value@),
            r is Valid || r is Error,
    {
        let parts = split_str(value, ',');
        if parts.len() != 2 {
            assert(parts.deep_view().len() == parts@.len());
            return ValidationResult::Error("I/O range must be base,size".to_owned());
        }
        assert(parts.deep_view().len() == parts@.len());
        assert(parts.deep_view()[0] == parts@[0]@);
        assert(parts.deep_view()[1] == parts@[1]@);
        if check_io_field(parts[0]) && check_io_field(parts[1]) {
            ValidationResult::Valid
        } else {
            let mut msg = "invalid I/O range: ".to_owned();
            msg.append(value);
            ValidationResult::Error(msg)
        }
    }
}

} // verus!
