//! The command line parser: tokenizes a raw line, resolves each token
//! against the catalog, runs the matching validator, and accumulates a
//! summary. One token's failure never blocks the tokens after it.

use vstd::prelude::*;

use crate::assoc::assoc_get;
use crate::catalog::ParameterCatalog;
use crate::config::ParameterConfig;
use crate::error::{BuildError, ParseError};
use crate::parameter::{Parameter, ParamV};
use crate::probe::SystemProbe;
use crate::strutil::{
    find_char, first_index_of, is_space, is_space_char, lemma_first_index_of_props,
};
use crate::validators::{
    reg_lookup, validate_value, validator_verdict, verdict_of, RegistryV,
    StandardValidatorRegistry, ValidationResult, ValidationSummary, Verdict,
};

verus! {

/// The whitespace-separated tokens of a command line, in order; runs of
/// whitespace separate tokens and never produce empty ones.
pub open spec fn tokenize(s: Seq<char>) -> Seq<Seq<char>>
    decreases s.len(),
{
    if s.len() == 0 {
        Seq::<Seq<char>>::empty()
    } else if is_space_char(s[0]) {
        tokenize(s.drop_first())
    } else {
        let rest = tokenize(s.drop_first());
        if s.len() > 1 && !is_space_char(s[1]) {
            seq![seq![s[0]] + rest[0]] + rest.skip(1)
        } else {
            seq![seq![s[0]]] + rest
        }
    }
}

proof fn lemma_tokenize_run(s: Seq<char>, i: int, j: int)
    requires
        0 <= i < j <= s.len(),
        forall|k: int| i <= k < j ==> !is_space_char(s[k]),
        j == s.len() || is_space_char(s[j]),
    ensures
        tokenize(s.skip(i)) == seq![s.subrange(i, j)] + tokenize(s.skip(j)),
    decreases j - i,
{
    assert(s.skip(i)[0] == s[i]);
    assert(s.skip(i).drop_first() =~= s.skip(i + 1));
    if i + 1 == j {
        if j == s.len() {
            assert(s.skip(i).len() == 1);
            assert(seq![s.skip(i)[0]] =~= s.subrange(i, j));
            assert(tokenize(s.skip(i)) =~= seq![s.subrange(i, j)] + tokenize(s.skip(j)));
        } else {
            assert(s.skip(i)[1] == s[i + 1]);
            assert(is_space_char(s[j]));
            assert(tokenize(s.skip(i)) == seq![seq![s[i]]] + tokenize(s.skip(i + 1)));
            assert(seq![s[i]] =~= s.subrange(i, j));
            assert(tokenize(s.skip(i)) =~= seq![s.subrange(i, j)] + tokenize(s.skip(j)));
        }
    } else {
        assert(s.skip(i)[1] == s[i + 1]);
        assert(!is_space_char(s[i + 1]));
        lemma_tokenize_run(s, i + 1, j);
        let rest = tokenize(s.skip(i + 1));
        assert(rest == seq![s.subrange(i + 1, j)] + tokenize(s.skip(j)));
        assert(rest[0] == s.subrange(i + 1, j));
        assert(seq![s[i]] + rest[0] =~= s.subrange(i, j));
        assert(rest.skip(1) =~= tokenize(s.skip(j)));
        assert(tokenize(s.skip(i)) =~= seq![s.subrange(i, j)] + tokenize(s.skip(j)));
    }
}

/// Splits a command line on whitespace.
#[verifier::loop_isolation(false)]
pub fn tokenize_str<'a>(s: &'a str) -> (toks: Vec<&'a str>)
    ensures
        toks.deep_view() == tokenize(s@),
{
    let n = s.unicode_len();
    let mut toks: Vec<&str> = Vec::new();
    let mut i: usize = 0;
    proof {
        assert(s@.skip(0) =~= s@);
        assert(toks.deep_view() + tokenize(s@) =~= tokenize(s@));
    }
    while i < n
        invariant
            i <= n,
            tokenize(s@) == toks.deep_view() + tokenize(s@.skip(i as int)),
        decreases n - i,
    {
        if is_space(s.get_char(i)) {
            proof {
                assert(s@.skip(i as int).drop_first() =~= s@.skip(i + 1));
            }
            i = i + 1;
        } else {
            let start: usize = i;
            let mut j: usize = i + 1;
            while j < n && !is_space(s.get_char(j))
                invariant
                    start < j <= n,
                    forall|k: int| start <= k < j ==> !is_space_char(s@[k]),
                decreases n - j,
            {
                j = j + 1;
            }
            let tok = s.substring_char(start, j);
            proof {
                assert(tok@ =~= s@.subrange(start as int, j as int));
                lemma_tokenize_run(s@, start as int, j as int);
            }
            let ghost prev = toks.deep_view();
            toks.push(tok);
            proof {
                assert(toks.deep_view() =~= prev.push(s@.subrange(start as int, j as int)));
                assert(toks.deep_view() + tokenize(s@.skip(j as int)) =~= tokenize(s@));
            }
            i = j;
        }
    }
    proof {
        assert(s@.skip(n as int) =~= Seq::<char>::empty());
        assert(toks.deep_view() =~= tokenize(s@));
    }
    toks
}

/// The part of a token before the first `=`, or the whole token.
pub open spec fn token_name(t: Seq<char>) -> Seq<char> {
    match first_index_of(t, '=') {
        Some(i) => t.take(i),
        None => t,
    }
}

/// The part of a token after the first `=`; a token without `=` carries no
/// value and means bare presence.
pub open spec fn token_value(t: Seq<char>) -> Option<Seq<char>> {
    match first_index_of(t, '=') {
        Some(i) => Some(t.skip(i + 1)),
        None => None,
    }
}

/// What the validator sees: the token's value, or the empty string for a
/// bare token.
pub open spec fn effective_value(t: Seq<char>) -> Seq<char> {
    match token_value(t) {
        Some(v) => v,
        None => Seq::<char>::empty(),
    }
}

/// The outcome of one token: unknown names are reported, a known name runs
/// the validator its record names, and a missing validator rejects.
pub open spec fn token_verdict(
    cat: Seq<(Seq<char>, ParamV)>,
    reg: RegistryV,
    t: Seq<char>,
) -> Verdict {
    match assoc_get(cat, token_name(t)) {
        None => Verdict::Unknown,
        Some(p) => match reg_lookup(reg, p.syntax.validator_type) {
            None => Verdict::Error,
            Some(k) => validator_verdict(k, effective_value(t), p.syntax.config),
        },
    }
}

/// How many tokens give one particular verdict.
pub open spec fn count_verdict(
    cat: Seq<(Seq<char>, ParamV)>,
    reg: RegistryV,
    toks: Seq<Seq<char>>,
    v: Verdict,
) -> int
    decreases toks.len(),
{
    if toks.len() == 0 {
        0
    } else {
        count_verdict(cat, reg, toks.drop_last(), v) + if token_verdict(cat, reg, toks.last())
            == v {
            1int
        } else {
            0int
        }
    }
}

/// The names of the unrecognized tokens, in token order.
pub open spec fn unknown_names(cat: Seq<(Seq<char>, ParamV)>, toks: Seq<Seq<char>>) -> Seq<
    Seq<char>,
>
    decreases toks.len(),
{
    if toks.len() == 0 {
        Seq::<Seq<char>>::empty()
    } else {
        let rest = unknown_names(cat, toks.drop_last());
        if assoc_get(cat, token_name(toks.last())) is None {
            rest.push(token_name(toks.last()))
        } else {
            rest
        }
    }
}

/// One token of a parsed command line: its name, its raw value if one was
/// given, its verdict, and the record it resolved to.
#[derive(Debug)]
pub struct ParsedParameter {
    pub name: String,
    pub value: Option<String>,
    pub subparameters: Vec<ParsedParameter>,
    pub validation: ValidationResult,
    pub parameter_def: Option<Parameter>,
}

/// What holds of one parsed token: the name and value split, no nested
/// subparameters on a flat command line, the verdict of the token, and the
/// resolved record exactly when the catalog knows the name.
pub open spec fn parsed_token_ok(
    cat: Seq<(Seq<char>, ParamV)>,
    reg: RegistryV,
    t: Seq<char>,
    pp: ParsedParameter,
) -> bool {
    &&& pp.name@ == token_name(t)
    &&& match (token_value(t), pp.value) {
        (Some(v), Some(x)) => x@ == v,
        (None, None) => true,
        _ => false,
    }
    &&& pp.subparameters@.len() == 0
    &&& verdict_of(pp.validation) == token_verdict(cat, reg, t)
    &&& (pp.validation matches ValidationResult::Unknown(nm) ==> nm@ == token_name(t))
    &&& match assoc_get(cat, token_name(t)) {
        Some(pv) => pp.parameter_def matches Some(pd) && pd@ == pv,
        None => pp.parameter_def is None,
    }
}

/// Whether the detail list mirrors the tokens: one entry per token, in
/// order, carrying the token's name and verdict.
pub open spec fn details_ok(
    cat: Seq<(Seq<char>, ParamV)>,
    reg: RegistryV,
    toks: Seq<Seq<char>>,
    details: Seq<(String, ValidationResult)>,
) -> bool {
    &&& details.len() == toks.len()
    &&& forall|i: int|
        0 <= i < toks.len() ==> (#[trigger] details[i].0)@ == token_name(toks[i]) && verdict_of(
            details[i].1,
        ) == token_verdict(cat, reg, toks[i])
}

/// One detail entry mirrors one token.
pub open spec fn detail_ok_at(
    cat: Seq<(Seq<char>, ParamV)>,
    reg: RegistryV,
    t: Seq<char>,
    d: (String, ValidationResult),
) -> bool {
    d.0@ == token_name(t) && verdict_of(d.1) == token_verdict(cat, reg, t)
}

/// Whether a summary is the true tally of the tokens.
pub open spec fn summary_ok(
    cat: Seq<(Seq<char>, ParamV)>,
    reg: RegistryV,
    toks: Seq<Seq<char>>,
    s: ValidationSummary,
) -> bool {
    &&& s.total_parameters == toks.len()
    &&& s.valid_count == count_verdict(cat, reg, toks, Verdict::Valid)
    &&& s.warning_count == count_verdict(cat, reg, toks, Verdict::Warning)
    &&& s.error_count == count_verdict(cat, reg, toks, Verdict::Error)
    &&& s.unknown_count == count_verdict(cat, reg, toks, Verdict::Unknown)
    &&& details_ok(cat, reg, toks, s.details@)
}


/// Validators never answer "unknown": that verdict is reserved for names
/// the catalog does not know.
proof fn lemma_validator_verdict_not_unknown(
    kind: crate::validators::ValidatorKind,
    s: Seq<char>,
    cfg: Seq<(Seq<char>, crate::parameter::ConfigValueV)>,
)
    ensures
        validator_verdict(kind, s, cfg) != Verdict::Unknown,
{
}

/// Resolves and validates one `name[=value]` token against a catalog and a
/// registry.
fn parse_one_token(
    catalog: &ParameterCatalog,
    registry: &StandardValidatorRegistry,
    tok: &str,
) -> (pp: ParsedParameter)
    ensures
        parsed_token_ok(catalog@.parameters, registry@, tok@, pp),
{
    let ghost t = tok@;
    let n = tok.unicode_len();
    let (name_str, value): (&str, Option<String>) = match find_char(tok, '=') {
        Some(j) => {
            proof {
                lemma_first_index_of_props(tok@, '=');
            }
            let nm = tok.substring_char(0, j);
            let vl = tok.substring_char(j + 1, n);
            proof {
                assert(nm@ =~= t.take(j as int));
                assert(vl@ =~= t.skip(j + 1));
            }
            (nm, Some(vl.to_owned()))
        },
        None => (tok, None),
    };
    let name = name_str.to_owned();
    let (validation, parameter_def): (ValidationResult, Option<Parameter>) = match catalog
        .get_parameter(name_str) {
        None => (ValidationResult::Unknown(name.clone()), None),
        Some(pdef) => {
            let v = match registry.get_validator(
                &pdef.processor,
                pdef.syntax.validator_type.as_str(),
            ) {
                None => ValidationResult::Error("validator not found".to_owned()),
                Some(kind) => {
                    let vstr: &str = match &value {
                        Some(v) => v.as_str(),
                        None => "",
                    };
                    proof {
                        reveal_strlit("");
                        assert(vstr@ =~= effective_value(t));
                    }
                    validate_value(kind, vstr, &pdef.syntax.config)
                },
            };
            (v, Some(pdef.clone()))
        },
    };
    ParsedParameter { name, value, subparameters: Vec::new(), validation, parameter_def }
}

/// A validated command line: the parsed tokens in order, the unknown names,
/// and the tally.
#[derive(Debug)]
pub struct ParsedCommandLine {
    pub parameters: Vec<ParsedParameter>,
    pub unknown_parameters: Vec<String>,
    pub validation_summary: ValidationSummary,
}

/// Parses and validates whole command lines against one catalog, with the
/// standard validators installed.
pub struct CommandLineParser<'a> {
    pub catalog: &'a ParameterCatalog,
    pub registry: StandardValidatorRegistry,
}

/// Counts each verdict once per token; all four tallies stay bounded by the
/// number of tokens.
proof fn lemma_count_verdict_total(
    cat: Seq<(Seq<char>, ParamV)>,
    reg: RegistryV,
    toks: Seq<Seq<char>>,
)
    ensures
        count_verdict(cat, reg, toks, Verdict::Valid) + count_verdict(
            cat,
            reg,
            toks,
            Verdict::Warning,
        ) + count_verdict(cat, reg, toks, Verdict::Error) + count_verdict(
            cat,
            reg,
            toks,
            Verdict::Unknown,
        ) == toks.len(),
        count_verdict(cat, reg, toks, Verdict::Valid) >= 0,
        count_verdict(cat, reg, toks, Verdict::Warning) >= 0,
        count_verdict(cat, reg, toks, Verdict::Error) >= 0,
        count_verdict(cat, reg, toks, Verdict::Unknown) >= 0,
    decreases toks.len(),
{
    if toks.len() > 0 {
        lemma_count_verdict_total(cat, reg, toks.drop_last());
    }
}

impl<'a> CommandLineParser<'a> {
    /// A parser over `catalog` with the built-in validators.
    pub fn new(catalog: &'a ParameterCatalog) -> (r: CommandLineParser<'a>)
        ensures
            r.catalog == catalog,
            r.registry@.common == crate::validators::builtin_table(),
            r.registry@.registered == Seq::<(Seq<char>, crate::validators::ValidatorKind)>::empty(),
    {
        CommandLineParser { catalog, registry: StandardValidatorRegistry::new() }
    }

    /// Tokenizes on whitespace, resolves each token, and validates it; every
    /// token yields exactly one outcome, so parsing itself never fails.
    #[verifier::loop_isolation(false)]
    pub fn parse(&self, cmdline: &str) -> (r: Result<ParsedCommandLine, ParseError>)
        ensures
            r matches Ok(out) && ({
                let cat = self.catalog@.parameters;
                let reg = self.registry@;
                let toks = tokenize(cmdline@);
                &&& out.parameters@.len() == toks.len()
                &&& forall|i: int|
                    0 <= i < toks.len() ==> parsed_token_ok(
                        cat,
                        reg,
                        toks[i],
                        #[trigger] out.parameters@[i],
                    )
                &&& out.unknown_parameters.deep_view() == unknown_names(cat, toks)
                &&& summary_ok(cat, reg, toks, out.validation_summary)
            }),
    {
        let ghost cat = self.catalog@.parameters;
        let ghost reg = self.registry@;
        let ghost toksv = tokenize(cmdline@);
        let toks = tokenize_str(cmdline);
        let mut parameters: Vec<ParsedParameter> = Vec::new();
        let mut unknown_parameters: Vec<String> = Vec::new();
        let mut details: Vec<(String, ValidationResult)> = Vec::new();
        let mut valid_count: usize = 0;
        let mut warning_count: usize = 0;
        let mut error_count: usize = 0;
        let mut unknown_count: usize = 0;
        let mut i: usize = 0;
        proof {
            assert(unknown_parameters.deep_view() =~= unknown_names(cat, toksv.take(0)));
        }
        while i < toks.len()
            invariant
                i <= toks@.len(),
                toks.deep_view() == toksv,
                parameters@.len() == i,
                forall|j: int|
                    0 <= j < i ==> parsed_token_ok(cat, reg, toksv[j], #[trigger] parameters@[j]),
                unknown_parameters.deep_view() == unknown_names(cat, toksv.take(i as int)),
                details@.len() == i,
                forall|j: int|
                    0 <= j < i ==> detail_ok_at(cat, reg, toksv[j], #[trigger] details@[j]),
                valid_count as int == count_verdict(cat, reg, toksv.take(i as int), Verdict::Valid),
                warning_count as int == count_verdict(
                    cat,
                    reg,
                    toksv.take(i as int),
                    Verdict::Warning,
                ),
                error_count as int == count_verdict(cat, reg, toksv.take(i as int), Verdict::Error),
                unknown_count as int == count_verdict(
                    cat,
                    reg,
                    toksv.take(i as int),
                    Verdict::Unknown,
                ),
            decreases toks@.len() - i,
        {
            proof {
                assert(toksv.take(i + 1).drop_last() =~= toksv.take(i as int));
                assert(toksv.take(i + 1).last() == toksv[i as int]);
                assert(toks.deep_view()[i as int] == toks@[i as int]@);
                lemma_count_verdict_total(cat, reg, toksv.take(i as int));
            }
            let tok = toks[i];
            let ghost t = toksv[i as int];
            let pp = parse_one_token(self.catalog, &self.registry, tok);
            match &pp.validation {
                ValidationResult::Valid => {
                    valid_count = valid_count + 1;
                },
                ValidationResult::Warning(_) => {
                    warning_count = warning_count + 1;
                },
                ValidationResult::Error(_) => {
                    error_count = error_count + 1;
                },
                ValidationResult::Unknown(_) => {
                    unknown_count = unknown_count + 1;
                    let ghost prevu = unknown_parameters.deep_view();
                    proof {
                        if assoc_get(cat, token_name(t)) is Some {
                            let p = assoc_get(cat, token_name(t))->0;
                            lemma_validator_verdict_not_unknown(
                                reg_lookup(reg, p.syntax.validator_type)->0,
                                effective_value(t),
                                p.syntax.config,
                            );
                        }
                    }
                    unknown_parameters.push(pp.name.clone());
                    proof {
                        assert(unknown_parameters.deep_view() =~= prevu.push(token_name(t)));
                    }
                },
            }
            proof {
                if !(pp.validation is Unknown) {
                    assert(unknown_parameters.deep_view() =~= unknown_names(
                        cat,
                        toksv.take(i + 1),
                    ));
                }
            }
            let ghost dprev = details@;
            let ghost pprev = parameters@;
            details.push((pp.name.clone(), pp.validation.clone()));
            parameters.push(pp);
            proof {
                assert(details@.len() == i + 1);
                assert(details@[i as int].0@ == token_name(toksv[i as int]));
                assert(verdict_of(details@[i as int].1) == token_verdict(cat, reg, toksv[i as int]));
                assert(parsed_token_ok(cat, reg, toksv[i as int], parameters@[i as int]));
                assert(detail_ok_at(cat, reg, toksv[i as int], details@[i as int]));
                assert forall|j: int| 0 <= j < i + 1 implies detail_ok_at(
                    cat,
                    reg,
                    toksv[j],
                    #[trigger] details@[j],
                ) by {
                    if j < i {
                        assert(details@[j] == dprev[j]);
                        assert(detail_ok_at(cat, reg, toksv[j], dprev[j]));
                    }
                }
                assert forall|j: int| 0 <= j < i + 1 implies parsed_token_ok(
                    cat,
                    reg,
                    toksv[j],
                    #[trigger] parameters@[j],
                ) by {
                    if j < i {
                        assert(parameters@[j] == pprev[j]);
                    }
                }
            }
            i = i + 1;
        }
        proof {
            assert(toksv.take(toksv.len() as int) =~= toksv);
            lemma_count_verdict_total(cat, reg, toksv);
            assert forall|j: int| 0 <= j < toksv.len() implies (#[trigger] details@[j].0)@
                == token_name(toksv[j]) && verdict_of(details@[j].1) == token_verdict(
                cat,
                reg,
                toksv[j],
            ) by {
                assert(detail_ok_at(cat, reg, toksv[j], details@[j]));
            }
        }
        let validation_summary = ValidationSummary {
            total_parameters: toks.len(),
            valid_count,
            warning_count,
            error_count,
            unknown_count,
            details,
        };
        Ok(ParsedCommandLine { parameters, unknown_parameters, validation_summary })
    }

    /// The one-line verdict of a whole command line: rejected if any token
    /// is, else unknown if any name is, else advisory if any token warns,
    /// else accepted. The probe plays no part in token validation.
    pub fn validate(&self, cmdline: &str, _probe: &SystemProbe) -> (r: ValidationResult)
        ensures
            ({
                let cat = self.catalog@.parameters;
                let reg = self.registry@;
                let toks = tokenize(cmdline@);
                verdict_of(r) == if count_verdict(cat, reg, toks, Verdict::Error) > 0 {
                    Verdict::Error
                } else if count_verdict(cat, reg, toks, Verdict::Unknown) > 0 {
                    Verdict::Unknown
                } else if count_verdict(cat, reg, toks, Verdict::Warning) > 0 {
                    Verdict::Warning
                } else {
                    Verdict::Valid
                }
            }),
    {
        let parsed = match self.parse(cmdline) {
            Ok(p) => p,
            Err(_) => {
                return ValidationResult::Error("parse failed".to_owned());
            },
        };
        let s = &parsed.validation_summary;
        if s.error_count > 0 {
            ValidationResult::Error("command line has invalid parameters".to_owned())
        } else if s.unknown_count > 0 {
            ValidationResult::Unknown("command line has unknown parameters".to_owned())
        } else if s.warning_count > 0 {
            ValidationResult::Warning("command line has advisories".to_owned())
        } else {
            ValidationResult::Valid
        }
    }
}

/// Parses single tokens against one catalog.
pub struct ParameterParser<'a> {
    pub catalog: &'a ParameterCatalog,
    pub registry: StandardValidatorRegistry,
}

impl<'a> ParameterParser<'a> {
    pub fn new(catalog: &'a ParameterCatalog) -> (r: ParameterParser<'a>)
        ensures
            r.catalog == catalog,
            r.registry@.common == crate::validators::builtin_table(),
            r.registry@.registered == Seq::<(Seq<char>, crate::validators::ValidatorKind)>::empty(),
    {
        ParameterParser { catalog, registry: StandardValidatorRegistry::new() }
    }

    /// Parses one `name[=value]` token; every input yields an outcome.
    pub fn parse_single(&self, input: &str) -> (r: Result<ParsedParameter, ParseError>)
        ensures
            r matches Ok(pp) && parsed_token_ok(
                self.catalog@.parameters,
                self.registry@,
                input@,
                pp,
            ),
    {
        Ok(parse_one_token(self.catalog, &self.registry, input))
    }
}

/// The decimal strings of a CPU index list.
pub open spec fn cpu_seqs(cpus: Seq<u32>) -> Seq<Seq<char>> {
    cpus.map_values(|c: u32| crate::strutil::dec_seq(c as int))
}

#[verifier::loop_isolation(false)]
fn cpu_strings(cpus: &Vec<u32>) -> (r: Vec<String>)
    ensures
        r.deep_view() == cpu_seqs(cpus@),
{
    let mut r: Vec<String> = Vec::new();
    let mut i: usize = 0;
    proof {
        assert(r.deep_view() =~= cpu_seqs(cpus@.take(0)));
    }
    while i < cpus.len()
        invariant
            i <= cpus@.len(),
            r.deep_view() == cpu_seqs(cpus@.take(i as int)),
        decreases cpus@.len() - i,
    {
        let ghost prev = r.deep_view();
        r.push(crate::strutil::u64_to_string(cpus[i] as u64));
        proof {
            assert(r.deep_view() =~= prev.push(crate::strutil::dec_seq(cpus@[i as int] as int)));
            assert(r.deep_view() =~= cpu_seqs(cpus@.take(i + 1)));
        }
        i = i + 1;
    }
    proof {
        assert(cpus@.take(cpus@.len() as int) =~= cpus@);
    }
    r
}

/// Builds command line tokens for one parameter from caller-side
/// configuration values.
pub struct ParameterBuilder<'a> {
    pub parameter: &'a Parameter,
}

impl<'a> ParameterBuilder<'a> {
    pub fn new(parameter: &'a Parameter) -> (r: ParameterBuilder<'a>)
        ensures
            r.parameter == parameter,
    {
        ParameterBuilder { parameter }
    }

    /// The token this parameter takes for a configuration value: the bare
    /// name for a set boolean, `name=0` for a cleared one, `name=value`
    /// with decimal numbers, plain text, comma-joined lists, or a CPU list
    /// with an optional `flags:` prefix. A nested configuration has no
    /// single-token form and is refused.
    pub fn build(&self, config: &ParameterConfig) -> (r: Result<String, BuildError>)
        ensures
            match config {
                ParameterConfig::Boolean(b) => r matches Ok(s) && s@ == if *b {
                    self.parameter.name@
                } else {
                    self.parameter.name@ + "=0"@
                },
                ParameterConfig::Integer(n) => r matches Ok(s) && s@ == self.parameter.name@
                    + "="@ + crate::strutil::dec_seq_signed(*n as int),
                ParameterConfig::Str(v) => r matches Ok(s) && s@ == self.parameter.name@ + "="@
                    + v@,
                ParameterConfig::List(v) => r matches Ok(s) && s@ == self.parameter.name@ + "="@
                    + crate::strutil::join_comma(v.deep_view()),
                ParameterConfig::CpuList { cpus, flags } => r matches Ok(s) && s@
                    == self.parameter.name@ + "="@ + (if flags@.len() > 0 {
                    crate::strutil::join_comma(flags.deep_view()) + seq![':']
                        + crate::strutil::join_comma(cpu_seqs(cpus@))
                } else {
                    crate::strutil::join_comma(cpu_seqs(cpus@))
                }),
                ParameterConfig::Complex(_) => r is Err,
            },
    {
        match config {
            ParameterConfig::Boolean(b) => {
                let mut s = self.parameter.name.clone();
                if !*b {
                    s.append("=0");
                }
                Ok(s)
            },
            ParameterConfig::Integer(n) => {
                let mut s = self.parameter.name.clone();
                s.append("=");
                let digits = crate::strutil::i64_to_string(*n);
                s.append(digits.as_str());
                Ok(s)
            },
            ParameterConfig::Str(v) => {
                let mut s = self.parameter.name.clone();
                s.append("=");
                s.append(v.as_str());
                Ok(s)
            },
            ParameterConfig::List(v) => {
                let mut s = self.parameter.name.clone();
                s.append("=");
                let joined = crate::strutil::join_comma_strings(v);
                s.append(joined.as_str());
                Ok(s)
            },
            ParameterConfig::CpuList { cpus, flags } => {
                let mut s = self.parameter.name.clone();
                s.append("=");
                if flags.len() > 0 {
                    let fl = crate::strutil::join_comma_strings(flags);
                    s.append(fl.as_str());
                    s.append(":");
                    proof {
                        reveal_strlit(":");
                    }
                }
                let items = cpu_strings(cpus);
                let joined = crate::strutil::join_comma_strings(&items);
                s.append(joined.as_str());
                Ok(s)
            },
            ParameterConfig::Complex(_) => Err(
                BuildError::InvalidConfig {
                    param: self.parameter.name.clone(),
                    error: "nested configurations have no single-token form".to_owned(),
                },
            ),
        }
    }
}

} // verus!
