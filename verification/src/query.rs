//! The query engine: a composable multi-condition filter over the catalog's
//! parameters.
//!
//! Each of the seven conditions is vacuously true when its filter field is
//! unset; the query mode then combines the seven booleans, requiring all of
//! them under AND and at least one under OR.

use vstd::prelude::*;

use crate::assoc::{assoc_get, lemma_assoc_get_at, lemma_assoc_get_none};
use crate::error::ParseError;
use crate::parameter::{Parameter, ParameterProcessor, ParamV, ProcessorV};
use crate::probe::SystemProbe;
use crate::strutil::{string_eq_str, version_le, version_le_str};

verus! {

/// How the seven condition outcomes combine.
#[derive(Clone, Copy, PartialEq, Eq, Structural, Debug)]
pub enum QueryMode {
    And,
    Or,
}

impl Default for QueryMode {
    /// Queries combine with AND unless asked otherwise.
    fn default() -> (r: QueryMode)
        ensures
            r == QueryMode::And,
    {
        QueryMode::And
    }
}

/// A distribution to filter by: its id, and optionally a version that must
/// fall into the parameter's support window.
pub struct DistributionQuery {
    pub id: String,
    pub version: Option<String>,
}

/// A composable filter over the catalog: any subset of the fields may be
/// set; an unset field constrains nothing.
pub struct QueryParameters {
    pub query_mode: QueryMode,
    /// A regular expression matched against parameter names.
    pub name: Option<String>,
    pub processor: Option<ParameterProcessor>,
    pub pci_ids: Vec<(u16, u16)>,
    pub usb_ids: Vec<(u16, u16)>,
    pub arch: Option<String>,
    pub applicable: Option<bool>,
    pub distribution: Option<DistributionQuery>,
    pub deprecated: Option<bool>,
    pub flags: Vec<String>,
}

#[verifier::ext_equal]
pub ghost struct QueryV {
    pub query_mode: QueryMode,
    pub name: Option<Seq<char>>,
    pub processor: Option<ProcessorV>,
    pub pci_ids: Seq<(u16, u16)>,
    pub usb_ids: Seq<(u16, u16)>,
    pub arch: Option<Seq<char>>,
    pub applicable: Option<bool>,
    pub distribution: Option<(Seq<char>, Option<Seq<char>>)>,
    pub deprecated: Option<bool>,
    pub flags: Seq<Seq<char>>,
}

impl View for QueryParameters {
    type V = QueryV;

    open spec fn view(&self) -> QueryV {
        QueryV {
            query_mode: self.query_mode,
            name: self.name.deep_view(),
            processor: match &self.processor {
                Some(p) => Some(p@),
                None => None,
            },
            pci_ids: self.pci_ids@,
            usb_ids: self.usb_ids@,
            arch: self.arch.deep_view(),
            applicable: self.applicable,
            distribution: match &self.distribution {
                Some(d) => Some((d.id@, d.version.deep_view())),
                None => None,
            },
            deprecated: self.deprecated,
            flags: self.flags.deep_view(),
        }
    }
}

/// Whether a query constrains nothing: every optional field unset, every
/// list empty.
pub open spec fn unconstrained(q: QueryV) -> bool {
    &&& q.name is None
    &&& q.processor is None
    &&& q.pci_ids.len() == 0
    &&& q.usb_ids.len() == 0
    &&& q.arch is None
    &&& q.applicable is None
    &&& q.distribution is None
    &&& q.deprecated is None
    &&& q.flags.len() == 0
}

impl Default for QueryParameters {
    /// The unconstrained query: AND mode, no field set.
    fn default() -> (r: QueryParameters)
        ensures
            r@.query_mode == QueryMode::And,
            unconstrained(r@),
    {
        QueryParameters {
            query_mode: QueryMode::And,
            name: None,
            processor: None,
            pci_ids: Vec::new(),
            usb_ids: Vec::new(),
            arch: None,
            applicable: None,
            distribution: None,
            deprecated: None,
            flags: Vec::new(),
        }
    }
}

/// What the name pattern of a query may compile to, and what it matches.
/// Both facts live outside this library, in the regular expression engine.
pub uninterp spec fn pattern_compiles(pattern: Seq<char>) -> bool;

pub uninterp spec fn pattern_matches(pattern: Seq<char>, text: Seq<char>) -> bool;

/// Relies on regex::Regex::new, which compiles a pattern or rejects it, and
/// regex::Regex::is_match, which reports whether the compiled pattern
/// matches anywhere in the text; both are deterministic in their string
/// arguments alone.
#[verifier::external_body]
fn regex_match(pattern: &str, text: &str) -> (r: Option<bool>)
    ensures
        r is Some <==> pattern_compiles(pattern@),
        r matches Some(b) ==> b == pattern_matches(pattern@, text@),
{
    match regex::Regex::new(pattern) {
        Ok(re) => Some(re.is_match(text)),
        Err(_) => None,
    }
}

/// Whether a pattern compiles, checked against the engine itself.
pub fn pattern_check(pattern: &str) -> (r: bool)
    ensures
        r == pattern_compiles(pattern@),
{
    match regex_match(pattern, "") {
        Some(_) => true,
        None => false,
    }
}

/// The query that filters by a name pattern alone.
pub open spec fn name_query(pattern: Seq<char>) -> QueryV {
    QueryV {
        query_mode: QueryMode::And,
        name: Some(pattern),
        processor: None,
        pci_ids: Seq::<(u16, u16)>::empty(),
        usb_ids: Seq::<(u16, u16)>::empty(),
        arch: None,
        applicable: None,
        distribution: None,
        deprecated: None,
        flags: Seq::<Seq<char>>::empty(),
    }
}

/// The query that filters by one PCI vendor/device pair alone.
pub open spec fn pci_query(vendor_id: u16, device_id: u16) -> QueryV {
    QueryV {
        query_mode: QueryMode::And,
        name: None,
        processor: None,
        pci_ids: seq![(vendor_id, device_id)],
        usb_ids: Seq::<(u16, u16)>::empty(),
        arch: None,
        applicable: None,
        distribution: None,
        deprecated: None,
        flags: Seq::<Seq<char>>::empty(),
    }
}

impl QueryParameters {
    pub fn new() -> (r: QueryParameters)
        ensures
            r@.query_mode == QueryMode::And,
            unconstrained(r@),
    {
        Default::default()
    }

    /// Sets the name pattern after checking that it compiles; a pattern the
    /// engine rejects comes back as an error, with the query unchanged.
    pub fn with_name_pattern(self, pattern: &str) -> (r: Result<QueryParameters, ParseError>)
        ensures
            pattern_compiles(pattern@) <==> r is Ok,
            r matches Ok(q) ==> q@ == (QueryV { name: Some(pattern@), ..self@ }),
            r is Err ==> r->Err_0 is InvalidFormat,
    {
        match regex_match(pattern, "") {
            Some(_) => Ok(QueryParameters { name: Some(pattern.to_owned()), ..self }),
            None => Err(ParseError::InvalidFormat(pattern.to_owned())),
        }
    }

    pub fn with_processor(self, processor: ParameterProcessor) -> (r: QueryParameters)
        ensures
            r@ == (QueryV { processor: Some(processor@), ..self@ }),
    {
        QueryParameters { processor: Some(processor), ..self }
    }

    /// Restricts the query to parameters applicable on the probed system.
    pub fn applicable_only(self) -> (r: QueryParameters)
        ensures
            r@ == (QueryV { applicable: Some(true), ..self@ }),
    {
        QueryParameters { applicable: Some(true), ..self }
    }
}

/// Name condition: unset passes; a set pattern must compile and match the
/// parameter's name somewhere.
pub open spec fn name_cond(q: QueryV, p: ParamV) -> bool {
    match q.name {
        None => true,
        Some(pat) => pattern_compiles(pat) && pattern_matches(pat, p.name),
    }
}

/// Processor condition: equality over the whole value, payload included.
pub open spec fn processor_cond(q: QueryV, p: ParamV) -> bool {
    match q.processor {
        None => true,
        Some(pr) => p.processor == pr,
    }
}

pub open spec fn hex_digit_char(k: int) -> char {
    if k == 0 {
        '0'
    } else if k == 1 {
        '1'
    } else if k == 2 {
        '2'
    } else if k == 3 {
        '3'
    } else if k == 4 {
        '4'
    } else if k == 5 {
        '5'
    } else if k == 6 {
        '6'
    } else if k == 7 {
        '7'
    } else if k == 8 {
        '8'
    } else if k == 9 {
        '9'
    } else if k == 10 {
        'a'
    } else if k == 11 {
        'b'
    } else if k == 12 {
        'c'
    } else if k == 13 {
        'd'
    } else if k == 14 {
        'e'
    } else {
        'f'
    }
}

/// Four lowercase hex digits, most significant first.
pub open spec fn hex4_seq(n: u16) -> Seq<char> {
    seq![
        hex_digit_char(((n >> 12) & 0xf) as int),
        hex_digit_char(((n >> 8) & 0xf) as int),
        hex_digit_char(((n >> 4) & 0xf) as int),
        hex_digit_char((n & 0xf) as int),
    ]
}

/// The probe tag a PCI vendor/device pair appears as.
pub open spec fn pci_tag(v: u16, d: u16) -> Seq<char> {
    "pci:"@ + hex4_seq(v) + ":"@ + hex4_seq(d)
}

/// The probe tag a USB vendor/product pair appears as.
pub open spec fn usb_tag(v: u16, d: u16) -> Seq<char> {
    "usb:"@ + hex4_seq(v) + ":"@ + hex4_seq(d)
}

fn hex_digit_str(k: u16) -> (r: &'static str)
    requires
        k < 16,
    ensures
        r@ == seq![hex_digit_char(k as int)],
{
    proof {
        reveal_strlit("0");
        reveal_strlit("1");
        reveal_strlit("2");
        reveal_strlit("3");
        reveal_strlit("4");
        reveal_strlit("5");
        reveal_strlit("6");
        reveal_strlit("7");
        reveal_strlit("8");
        reveal_strlit("9");
        reveal_strlit("a");
        reveal_strlit("b");
        reveal_strlit("c");
        reveal_strlit("d");
        reveal_strlit("e");
        reveal_strlit("f");
    }
    if k == 0 {
        "0"
    } else if k == 1 {
        "1"
    } else if k == 2 {
        "2"
    } else if k == 3 {
        "3"
    } else if k == 4 {
        "4"
    } else if k == 5 {
        "5"
    } else if k == 6 {
        "6"
    } else if k == 7 {
        "7"
    } else if k == 8 {
        "8"
    } else if k == 9 {
        "9"
    } else if k == 10 {
        "a"
    } else if k == 11 {
        "b"
    } else if k == 12 {
        "c"
    } else if k == 13 {
        "d"
    } else if k == 14 {
        "e"
    } else {
        "f"
    }
}

fn hex4_string(n: u16) -> (r: String)
    ensures
        r@ == hex4_seq(n),
{
    proof {
        assert((n >> 12) & 0xf < 16) by (bit_vector);
        assert((n >> 8) & 0xf < 16) by (bit_vector);
        assert((n >> 4) & 0xf < 16) by (bit_vector);
        assert(n & 0xf < 16) by (bit_vector);
    }
    let mut s = String::new();
    s.append(hex_digit_str((n >> 12) & 0xf));
    s.append(hex_digit_str((n >> 8) & 0xf));
    s.append(hex_digit_str((n >> 4) & 0xf));
    s.append(hex_digit_str(n & 0xf));
    proof {
        assert(s@ =~= hex4_seq(n));
    }
    s
}

fn make_pci_tag(v: u16, d: u16) -> (r: String)
    ensures
        r@ == pci_tag(v, d),
{
    let mut s = "pci:".to_owned();
    s.append(hex4_string(v).as_str());
    s.append(":");
    s.append(hex4_string(d).as_str());
    proof {
        assert(s@ =~= pci_tag(v, d));
    }
    s
}

fn make_usb_tag(v: u16, d: u16) -> (r: String)
    ensures
        r@ == usb_tag(v, d),
{
    let mut s = "usb:".to_owned();
    s.append(hex4_string(v).as_str());
    s.append(":");
    s.append(hex4_string(d).as_str());
    proof {
        assert(s@ =~= usb_tag(v, d));
    }
    s
}

/// Hardware condition: every queried PCI and USB pair must appear among the
/// probe's discovered device tags; no queried pair constrains nothing.
pub open spec fn hardware_cond(q: QueryV, probe: &SystemProbe) -> bool {
    (forall|i: int|
        0 <= i < q.pci_ids.len() ==> probe.spec_has_tag(
            pci_tag(#[trigger] q.pci_ids[i].0, q.pci_ids[i].1),
        )) && (forall|i: int|
        0 <= i < q.usb_ids.len() ==> probe.spec_has_tag(
            usb_tag(#[trigger] q.usb_ids[i].0, q.usb_ids[i].1),
        ))
}

/// Whether every selector of a parameter is satisfied by the probe's tags.
pub open spec fn applicable_spec(p: ParamV, probe: &SystemProbe) -> bool {
    forall|i: int| 0 <= i < p.selectors.len() ==> probe.spec_has_tag(#[trigger] p.selectors[i])
}

pub fn applicable_exec(p: &Parameter, probe: &SystemProbe) -> (r: bool)
    ensures
        r == applicable_spec(p@, probe),
{
    let r = p.is_applicable(probe);
    proof {
        assert(p@.selectors.len() == p.selectors@.len());
        if r {
            assert forall|i: int| 0 <= i < p@.selectors.len() implies probe.spec_has_tag(
                #[trigger] p@.selectors[i],
            ) by {
                assert(p@.selectors[i] == p.selectors@[i]@);
            }
        } else {
            if applicable_spec(p@, probe) {
                assert forall|i: int| 0 <= i < p.selectors@.len() implies probe.spec_has_tag(
                    #[trigger] p.selectors@[i]@,
                ) by {
                    assert(p@.selectors[i] == p.selectors@[i]@);
                }
                assert(p.spec_is_applicable(probe));
            }
        }
    }
    r
}

/// Applicability condition: unset passes; a set flag must equal whether the
/// parameter applies on the probed system.
pub open spec fn applicability_cond(q: QueryV, p: ParamV, probe: &SystemProbe) -> bool {
    match q.applicable {
        None => true,
        Some(want) => applicable_spec(p, probe) == want,
    }
}

/// Whether a parameter is available in a distribution: the distribution must
/// have a support entry, and a queried version must fall inside the entry's
/// window.
pub open spec fn distribution_available(
    p: ParamV,
    id: Seq<char>,
    version: Option<Seq<char>>,
) -> bool {
    match assoc_get(p.distributions, id) {
        None => false,
        Some(d) => match version {
            None => true,
            Some(v) => (d.min_version is None || version_le(d.min_version->0, v)) && (
            d.max_version is None || version_le(v, d.max_version->0)),
        },
    }
}

/// Distribution condition: unset passes; a set distribution must be
/// supported, in the queried version when one is given.
pub open spec fn distribution_cond(q: QueryV, p: ParamV) -> bool {
    match q.distribution {
        None => true,
        Some(dq) => distribution_available(p, dq.0, dq.1),
    }
}

/// Deprecation condition: unset passes; a set flag must equal the record's.
pub open spec fn deprecated_cond(q: QueryV, p: ParamV) -> bool {
    match q.deprecated {
        None => true,
        Some(b) => p.deprecated == b,
    }
}

/// Flag condition: every queried flag must be among the parameter's
/// selector tags; an empty flag list constrains nothing.
pub open spec fn flags_cond(q: QueryV, p: ParamV) -> bool {
    forall|i: int|
        0 <= i < q.flags.len() ==> crate::strutil::seq_contains_str(
            p.selectors,
            #[trigger] q.flags[i],
        )
}

/// The seven conditions combined under the query's mode.
pub open spec fn matches_query_spec(q: QueryV, p: ParamV, probe: &SystemProbe) -> bool {
    let c1 = name_cond(q, p);
    let c2 = processor_cond(q, p);
    let c3 = hardware_cond(q, probe);
    let c4 = applicability_cond(q, p, probe);
    let c5 = distribution_cond(q, p);
    let c6 = deprecated_cond(q, p);
    let c7 = flags_cond(q, p);
    match q.query_mode {
        QueryMode::And => c1 && c2 && c3 && c4 && c5 && c6 && c7,
        QueryMode::Or => c1 || c2 || c3 || c4 || c5 || c6 || c7,
    }
}

/// An entirely unconstrained query matches every parameter under either
/// mode: each condition passes vacuously when its field is unset.
pub proof fn lemma_unconstrained_query_matches_all(q: QueryV, p: ParamV, probe: &SystemProbe)
    requires
        unconstrained(q),
    ensures
        matches_query_spec(q, p, probe),
{
}

/// Under OR it takes only one true condition to match, and an unset field's
/// condition is vacuously true: any OR query that queries no hardware pairs
/// matches every parameter. This is why constraining a single other field
/// still changes nothing under OR.
pub proof fn lemma_or_mode_vacuous_condition_matches(q: QueryV, p: ParamV, probe: &SystemProbe)
    requires
        q.query_mode == QueryMode::Or,
        q.pci_ids.len() == 0,
        q.usb_ids.len() == 0,
    ensures
        matches_query_spec(q, p, probe),
{
}

proof fn lemma_filter_all_params(params: Seq<ParamV>, pred: spec_fn(ParamV) -> bool)
    requires
        forall|i: int| 0 <= i < params.len() ==> pred(#[trigger] params[i]),
    ensures
        params.filter(pred) == params,
    decreases params.len(),
{
    reveal_with_fuel(Seq::filter, 2);
    if params.len() == 0 {
        assert(params.filter(pred) =~= params);
    } else {
        assert(forall|i: int|
            0 <= i < params.drop_last().len() ==> pred(#[trigger] params.drop_last()[i]));
        lemma_filter_all_params(params.drop_last(), pred);
        assert(pred(params.last()));
        assert(params.filter(pred) =~= params);
    }
}

/// An entirely unconstrained query returns the full catalog, under AND and
/// under OR alike: filtering with it keeps every parameter.
pub proof fn lemma_unconstrained_query_returns_all(
    q: QueryV,
    params: Seq<ParamV>,
    probe: &SystemProbe,
)
    requires
        unconstrained(q),
    ensures
        params.filter(|pv: ParamV| matches_query_spec(q, pv, probe)) == params,
{
    assert forall|i: int| 0 <= i < params.len() implies (|pv: ParamV|
        matches_query_spec(q, pv, probe))(#[trigger] params[i]) by {
        lemma_unconstrained_query_matches_all(q, params[i], probe);
    }
    lemma_filter_all_params(params, |pv: ParamV| matches_query_spec(q, pv, probe));
}

pub fn check_name(query: &QueryParameters, p: &Parameter) -> (r: bool)
    ensures
        r == name_cond(query@, p@),
{
    match &query.name {
        None => true,
        Some(pat) => match regex_match(pat.as_str(), p.name.as_str()) {
            Some(b) => b,
            None => false,
        },
    }
}

pub fn check_processor(query: &QueryParameters, p: &Parameter) -> (r: bool)
    ensures
        r == processor_cond(query@, p@),
{
    match &query.processor {
        None => true,
        Some(pr) => crate::parameter::processor_eq(&p.processor, pr),
    }
}

#[verifier::loop_isolation(false)]
pub fn check_hardware(query: &QueryParameters, probe: &SystemProbe) -> (r: bool)
    ensures
        r == hardware_cond(query@, probe),
{
    let mut i: usize = 0;
    while i < query.pci_ids.len()
        invariant
            i <= query.pci_ids@.len(),
            forall|j: int|
                0 <= j < i ==> probe.spec_has_tag(
                    pci_tag(#[trigger] query.pci_ids@[j].0, query.pci_ids@[j].1),
                ),
        decreases query.pci_ids@.len() - i,
    {
        let tag = make_pci_tag(query.pci_ids[i].0, query.pci_ids[i].1);
        if !probe.has_tag(tag.as_str()) {
            proof {
                assert(query@.pci_ids == query.pci_ids@);
                assert(!probe.spec_has_tag(
                    pci_tag(query@.pci_ids[i as int].0, query@.pci_ids[i as int].1),
                ));
            }
            return false;
        }
        i = i + 1;
    }
    let mut i: usize = 0;
    while i < query.usb_ids.len()
        invariant
            i <= query.usb_ids@.len(),
            forall|j: int|
                0 <= j < i ==> probe.spec_has_tag(
                    usb_tag(#[trigger] query.usb_ids@[j].0, query.usb_ids@[j].1),
                ),
            forall|j: int|
                0 <= j < query.pci_ids@.len() ==> probe.spec_has_tag(
                    pci_tag(#[trigger] query.pci_ids@[j].0, query.pci_ids@[j].1),
                ),
        decreases query.usb_ids@.len() - i,
    {
        let tag = make_usb_tag(query.usb_ids[i].0, query.usb_ids[i].1);
        if !probe.has_tag(tag.as_str()) {
            proof {
                assert(query@.usb_ids == query.usb_ids@);
                assert(!probe.spec_has_tag(
                    usb_tag(query@.usb_ids[i as int].0, query@.usb_ids[i as int].1),
                ));
            }
            return false;
        }
        i = i + 1;
    }
    true
}

pub fn check_applicability(query: &QueryParameters, p: &Parameter, probe: &SystemProbe) -> (r:
    bool)
    ensures
        r == applicability_cond(query@, p@, probe),
{
    match &query.applicable {
        None => true,
        Some(want) => {
            let a = applicable_exec(p, probe);
            a == *want
        },
    }
}

impl Parameter {
    /// Whether this parameter is supported by the named distribution in the
    /// given version, judged by the record's support window.
    #[verifier::loop_isolation(false)]
    pub fn is_available_in_distribution(&self, distro: &str, version: &str) -> (r: bool)
        ensures
            r == distribution_available(self@, distro@, Some(version@)),
    {
        let ghost dists = self@.distributions;
        let mut i: usize = 0;
        while i < self.distributions.len()
            invariant
                i <= self.distributions@.len(),
                dists == self@.distributions,
                dists.len() == self.distributions@.len(),
                forall|j: int| 0 <= j < i ==> dists[j].0 != distro@,
                forall|j: int|
                    0 <= j < dists.len() ==> dists[j] == (
                    self.distributions@[j].0@,
                    self.distributions@[j].1@,
                ),
            decreases self.distributions@.len() - i,
        {
            if string_eq_str(&self.distributions[i].0, distro) {
                proof {
                    lemma_assoc_get_at(dists, distro@, i as int);
                }
                let d = &self.distributions[i].1;
                let min_ok = match &d.min_version {
                    None => true,
                    Some(mn) => version_le_str(mn.as_str(), version),
                };
                let max_ok = match &d.max_version {
                    None => true,
                    Some(mx) => version_le_str(version, mx.as_str()),
                };
                return min_ok && max_ok;
            }
            i = i + 1;
        }
        proof {
            lemma_assoc_get_none(dists, distro@);
        }
        false
    }
}

#[verifier::loop_isolation(false)]
pub fn check_distribution(query: &QueryParameters, p: &Parameter) -> (r: bool)
    ensures
        r == distribution_cond(query@, p@),
{
    match &query.distribution {
        None => true,
        Some(dq) => match &dq.version {
            Some(v) => p.is_available_in_distribution(dq.id.as_str(), v.as_str()),
            None => {
                let ghost dists = p@.distributions;
                let mut i: usize = 0;
                while i < p.distributions.len()
                    invariant
                        i <= p.distributions@.len(),
                        dists == p@.distributions,
                        dists.len() == p.distributions@.len(),
                        forall|j: int| 0 <= j < i ==> dists[j].0 != dq.id@,
                        forall|j: int|
                            0 <= j < dists.len() ==> dists[j] == (
                            p.distributions@[j].0@,
                            p.distributions@[j].1@,
                        ),
                    decreases p.distributions@.len() - i,
                {
                    if string_eq_str(&p.distributions[i].0, dq.id.as_str()) {
                        proof {
                            lemma_assoc_get_at(dists, dq.id@, i as int);
                        }
                        return true;
                    }
                    i = i + 1;
                }
                proof {
                    lemma_assoc_get_none(dists, dq.id@);
                }
                false
            },
        },
    }
}

pub fn check_deprecated(query: &QueryParameters, p: &Parameter) -> (r: bool)
    ensures
        r == deprecated_cond(query@, p@),
{
    match &query.deprecated {
        None => true,
        Some(b) => p.deprecated == *b,
    }
}

#[verifier::loop_isolation(false)]
pub fn check_flags(query: &QueryParameters, p: &Parameter) -> (r: bool)
    ensures
        r == flags_cond(query@, p@),
{
    let mut i: usize = 0;
    while i < query.flags.len()
        invariant
            i <= query.flags@.len(),
            forall|j: int|
                0 <= j < i ==> crate::strutil::seq_contains_str(
                    p@.selectors,
                    #[trigger] query@.flags[j],
                ),
        decreases query.flags@.len() - i,
    {
        proof {
            assert(query@.flags[i as int] == query.flags@[i as int]@);
        }
        if !crate::strutil::list_contains_str(&p.selectors, query.flags[i].as_str()) {
            proof {
                assert(p.selectors.deep_view() == p@.selectors);
            }
            return false;
        }
        proof {
            assert(p.selectors.deep_view() == p@.selectors);
        }
        i = i + 1;
    }
    true
}

/// Evaluates the seven conditions and combines them under the query's mode.
pub fn query_matches(query: &QueryParameters, p: &Parameter, probe: &SystemProbe) -> (r: bool)
    ensures
        r == matches_query_spec(query@, p@, probe),
{
    let c1 = check_name(query, p);
    let c2 = check_processor(query, p);
    let c3 = check_hardware(query, probe);
    let c4 = check_applicability(query, p, probe);
    let c5 = check_distribution(query, p);
    let c6 = check_deprecated(query, p);
    let c7 = check_flags(query, p);
    match query.query_mode {
        QueryMode::And => c1 && c2 && c3 && c4 && c5 && c6 && c7,
        QueryMode::Or => c1 || c2 || c3 || c4 || c5 || c6 || c7,
    }
}

} // verus!
