//! Schema sources and the database builder.
//!
//! A schema source is a snapshot of raw records. The builder unions the
//! names of all sources, keeps for each name the entire record from the
//! last source that defines it, converts it, and computes the parent and
//! processor indices. A malformed record does not abort the build: the
//! offending parameter is excluded and recorded.

use vstd::prelude::*;

use crate::assoc::{
    add_entry, assoc_get, lemma_add_entry_found, lemma_add_entry_get, lemma_add_entry_missing,
    lemma_assoc_get_at, lemma_assoc_get_none, lemma_assoc_get_push,
};
use crate::error::DatabaseError;
use crate::parameter::{
    clone_opt_string, ConfigMap, ConfigValueV, DistributionSupport, DistributionSupportV,
    DocumentationLinks, DocumentationLinksV, Examples, ExamplesV, Parameter, ParameterProcessor,
    ParamV, ProcessorV, SyntaxDefinition, SyntaxV,
};
use crate::strutil::{clone_vec_string, list_contains_str, seq_contains_str, str_eq, string_eq_str};

verus! {

/// A raw syntax record, as a source stores it.
pub struct SyntaxDefinitionRaw {
    pub validator_type: String,
    pub format: String,
    pub config: ConfigMap,
}

impl View for SyntaxDefinitionRaw {
    type V = SyntaxV;

    open spec fn view(&self) -> SyntaxV {
        SyntaxV {
            validator_type: self.validator_type@,
            format: self.format@,
            config: self.config@,
        }
    }
}

/// A raw distribution-support record.
pub struct DistributionSupportRaw {
    pub min_version: Option<String>,
    pub max_version: Option<String>,
    pub component_version: Option<String>,
    pub notes: Option<String>,
}

impl View for DistributionSupportRaw {
    type V = DistributionSupportV;

    open spec fn view(&self) -> DistributionSupportV {
        DistributionSupportV {
            min_version: self.min_version.deep_view(),
            max_version: self.max_version.deep_view(),
            component_version: self.component_version.deep_view(),
            notes: self.notes.deep_view(),
        }
    }
}

/// Raw example lists.
pub struct ExamplesRaw {
    pub valid: Vec<String>,
    pub invalid: Vec<String>,
}

impl View for ExamplesRaw {
    type V = ExamplesV;

    open spec fn view(&self) -> ExamplesV {
        ExamplesV { valid: self.valid.deep_view(), invalid: self.invalid.deep_view() }
    }
}

/// Raw documentation links.
pub struct DocumentationLinksRaw {
    pub kernel_org: Option<String>,
    pub man_pages: Vec<String>,
    pub distribution_docs: Vec<(String, String)>,
}

impl View for DocumentationLinksRaw {
    type V = DocumentationLinksV;

    open spec fn view(&self) -> DocumentationLinksV {
        DocumentationLinksV {
            kernel_org: self.kernel_org.deep_view(),
            man_pages: self.man_pages.deep_view(),
            distribution_docs: self.distribution_docs@.map_values(
                |e: (String, String)| (e.0@, e.1@),
            ),
        }
    }
}

/// One raw parameter definition, exactly as a source stores it; absent
/// optional fields take defaults only at conversion time.
pub struct ParameterDefinitionRaw {
    pub name: String,
    pub processor: String,
    pub description: String,
    pub deprecated: Option<bool>,
    pub selectors: Option<Vec<String>>,
    pub syntax: SyntaxDefinitionRaw,
    pub distributions: Option<Vec<(String, DistributionSupportRaw)>>,
    pub examples: Option<ExamplesRaw>,
    pub documentation: Option<DocumentationLinksRaw>,
}

pub ghost struct RawDefV {
    pub name: Seq<char>,
    pub processor: Seq<char>,
    pub description: Seq<char>,
    pub deprecated: Option<bool>,
    pub selectors: Option<Seq<Seq<char>>>,
    pub syntax: SyntaxV,
    pub distributions: Option<Seq<(Seq<char>, DistributionSupportV)>>,
    pub examples: Option<ExamplesV>,
    pub documentation: Option<DocumentationLinksV>,
}

impl View for ParameterDefinitionRaw {
    type V = RawDefV;

    open spec fn view(&self) -> RawDefV {
        RawDefV {
            name: self.name@,
            processor: self.processor@,
            description: self.description@,
            deprecated: self.deprecated,
            selectors: match &self.selectors {
                Some(v) => Some(v.deep_view()),
                None => None,
            },
            syntax: self.syntax@,
            distributions: match &self.distributions {
                Some(v) => Some(
                    v@.map_values(|e: (String, DistributionSupportRaw)| (e.0@, e.1@)),
                ),
                None => None,
            },
            examples: match &self.examples {
                Some(e) => Some(e@),
                None => None,
            },
            documentation: match &self.documentation {
                Some(d) => Some(d@),
                None => None,
            },
        }
    }
}

/// A raw vendor note in a version record.
pub struct VendorVersionRaw {
    pub introduced: Option<String>,
    pub commit: Option<String>,
    pub notes: Option<String>,
}

/// A raw component version in a version record.
pub struct ComponentVersionRaw {
    pub name: String,
    pub version: String,
}

/// Raw mainline history of a parameter.
pub struct VersionInfoRaw {
    pub introduced: Option<String>,
    pub commit: Option<String>,
    pub last_modified: Option<String>,
    pub last_modified_commit: Option<String>,
}

/// A raw version record: mainline history, per-vendor notes, component
/// versions.
pub struct ParameterVersionsRaw {
    pub mainline: Option<VersionInfoRaw>,
    pub vendors: Vec<(String, Vec<(String, VendorVersionRaw)>)>,
    pub components: Vec<(String, ComponentVersionRaw)>,
}

/// One origin of raw records: the build-embedded snapshot or a filesystem
/// tree, already read into plain values.
pub struct SchemaSource {
    pub definitions: Vec<ParameterDefinitionRaw>,
    pub versions: Vec<(String, ParameterVersionsRaw)>,
}

pub ghost struct SourceV {
    pub definitions: Seq<RawDefV>,
}

impl View for SchemaSource {
    type V = SourceV;

    open spec fn view(&self) -> SourceV {
        SourceV {
            definitions: self.definitions@.map_values(|d: ParameterDefinitionRaw| d@),
        }
    }
}

pub open spec fn sources_view(ss: Seq<SchemaSource>) -> Seq<SourceV> {
    ss.map_values(|s: SchemaSource| s@)
}

/// The names one source defines, in record order.
pub open spec fn source_names(sv: SourceV) -> Seq<Seq<char>> {
    sv.definitions.map_values(|d: RawDefV| d.name)
}

/// All names across the sources, source by source.
pub open spec fn all_names(svs: Seq<SourceV>) -> Seq<Seq<char>>
    decreases svs.len(),
{
    if svs.len() == 0 {
        Seq::<Seq<char>>::empty()
    } else {
        all_names(svs.drop_last()) + source_names(svs.last())
    }
}

/// Names with later duplicates removed: the first occurrence decides the
/// position.
pub open spec fn dedup_first(names: Seq<Seq<char>>) -> Seq<Seq<char>>
    decreases names.len(),
{
    if names.len() == 0 {
        Seq::<Seq<char>>::empty()
    } else {
        let rest = dedup_first(names.drop_last());
        if seq_contains_str(rest, names.last()) {
            rest
        } else {
            rest.push(names.last())
        }
    }
}

/// The first record in a definition list whose name field is `name`.
pub open spec fn def_in(defs: Seq<RawDefV>, name: Seq<char>) -> Option<RawDefV>
    decreases defs.len(),
{
    if defs.len() == 0 {
        None
    } else if defs[0].name == name {
        Some(defs[0])
    } else {
        def_in(defs.drop_first(), name)
    }
}

/// The whole record from the last source that defines `name`: whole-record
/// replacement, never field-level merging.
pub open spec fn last_def(svs: Seq<SourceV>, name: Seq<char>) -> Option<RawDefV>
    decreases svs.len(),
{
    if svs.len() == 0 {
        None
    } else {
        match def_in(svs.last().definitions, name) {
            Some(d) => Some(d),
            None => last_def(svs.drop_last(), name),
        }
    }
}

/// The processor names a record may carry, with the payload each one gets.
pub open spec fn parse_processor_spec(s: Seq<char>) -> Option<ProcessorV> {
    if s == "kernel"@ {
        Some(ProcessorV::Kernel)
    } else if s == "systemd"@ {
        Some(ProcessorV::Systemd { min_version: "219"@ })
    } else if s == "dracut"@ {
        Some(ProcessorV::Dracut { min_version: "011"@ })
    } else if s == "initramfs-tools"@ {
        Some(ProcessorV::InitramfsTools)
    } else if s == "plymouth"@ {
        Some(ProcessorV::Plymouth)
    } else if s == "grub"@ {
        Some(ProcessorV::Grub)
    } else {
        None
    }
}

/// Conversion of one raw record: the processor is parsed, absent optional
/// fields take their defaults, everything else is kept verbatim. An unknown
/// processor makes the record malformed.
pub open spec fn convert_spec(d: RawDefV) -> Option<ParamV> {
    match parse_processor_spec(d.processor) {
        None => None,
        Some(p) => Some(
            ParamV {
                name: d.name,
                processor: p,
                description: d.description,
                deprecated: match d.deprecated {
                    Some(b) => b,
                    None => false,
                },
                selectors: match d.selectors {
                    Some(v) => v,
                    None => Seq::<Seq<char>>::empty(),
                },
                syntax: d.syntax,
                distributions: match d.distributions {
                    Some(v) => v,
                    None => Seq::<(Seq<char>, DistributionSupportV)>::empty(),
                },
                examples: match d.examples {
                    Some(e) => e,
                    None => ExamplesV {
                        valid: Seq::<Seq<char>>::empty(),
                        invalid: Seq::<Seq<char>>::empty(),
                    },
                },
                documentation: d.documentation,
            },
        ),
    }
}

/// The database entries for a name list: a name without a record is skipped
/// silently, a name whose record does not convert is excluded (and shows up
/// in the issue list instead).
pub open spec fn build_params(svs: Seq<SourceV>, names: Seq<Seq<char>>) -> Seq<
    (Seq<char>, ParamV),
>
    decreases names.len(),
{
    if names.len() == 0 {
        Seq::<(Seq<char>, ParamV)>::empty()
    } else {
        let rest = build_params(svs, names.drop_last());
        match last_def(svs, names.last()) {
            None => rest,
            Some(d) => match convert_spec(d) {
                None => rest,
                Some(p) => rest.push((names.last(), p)),
            },
        }
    }
}

/// The issue list: each excluded name with the processor string that made
/// its record malformed.
pub open spec fn build_issues(svs: Seq<SourceV>, names: Seq<Seq<char>>) -> Seq<
    (Seq<char>, Seq<char>),
>
    decreases names.len(),
{
    if names.len() == 0 {
        Seq::<(Seq<char>, Seq<char>)>::empty()
    } else {
        let rest = build_issues(svs, names.drop_last());
        match last_def(svs, names.last()) {
            None => rest,
            Some(d) => match convert_spec(d) {
                None => rest.push((names.last(), d.processor)),
                Some(_) => rest,
            },
        }
    }
}

/// Position of the rightmost `/` in a name, if any.
pub open spec fn last_slash(s: Seq<char>) -> Option<int>
    decreases s.len(),
{
    if s.len() == 0 {
        None
    } else if s.last() == '/' {
        Some(s.len() - 1)
    } else {
        last_slash(s.drop_last())
    }
}

/// The parent of a hierarchical name: everything left of the rightmost `/`.
/// Parent links are derived from names alone.
pub open spec fn parent_of(s: Seq<char>) -> Option<Seq<char>> {
    match last_slash(s) {
        Some(i) => Some(s.take(i)),
        None => None,
    }
}

/// The parent index over a list of database names, built name by name.
pub open spec fn subidx(names: Seq<Seq<char>>) -> Seq<(Seq<char>, Seq<Seq<char>>)>
    decreases names.len(),
{
    if names.len() == 0 {
        Seq::<(Seq<char>, Seq<Seq<char>>)>::empty()
    } else {
        let rest = subidx(names.drop_last());
        match parent_of(names.last()) {
            None => rest,
            Some(p) => add_entry(rest, p, names.last()),
        }
    }
}

/// The processor index over the database entries, built entry by entry;
/// processors are compared on the whole value, payload included.
pub open spec fn procidx(params: Seq<(Seq<char>, ParamV)>) -> Seq<(ProcessorV, Seq<Seq<char>>)>
    decreases params.len(),
{
    if params.len() == 0 {
        Seq::<(ProcessorV, Seq<Seq<char>>)>::empty()
    } else {
        let rest = procidx(params.drop_last());
        add_entry(rest, params.last().1.processor, params.last().0)
    }
}

pub ghost struct DbV {
    pub parameters: Seq<(Seq<char>, ParamV)>,
    pub subparameter_index: Seq<(Seq<char>, Seq<Seq<char>>)>,
    pub processor_index: Seq<(ProcessorV, Seq<Seq<char>>)>,
    pub issues: Seq<(Seq<char>, Seq<char>)>,
}

/// What a build yields, as a function of the sources alone.
pub open spec fn build_db_spec(svs: Seq<SourceV>) -> DbV {
    let names = dedup_first(all_names(svs));
    let params = build_params(svs, names);
    DbV {
        parameters: params,
        subparameter_index: subidx(params.map_values(|e: (Seq<char>, ParamV)| e.0)),
        processor_index: procidx(params),
        issues: build_issues(svs, names),
    }
}

proof fn lemma_def_in_at(defs: Seq<RawDefV>, name: Seq<char>, i: int)
    requires
        0 <= i < defs.len(),
        defs[i].name == name,
        forall|j: int| 0 <= j < i ==> defs[j].name != name,
    ensures
        def_in(defs, name) == Some(defs[i]),
    decreases i,
{
    if i > 0 {
        lemma_def_in_at(defs.drop_first(), name, i - 1);
    }
}

proof fn lemma_def_in_none(defs: Seq<RawDefV>, name: Seq<char>)
    requires
        forall|j: int| 0 <= j < defs.len() ==> defs[j].name != name,
    ensures
        def_in(defs, name) is None,
    decreases defs.len(),
{
    if defs.len() > 0 {
        lemma_def_in_none(defs.drop_first(), name);
    }
}

proof fn lemma_last_slash_at(s: Seq<char>, i: int)
    requires
        0 <= i < s.len(),
        s[i] == '/',
        forall|j: int| i < j < s.len() ==> s[j] != '/',
    ensures
        last_slash(s) == Some(i),
    decreases s.len(),
{
    if i < s.len() - 1 {
        lemma_last_slash_at(s.drop_last(), i);
    }
}

proof fn lemma_last_slash_none(s: Seq<char>)
    requires
        forall|j: int| 0 <= j < s.len() ==> s[j] != '/',
    ensures
        last_slash(s) is None,
    decreases s.len(),
{
    if s.len() > 0 {
        lemma_last_slash_none(s.drop_last());
    }
}

/// The parent of a name, as a fresh string: everything left of the
/// rightmost `/`.
#[verifier::loop_isolation(false)]
pub fn parent_name(s: &str) -> (r: Option<String>)
    ensures
        match r {
            Some(p) => parent_of(s@) == Some(p@),
            None => parent_of(s@) is None,
        },
{
    let n = s.unicode_len();
    let mut j: usize = n;
    while j > 0
        invariant
            j <= n,
            forall|k: int| j <= k < n ==> s@[k] != '/',
        decreases j,
    {
        let c = s.get_char(j - 1);
        if c == '/' {
            proof {
                lemma_last_slash_at(s@, j - 1);
            }
            let p = s.substring_char(0, j - 1);
            proof {
                assert(p@ =~= s@.take(j - 1));
            }
            return Some(p.to_owned());
        }
        j = j - 1;
    }
    proof {
        lemma_last_slash_none(s@);
    }
    None
}

/// Every name of every source, in source order, as fresh strings.
#[verifier::loop_isolation(false)]
fn collect_names(sources: &Vec<SchemaSource>) -> (r: Vec<String>)
    ensures
        r.deep_view() == all_names(sources_view(sources@)),
{
    let ghost svs = sources_view(sources@);
    let mut acc: Vec<String> = Vec::new();
    let mut i: usize = 0;
    proof {
        assert(acc.deep_view() =~= all_names(svs.take(0)));
    }
    while i < sources.len()
        invariant
            i <= sources@.len(),
            acc.deep_view() == all_names(svs.take(i as int)),
        decreases sources@.len() - i,
    {
        let defs = &sources[i].definitions;
        let ghost sv = svs[i as int];
        let mut j: usize = 0;
        while j < defs.len()
            invariant
                j <= defs@.len(),
                defs@.len() == sv.definitions.len(),
                forall|k: int| 0 <= k < defs@.len() ==> sv.definitions[k] == defs@[k]@,
                acc.deep_view() == all_names(svs.take(i as int)) + source_names(sv).take(
                    j as int,
                ),
            decreases defs@.len() - j,
        {
            let ghost prev = acc.deep_view();
            acc.push(defs[j].name.clone());
            proof {
                assert(acc.deep_view() =~= prev.push(sv.definitions[j as int].name));
                assert(source_names(sv).take(j + 1) =~= source_names(sv).take(j as int).push(
                    sv.definitions[j as int].name,
                ));
                assert(acc.deep_view() =~= all_names(svs.take(i as int)) + source_names(sv).take(
                    j + 1,
                ));
            }
            j = j + 1;
        }
        proof {
            assert(source_names(sv).take(sv.definitions.len() as int) =~= source_names(sv));
            assert(svs.take(i + 1).drop_last() =~= svs.take(i as int));
            assert(svs.take(i + 1).last() == sv);
            assert(acc.deep_view() =~= all_names(svs.take(i + 1)));
        }
        i = i + 1;
    }
    proof {
        assert(svs.take(svs.len() as int) =~= svs);
    }
    acc
}

/// The names with later duplicates dropped, as fresh strings.
#[verifier::loop_isolation(false)]
fn dedup_names(names: &Vec<String>) -> (r: Vec<String>)
    ensures
        r.deep_view() == dedup_first(names.deep_view()),
{
    let mut acc: Vec<String> = Vec::new();
    let mut i: usize = 0;
    proof {
        assert(acc.deep_view() =~= dedup_first(names.deep_view().take(0)));
    }
    while i < names.len()
        invariant
            i <= names@.len(),
            acc.deep_view() == dedup_first(names.deep_view().take(i as int)),
        decreases names@.len() - i,
    {
        proof {
            assert(names.deep_view().take(i + 1).drop_last() =~= names.deep_view().take(i as int));
            assert(names.deep_view().take(i + 1).last() == names.deep_view()[i as int]);
            assert(names.deep_view()[i as int] == names@[i as int]@);
        }
        if !list_contains_str(&acc, names[i].as_str()) {
            acc.push(names[i].clone());
            proof {
                assert(acc.deep_view() =~= dedup_first(names.deep_view().take(i + 1)));
            }
        }
        i = i + 1;
    }
    proof {
        assert(names.deep_view().take(names@.len() as int) =~= names.deep_view());
    }
    acc
}

/// The record a single source stores for `name`, if any.
#[verifier::loop_isolation(false)]
fn find_def<'a>(src: &'a SchemaSource, name: &str) -> (r: Option<&'a ParameterDefinitionRaw>)
    ensures
        match r {
            Some(d) => def_in(src@.definitions, name@) == Some(d@),
            None => def_in(src@.definitions, name@) is None,
        },
{
    let mut i: usize = 0;
    while i < src.definitions.len()
        invariant
            i <= src.definitions@.len(),
            forall|j: int| 0 <= j < i ==> src@.definitions[j].name != name@,
        decreases src.definitions@.len() - i,
    {
        if string_eq_str(&src.definitions[i].name, name) {
            proof {
                lemma_def_in_at(src@.definitions, name@, i as int);
            }
            return Some(&src.definitions[i]);
        }
        i = i + 1;
    }
    proof {
        lemma_def_in_none(src@.definitions, name@);
    }
    None
}

/// The whole record from the last source that defines `name`.
#[verifier::loop_isolation(false)]
fn find_last_def<'a>(sources: &'a Vec<SchemaSource>, name: &str) -> (r: Option<
    &'a ParameterDefinitionRaw,
>)
    ensures
        match r {
            Some(d) => last_def(sources_view(sources@), name@) == Some(d@),
            None => last_def(sources_view(sources@), name@) is None,
        },
{
    let ghost svs = sources_view(sources@);
    let mut cur: Option<&ParameterDefinitionRaw> = None;
    let mut i: usize = 0;
    while i < sources.len()
        invariant
            i <= sources@.len(),
            match cur {
                Some(d) => last_def(svs.take(i as int), name@) == Some(d@),
                None => last_def(svs.take(i as int), name@) is None,
            },
        decreases sources@.len() - i,
    {
        proof {
            assert(svs.take(i + 1).drop_last() =~= svs.take(i as int));
            assert(svs.take(i + 1).last() == svs[i as int]);
        }
        match find_def(&sources[i], name) {
            Some(d) => {
                cur = Some(d);
            },
            None => (),
        }
        i = i + 1;
    }
    proof {
        assert(svs.take(svs.len() as int) =~= svs);
    }
    cur
}

/// Maps a processor string to its structured identifier, with the default
/// payload each component gets.
pub fn parse_processor(s: &str) -> (r: Option<ParameterProcessor>)
    ensures
        match r {
            Some(p) => parse_processor_spec(s@) == Some(p@),
            None => parse_processor_spec(s@) is None,
        },
{
    if str_eq(s, "kernel") {
        Some(ParameterProcessor::Kernel)
    } else if str_eq(s, "systemd") {
        Some(ParameterProcessor::Systemd { min_version: "219".to_owned() })
    } else if str_eq(s, "dracut") {
        Some(ParameterProcessor::Dracut { min_version: "011".to_owned() })
    } else if str_eq(s, "initramfs-tools") {
        Some(ParameterProcessor::InitramfsTools)
    } else if str_eq(s, "plymouth") {
        Some(ParameterProcessor::Plymouth)
    } else if str_eq(s, "grub") {
        Some(ParameterProcessor::Grub)
    } else {
        None
    }
}

/// Converts a raw distribution table, pair by pair.
#[verifier::loop_isolation(false)]
fn convert_raw_distributions(v: &Vec<(String, DistributionSupportRaw)>) -> (r: Vec<
    (String, DistributionSupport),
>)
    ensures
        r@.map_values(|e: (String, DistributionSupport)| (e.0@, e.1@)) == v@.map_values(
            |e: (String, DistributionSupportRaw)| (e.0@, e.1@),
        ),
{
    let mut r: Vec<(String, DistributionSupport)> = Vec::new();
    let mut i: usize = 0;
    while i < v.len()
        invariant
            i <= v@.len(),
            r@.len() == i,
            forall|j: int|
                0 <= j < i ==> #[trigger] r@[j].0@ == v@[j].0@ && r@[j].1@ == v@[j].1@,
        decreases v@.len() - i,
    {
        let d = DistributionSupport {
            min_version: clone_opt_string(&v[i].1.min_version),
            max_version: clone_opt_string(&v[i].1.max_version),
            component_version: clone_opt_string(&v[i].1.component_version),
            notes: clone_opt_string(&v[i].1.notes),
        };
        r.push((v[i].0.clone(), d));
        i = i + 1;
    }
    assert(r@.map_values(|e: (String, DistributionSupport)| (e.0@, e.1@)) =~= v@.map_values(
        |e: (String, DistributionSupportRaw)| (e.0@, e.1@),
    ));
    r
}

/// Converts one raw record into a database parameter; an unknown processor
/// string comes back as the error.
fn convert_raw_parameter(d: &ParameterDefinitionRaw) -> (r: Result<Parameter, String>)
    ensures
        match r {
            Ok(p) => convert_spec(d@) == Some(p@),
            Err(e) => convert_spec(d@) is None && e@ == d@.processor,
        },
{
    let processor = match parse_processor(d.processor.as_str()) {
        Some(p) => p,
        None => {
            return Err(d.processor.clone());
        },
    };
    let selectors = match &d.selectors {
        Some(v) => clone_vec_string(v),
        None => Vec::new(),
    };
    let distributions = match &d.distributions {
        Some(v) => convert_raw_distributions(v),
        None => Vec::new(),
    };
    let examples = match &d.examples {
        Some(e) => {
            let ex = Examples {
                valid: clone_vec_string(&e.valid),
                invalid: clone_vec_string(&e.invalid),
            };
            proof {
                assert(ex.valid.deep_view() =~= e.valid.deep_view());
                assert(ex.invalid.deep_view() =~= e.invalid.deep_view());
            }
            ex
        },
        None => Examples { valid: Vec::new(), invalid: Vec::new() },
    };
    let documentation = match &d.documentation {
        Some(doc) => {
            let man_pages = clone_vec_string(&doc.man_pages);
            proof {
                assert(man_pages.deep_view() =~= doc.man_pages.deep_view());
            }
            Some(
                DocumentationLinks {
                    kernel_org: clone_opt_string(&doc.kernel_org),
                    man_pages,
                    distribution_docs: crate::parameter::clone_string_pairs(
                        &doc.distribution_docs,
                    ),
                },
            )
        },
        None => None,
    };
    let p = Parameter {
        name: d.name.clone(),
        processor,
        description: d.description.clone(),
        deprecated: match d.deprecated {
            Some(b) => b,
            None => false,
        },
        selectors,
        syntax: SyntaxDefinition {
            validator_type: d.syntax.validator_type.clone(),
            format: d.syntax.format.clone(),
            config: d.syntax.config.clone(),
        },
        distributions,
        examples,
        documentation,
    };
    proof {
        if d@.selectors is None {
            assert(p.selectors.deep_view() =~= Seq::<Seq<char>>::empty());
        } else {
            assert(p.selectors.deep_view() =~= d@.selectors->0);
        }
        if d@.distributions is None {
            assert(p@.distributions =~= Seq::<(Seq<char>, DistributionSupportV)>::empty());
        }
        if d@.examples is None {
            assert(p@.examples.valid =~= Seq::<Seq<char>>::empty());
            assert(p@.examples.invalid =~= Seq::<Seq<char>>::empty());
        }
    }
    Ok(p)
}

proof fn lemma_contains_push(s: Seq<Seq<char>>, v: Seq<char>, x: Seq<char>)
    ensures
        seq_contains_str(s.push(v), x) == (seq_contains_str(s, x) || v == x),
{
    if seq_contains_str(s, x) {
        let i = choose|i: int| 0 <= i < s.len() && s[i] == x;
        assert(s.push(v)[i] == x);
    }
    if v == x {
        assert(s.push(v)[s.len() as int] == x);
    }
    if seq_contains_str(s.push(v), x) && v != x {
        let i = choose|i: int| 0 <= i < s.push(v).len() && s.push(v)[i] == x;
        assert(i < s.len());
        assert(s[i] == x);
    }
}

/// Deduplication drops no name and invents none.
pub proof fn lemma_dedup_first_contains(names: Seq<Seq<char>>, x: Seq<char>)
    ensures
        seq_contains_str(dedup_first(names), x) == seq_contains_str(names, x),
    decreases names.len(),
{
    if names.len() > 0 {
        let rest = dedup_first(names.drop_last());
        lemma_dedup_first_contains(names.drop_last(), x);
        assert(names =~= names.drop_last().push(names.last()));
        lemma_contains_push(names.drop_last(), names.last(), x);
        if !seq_contains_str(rest, names.last()) {
            lemma_contains_push(rest, names.last(), x);
        } else {
            if names.last() == x {
                lemma_dedup_first_contains(names.drop_last(), names.last());
            }
        }
    }
}

/// Deduplicated names are pairwise distinct.
proof fn lemma_dedup_first_unique(names: Seq<Seq<char>>)
    ensures
        forall|i: int, j: int|
            0 <= i < j < dedup_first(names).len() ==> dedup_first(names)[i] != dedup_first(
                names,
            )[j],
    decreases names.len(),
{
    if names.len() > 0 {
        lemma_dedup_first_unique(names.drop_last());
        let rest = dedup_first(names.drop_last());
        let d = dedup_first(names);
        if !seq_contains_str(rest, names.last()) {
            assert forall|i: int, j: int| 0 <= i < j < d.len() implies d[i] != d[j] by {
                if j == d.len() - 1 {
                    assert(d[i] == rest[i]);
                    assert(seq_contains_str(rest, rest[i]));
                } else {
                    assert(d[i] == rest[i]);
                    assert(d[j] == rest[j]);
                }
            }
        }
    }
}

/// A key outside the name list has no entry.
proof fn lemma_build_params_keys(svs: Seq<SourceV>, names: Seq<Seq<char>>, k: Seq<char>)
    requires
        !seq_contains_str(names, k),
    ensures
        assoc_get(build_params(svs, names), k) is None,
    decreases names.len(),
{
    if names.len() > 0 {
        assert(names =~= names.drop_last().push(names.last()));
        lemma_contains_push(names.drop_last(), names.last(), k);
        lemma_build_params_keys(svs, names.drop_last(), k);
        let rest = build_params(svs, names.drop_last());
        match last_def(svs, names.last()) {
            None => (),
            Some(d) => match convert_spec(d) {
                None => (),
                Some(p) => {
                    lemma_assoc_get_push(rest, (names.last(), p), k);
                },
            },
        }
    }
}

/// Looking up a listed name yields exactly the converted record of its last
/// defining source.
proof fn lemma_build_params_get(svs: Seq<SourceV>, names: Seq<Seq<char>>, n: Seq<char>)
    requires
        forall|i: int, j: int| 0 <= i < j < names.len() ==> names[i] != names[j],
        seq_contains_str(names, n),
        last_def(svs, n) is Some,
        convert_spec(last_def(svs, n)->0) is Some,
    ensures
        assoc_get(build_params(svs, names), n) == Some(convert_spec(last_def(svs, n)->0)->0),
    decreases names.len(),
{
    assert(names.len() > 0) by {
        let i = choose|i: int| 0 <= i < names.len() && names[i] == n;
    }
    let last = names.last();
    let rest_names = names.drop_last();
    let rest = build_params(svs, rest_names);
    assert(names =~= rest_names.push(last));
    lemma_contains_push(rest_names, last, n);
    if seq_contains_str(rest_names, n) {
        lemma_build_params_get(svs, rest_names, n);
        match last_def(svs, last) {
            None => (),
            Some(d) => match convert_spec(d) {
                None => (),
                Some(p) => {
                    assert(last != n) by {
                        let i = choose|i: int| 0 <= i < rest_names.len() && rest_names[i] == n;
                        assert(names[i] == n);
                        assert(names[names.len() - 1] == last);
                    }
                    lemma_assoc_get_push(rest, (last, p), n);
                },
            },
        }
    } else {
        assert(last == n);
        lemma_build_params_keys(svs, rest_names, n);
        let p = convert_spec(last_def(svs, n)->0)->0;
        lemma_assoc_get_push(rest, (n, p), n);
    }
}

/// Whole-record replacement: when a name is defined by several sources and
/// its record converts, the database holds exactly the entire record from
/// the last defining source — no field of an earlier record survives.
pub proof fn lemma_whole_record_override(svs: Seq<SourceV>, name: Seq<char>, d: RawDefV, p: ParamV)
    requires
        seq_contains_str(all_names(svs), name),
        last_def(svs, name) == Some(d),
        convert_spec(d) == Some(p),
    ensures
        assoc_get(build_db_spec(svs).parameters, name) == Some(p),
{
    lemma_dedup_first_contains(all_names(svs), name);
    lemma_dedup_first_unique(all_names(svs));
    lemma_build_params_get(svs, dedup_first(all_names(svs)), name);
}

/// Any listed name with a parent is recorded under that parent in the
/// index, whatever order the names came in.
pub proof fn lemma_subparameter_indexed(names: Seq<Seq<char>>, n: Seq<char>, par: Seq<char>)
    requires
        seq_contains_str(names, n),
        parent_of(n) == Some(par),
    ensures
        assoc_get(subidx(names), par) is Some,
        seq_contains_str(assoc_get(subidx(names), par)->0, n),
    decreases names.len(),
{
    assert(names.len() > 0) by {
        let i = choose|i: int| 0 <= i < names.len() && names[i] == n;
    }
    let last = names.last();
    let rest_names = names.drop_last();
    let rest = subidx(rest_names);
    assert(names =~= rest_names.push(last));
    lemma_contains_push(rest_names, last, n);
    if seq_contains_str(rest_names, n) {
        lemma_subparameter_indexed(rest_names, n, par);
        match parent_of(last) {
            None => (),
            Some(q) => {
                lemma_add_entry_get(rest, q, last, par);
                if q == par {
                    lemma_contains_push(assoc_get(rest, par)->0, last, n);
                }
            },
        }
    } else {
        assert(last == n);
        lemma_add_entry_get(rest, par, n, par);
        match assoc_get(rest, par) {
            Some(s) => {
                lemma_contains_push(s, n, n);
            },
            None => {
                assert(seq![n][0] == n);
            },
        }
    }
}

/// The instance over a built database: a parameter whose name nests under
/// another appears in the parent's subparameter list, regardless of source
/// enumeration order.
pub proof fn lemma_subparameter_in_database(svs: Seq<SourceV>, n: Seq<char>, par: Seq<char>)
    requires
        assoc_get(build_db_spec(svs).parameters, n) is Some,
        parent_of(n) == Some(par),
    ensures
        assoc_get(build_db_spec(svs).subparameter_index, par) is Some,
        seq_contains_str(assoc_get(build_db_spec(svs).subparameter_index, par)->0, n),
{
    let params = build_db_spec(svs).parameters;
    let pnames = params.map_values(|e: (Seq<char>, ParamV)| e.0);
    let i = crate::assoc::lemma_assoc_get_some_index(params, n);
    assert(pnames[i] == n);
    assert(seq_contains_str(pnames, n));
    lemma_subparameter_indexed(pnames, n, par);
}

/// Determinism: rebuilding from an unchanged source set yields an identical
/// parameter table and identical indices. The build is a function of the
/// sources alone, so two results from view-equal sources coincide.
pub proof fn lemma_rebuild_deterministic(svs: Seq<SourceV>, db1: DbV, db2: DbV)
    requires
        db1 == build_db_spec(svs),
        db2 == build_db_spec(svs),
    ensures
        db1 == db2,
{
}

/// The immutable product of one build.
pub struct LoadedDatabase {
    pub parameters: Vec<(String, Parameter)>,
    pub subparameter_index: Vec<(String, Vec<String>)>,
    pub processor_index: Vec<(ParameterProcessor, Vec<String>)>,
    pub issues: Vec<(String, String)>,
}

impl View for LoadedDatabase {
    type V = DbV;

    open spec fn view(&self) -> DbV {
        DbV {
            parameters: self.parameters@.map_values(|e: (String, Parameter)| (e.0@, e.1@)),
            subparameter_index: self.subparameter_index@.map_values(
                |e: (String, Vec<String>)| (e.0@, e.1.deep_view()),
            ),
            processor_index: self.processor_index@.map_values(
                |e: (ParameterProcessor, Vec<String>)| (e.0@, e.1.deep_view()),
            ),
            issues: self.issues@.map_values(|e: (String, String)| (e.0@, e.1@)),
        }
    }
}

/// The records for a list of names, skipping names absent from the
/// database, in list order.
pub open spec fn resolve_names(ps: Seq<(Seq<char>, ParamV)>, names: Seq<Seq<char>>) -> Seq<
    ParamV,
>
    decreases names.len(),
{
    if names.len() == 0 {
        Seq::<ParamV>::empty()
    } else {
        let rest = resolve_names(ps, names.drop_last());
        match assoc_get(ps, names.last()) {
            Some(p) => rest.push(p),
            None => rest,
        }
    }
}

impl LoadedDatabase {
    /// The record stored under `name`, if any.
    #[verifier::loop_isolation(false)]
    pub fn get_parameter(&self, name: &str) -> (r: Option<&Parameter>)
        ensures
            match r {
                Some(p) => assoc_get(self@.parameters, name@) == Some(p@),
                None => assoc_get(self@.parameters, name@) is None,
            },
    {
        let mut i: usize = 0;
        while i < self.parameters.len()
            invariant
                i <= self.parameters@.len(),
                forall|j: int| 0 <= j < i ==> self@.parameters[j].0 != name@,
            decreases self.parameters@.len() - i,
        {
            if string_eq_str(&self.parameters[i].0, name) {
                proof {
                    lemma_assoc_get_at(self@.parameters, name@, i as int);
                }
                return Some(&self.parameters[i].1);
            }
            i = i + 1;
        }
        proof {
            lemma_assoc_get_none(self@.parameters, name@);
        }
        None
    }

    /// The records of the children listed under `parent`; a parent with no
    /// entry has no subparameters.
    #[verifier::loop_isolation(false)]
    pub fn get_subparameters(&self, parent: &str) -> (r: Vec<&Parameter>)
        ensures
            r@.map_values(|p: &Parameter| p@) == match assoc_get(
                self@.subparameter_index,
                parent@,
            ) {
                Some(children) => resolve_names(self@.parameters, children),
                None => Seq::<ParamV>::empty(),
            },
    {
        let mut out: Vec<&Parameter> = Vec::new();
        let mut i: usize = 0;
        while i < self.subparameter_index.len()
            invariant
                i <= self.subparameter_index@.len(),
                out@.len() == 0,
                forall|j: int| 0 <= j < i ==> self@.subparameter_index[j].0 != parent@,
            decreases self.subparameter_index@.len() - i,
        {
            if string_eq_str(&self.subparameter_index[i].0, parent) {
                proof {
                    lemma_assoc_get_at(self@.subparameter_index, parent@, i as int);
                }
                let children = &self.subparameter_index[i].1;
                let ghost cs = self@.subparameter_index[i as int].1;
                let mut j: usize = 0;
                proof {
                    assert(out@.map_values(|p: &Parameter| p@) =~= resolve_names(
                        self@.parameters,
                        cs.take(0),
                    ));
                }
                while j < children.len()
                    invariant
                        j <= children@.len(),
                        children.deep_view() == cs,
                        out@.map_values(|p: &Parameter| p@) == resolve_names(
                            self@.parameters,
                            cs.take(j as int),
                        ),
                    decreases children@.len() - j,
                {
                    proof {
                        assert(cs.take(j + 1).drop_last() =~= cs.take(j as int));
                        assert(cs.take(j + 1).last() == children.deep_view()[j as int]);
                        assert(children.deep_view()[j as int] == children@[j as int]@);
                    }
                    match self.get_parameter(children[j].as_str()) {
                        Some(p) => {
                            let ghost prev = out@.map_values(|p: &Parameter| p@);
                            out.push(p);
                            proof {
                                assert(out@.map_values(|p: &Parameter| p@) =~= prev.push(p@));
                            }
                        },
                        None => (),
                    }
                    j = j + 1;
                }
                proof {
                    assert(cs.take(cs.len() as int) =~= cs);
                }
                return out;
            }
            i = i + 1;
        }
        proof {
            lemma_assoc_get_none(self@.subparameter_index, parent@);
            assert(out@.map_values(|p: &Parameter| p@) =~= Seq::<ParamV>::empty());
        }
        out
    }

    /// The records of the names listed under a processor; processors compare
    /// on the whole value, payload included.
    #[verifier::loop_isolation(false)]
    pub fn parameters_by_processor(&self, processor: &ParameterProcessor) -> (r: Vec<&Parameter>)
        ensures
            r@.map_values(|p: &Parameter| p@) == match assoc_get(
                self@.processor_index,
                processor@,
            ) {
                Some(names) => resolve_names(self@.parameters, names),
                None => Seq::<ParamV>::empty(),
            },
    {
        let mut out: Vec<&Parameter> = Vec::new();
        let mut i: usize = 0;
        while i < self.processor_index.len()
            invariant
                i <= self.processor_index@.len(),
                out@.len() == 0,
                forall|j: int| 0 <= j < i ==> self@.processor_index[j].0 != processor@,
            decreases self.processor_index@.len() - i,
        {
            if crate::parameter::processor_eq(&self.processor_index[i].0, processor) {
                proof {
                    lemma_assoc_get_at(self@.processor_index, processor@, i as int);
                }
                let names = &self.processor_index[i].1;
                let ghost cs = self@.processor_index[i as int].1;
                let mut j: usize = 0;
                proof {
                    assert(out@.map_values(|p: &Parameter| p@) =~= resolve_names(
                        self@.parameters,
                        cs.take(0),
                    ));
                }
                while j < names.len()
                    invariant
                        j <= names@.len(),
                        names.deep_view() == cs,
                        out@.map_values(|p: &Parameter| p@) == resolve_names(
                            self@.parameters,
                            cs.take(j as int),
                        ),
                    decreases names@.len() - j,
                {
                    proof {
                        assert(cs.take(j + 1).drop_last() =~= cs.take(j as int));
                        assert(cs.take(j + 1).last() == names.deep_view()[j as int]);
                        assert(names.deep_view()[j as int] == names@[j as int]@);
                    }
                    match self.get_parameter(names[j].as_str()) {
                        Some(p) => {
                            let ghost prev = out@.map_values(|p: &Parameter| p@);
                            out.push(p);
                            proof {
                                assert(out@.map_values(|p: &Parameter| p@) =~= prev.push(p@));
                            }
                        },
                        None => (),
                    }
                    j = j + 1;
                }
                proof {
                    assert(cs.take(cs.len() as int) =~= cs);
                }
                return out;
            }
            i = i + 1;
        }
        proof {
            lemma_assoc_get_none(self@.processor_index, processor@);
            assert(out@.map_values(|p: &Parameter| p@) =~= Seq::<ParamV>::empty());
        }
        out
    }

    /// All records, in database order.
    #[verifier::loop_isolation(false)]
    pub fn all_parameters(&self) -> (r: Vec<&Parameter>)
        ensures
            r@.len() == self@.parameters.len(),
            forall|i: int| 0 <= i < r@.len() ==> #[trigger] r@[i]@ == self@.parameters[i].1,
    {
        let mut out: Vec<&Parameter> = Vec::new();
        let mut i: usize = 0;
        while i < self.parameters.len()
            invariant
                i <= self.parameters@.len(),
                out@.len() == i,
                forall|j: int| 0 <= j < i ==> #[trigger] out@[j]@ == self@.parameters[j].1,
            decreases self.parameters@.len() - i,
        {
            out.push(&self.parameters[i].1);
            i = i + 1;
        }
        out
    }
}

/// Adds `child` under `par` in a name-keyed index, creating the entry at
/// the end when the parent is new.
#[verifier::loop_isolation(false)]
fn add_name_entry(idx: &mut Vec<(String, Vec<String>)>, par: String, child: String)
    ensures
        final(idx)@.map_values(|e: (String, Vec<String>)| (e.0@, e.1.deep_view())) == add_entry(
            old(idx)@.map_values(|e: (String, Vec<String>)| (e.0@, e.1.deep_view())),
            par@,
            child@,
        ),
{
    let ghost before = idx@.map_values(|e: (String, Vec<String>)| (e.0@, e.1.deep_view()));
    let mut j: usize = 0;
    while j < idx.len()
        invariant
            j <= idx@.len(),
            idx@.map_values(|e: (String, Vec<String>)| (e.0@, e.1.deep_view())) == before,
            forall|k: int| 0 <= k < j ==> before[k].0 != par@,
        decreases idx@.len() - j,
    {
        if string_eq_str(&idx[j].0, par.as_str()) {
            proof {
                lemma_add_entry_found(before, par@, child@, j as int);
            }
            let (key, mut children) = idx.remove(j);
            let ghost kids = children.deep_view();
            children.push(child);
            proof {
                assert(children.deep_view() =~= kids.push(child@));
            }
            idx.insert(j, (key, children));
            proof {
                assert(final(idx)@.map_values(|e: (String, Vec<String>)| (e.0@, e.1.deep_view()))
                    =~= before.update(j as int, (before[j as int].0, kids.push(child@))));
            }
            return ;
        }
        j = j + 1;
    }
    proof {
        lemma_add_entry_missing(before, par@, child@);
    }
    let mut children: Vec<String> = Vec::new();
    children.push(child);
    proof {
        assert(children.deep_view() =~= seq![child@]);
    }
    idx.push((par, children));
    proof {
        assert(final(idx)@.map_values(|e: (String, Vec<String>)| (e.0@, e.1.deep_view()))
            =~= before.push((final(idx)@.last().0@, seq![child@])));
    }
}

/// Adds `name` under a processor key, creating the entry at the end when
/// the processor is new; keys compare on the whole value.
#[verifier::loop_isolation(false)]
fn add_processor_entry(
    idx: &mut Vec<(ParameterProcessor, Vec<String>)>,
    key: ParameterProcessor,
    name: String,
)
    ensures
        final(idx)@.map_values(|e: (ParameterProcessor, Vec<String>)| (e.0@, e.1.deep_view()))
            == add_entry(
            old(idx)@.map_values(|e: (ParameterProcessor, Vec<String>)| (e.0@, e.1.deep_view())),
            key@,
            name@,
        ),
{
    let ghost before = idx@.map_values(
        |e: (ParameterProcessor, Vec<String>)| (e.0@, e.1.deep_view()),
    );
    let mut j: usize = 0;
    while j < idx.len()
        invariant
            j <= idx@.len(),
            idx@.map_values(|e: (ParameterProcessor, Vec<String>)| (e.0@, e.1.deep_view()))
                == before,
            forall|k: int| 0 <= k < j ==> before[k].0 != key@,
        decreases idx@.len() - j,
    {
        if crate::parameter::processor_eq(&idx[j].0, &key) {
            proof {
                lemma_add_entry_found(before, key@, name@, j as int);
            }
            let (k, mut names) = idx.remove(j);
            let ghost prior = names.deep_view();
            names.push(name);
            proof {
                assert(names.deep_view() =~= prior.push(name@));
            }
            idx.insert(j, (k, names));
            proof {
                assert(final(idx)@.map_values(
                    |e: (ParameterProcessor, Vec<String>)| (e.0@, e.1.deep_view()),
                ) =~= before.update(j as int, (before[j as int].0, prior.push(name@))));
            }
            return ;
        }
        j = j + 1;
    }
    proof {
        lemma_add_entry_missing(before, key@, name@);
    }
    let mut names: Vec<String> = Vec::new();
    names.push(name);
    proof {
        assert(names.deep_view() =~= seq![name@]);
    }
    idx.push((key, names));
    proof {
        assert(final(idx)@.map_values(
            |e: (ParameterProcessor, Vec<String>)| (e.0@, e.1.deep_view()),
        ) =~= before.push((key@, seq![name@])));
    }
}

/// Merges one or more schema sources into a database and caches the result;
/// the first access builds, an explicit reload is the only way to rebuild.
pub struct DatabaseLoader {
    pub sources: Vec<SchemaSource>,
    pub cache: Option<LoadedDatabase>,
}

impl DatabaseLoader {
    /// An empty loader: no sources, nothing cached.
    pub fn new() -> (r: DatabaseLoader)
        ensures
            r.sources@ == Seq::<SchemaSource>::empty(),
            r.cache is None,
    {
        DatabaseLoader { sources: Vec::new(), cache: None }
    }

    /// Appends one source; later sources override earlier ones record by
    /// record.
    pub fn with_source(self, source: SchemaSource) -> (r: DatabaseLoader)
        ensures
            r.sources@ == self.sources@.push(source),
            r.cache == self.cache,
    {
        let mut sources = self.sources;
        sources.push(source);
        DatabaseLoader { sources, cache: self.cache }
    }

    /// One full build pass over the sources.
    #[verifier::loop_isolation(false)]
    fn build_database(&self) -> (db: LoadedDatabase)
        ensures
            db@ == build_db_spec(sources_view(self.sources@)),
    {
        let ghost svs = sources_view(self.sources@);
        let stream = collect_names(&self.sources);
        let names = dedup_names(&stream);
        let ghost namesv = dedup_first(all_names(svs));
        proof {
            assert(names.deep_view() == namesv);
        }
        let mut parameters: Vec<(String, Parameter)> = Vec::new();
        let mut issues: Vec<(String, String)> = Vec::new();
        let mut i: usize = 0;
        proof {
            assert(parameters@.map_values(|e: (String, Parameter)| (e.0@, e.1@))
                =~= build_params(svs, namesv.take(0)));
            assert(issues@.map_values(|e: (String, String)| (e.0@, e.1@)) =~= build_issues(
                svs,
                namesv.take(0),
            ));
        }
        while i < names.len()
            invariant
                i <= names@.len(),
                names.deep_view() == namesv,
                parameters@.map_values(|e: (String, Parameter)| (e.0@, e.1@)) == build_params(
                    svs,
                    namesv.take(i as int),
                ),
                issues@.map_values(|e: (String, String)| (e.0@, e.1@)) == build_issues(
                    svs,
                    namesv.take(i as int),
                ),
            decreases names@.len() - i,
        {
            proof {
                assert(namesv.take(i + 1).drop_last() =~= namesv.take(i as int));
                assert(namesv.take(i + 1).last() == names.deep_view()[i as int]);
                assert(names.deep_view()[i as int] == names@[i as int]@);
            }
            match find_last_def(&self.sources, names[i].as_str()) {
                None => (),
                Some(d) => {
                    match convert_raw_parameter(d) {
                        Ok(p) => {
                            let ghost prev = parameters@.map_values(
                                |e: (String, Parameter)| (e.0@, e.1@),
                            );
                            parameters.push((names[i].clone(), p));
                            proof {
                                assert(parameters@.map_values(
                                    |e: (String, Parameter)| (e.0@, e.1@),
                                ) =~= prev.push((namesv.take(i + 1).last(), p@)));
                            }
                        },
                        Err(e) => {
                            let ghost prev = issues@.map_values(
                                |e: (String, String)| (e.0@, e.1@),
                            );
                            issues.push((names[i].clone(), e));
                            proof {
                                assert(issues@.map_values(|e: (String, String)| (e.0@, e.1@))
                                    =~= prev.push((namesv.take(i + 1).last(), d@.processor)));
                            }
                        },
                    }
                },
            }
            i = i + 1;
        }
        proof {
            assert(namesv.take(namesv.len() as int) =~= namesv);
        }
        let ghost paramsv = build_params(svs, namesv);
        let ghost pnames = paramsv.map_values(|e: (Seq<char>, ParamV)| e.0);
        let mut subparameter_index: Vec<(String, Vec<String>)> = Vec::new();
        let mut k: usize = 0;
        proof {
            assert(subparameter_index@.map_values(
                |e: (String, Vec<String>)| (e.0@, e.1.deep_view()),
            ) =~= subidx(pnames.take(0)));
        }
        while k < parameters.len()
            invariant
                k <= parameters@.len(),
                parameters@.map_values(|e: (String, Parameter)| (e.0@, e.1@)) == paramsv,
                subparameter_index@.map_values(
                    |e: (String, Vec<String>)| (e.0@, e.1.deep_view()),
                ) == subidx(pnames.take(k as int)),
            decreases parameters@.len() - k,
        {
            proof {
                assert(pnames.take(k + 1).drop_last() =~= pnames.take(k as int));
                assert(pnames.take(k + 1).last() == pnames[k as int]);
                assert(pnames[k as int] == parameters@[k as int].0@);
            }
            match parent_name(parameters[k].0.as_str()) {
                None => (),
                Some(par) => {
                    add_name_entry(&mut subparameter_index, par, parameters[k].0.clone());
                },
            }
            k = k + 1;
        }
        proof {
            assert(pnames.take(pnames.len() as int) =~= pnames);
        }
        let mut processor_index: Vec<(ParameterProcessor, Vec<String>)> = Vec::new();
        let mut k2: usize = 0;
        proof {
            assert(processor_index@.map_values(
                |e: (ParameterProcessor, Vec<String>)| (e.0@, e.1.deep_view()),
            ) =~= procidx(paramsv.take(0)));
        }
        while k2 < parameters.len()
            invariant
                k2 <= parameters@.len(),
                parameters@.map_values(|e: (String, Parameter)| (e.0@, e.1@)) == paramsv,
                processor_index@.map_values(
                    |e: (ParameterProcessor, Vec<String>)| (e.0@, e.1.deep_view()),
                ) == procidx(paramsv.take(k2 as int)),
            decreases parameters@.len() - k2,
        {
            proof {
                assert(paramsv.take(k2 + 1).drop_last() =~= paramsv.take(k2 as int));
                assert(paramsv.take(k2 + 1).last() == paramsv[k2 as int]);
                assert(paramsv[k2 as int] == (parameters@[k2 as int].0@, parameters@[
                    k2 as int
                ].1@));
            }
            let key = parameters[k2].1.processor.clone();
            add_processor_entry(&mut processor_index, key, parameters[k2].0.clone());
            k2 = k2 + 1;
        }
        proof {
            assert(paramsv.take(paramsv.len() as int) =~= paramsv);
        }
        LoadedDatabase { parameters, subparameter_index, processor_index, issues }
    }

    /// Builds on first access; a cached database is reused untouched.
    pub fn load(&mut self) -> (r: Result<(), DatabaseError>)
        ensures
            r is Ok,
            final(self).sources == old(self).sources,
            old(self).cache is Some ==> final(self).cache == old(self).cache,
            old(self).cache is None ==> final(self).cache is Some && final(self).cache->0@
                == build_db_spec(sources_view(old(self).sources@)),
    {
        if self.cache.is_none() {
            let db = self.build_database();
            self.cache = Some(db);
        }
        Ok(())
    }

    /// Discards the cache and rebuilds from all sources: the only supported
    /// cache-invalidation path.
    pub fn reload(&mut self) -> (r: Result<(), DatabaseError>)
        ensures
            r is Ok,
            final(self).sources == old(self).sources,
            final(self).cache is Some && final(self).cache->0@ == build_db_spec(
                sources_view(old(self).sources@),
            ),
    {
        self.cache = None;
        self.load()
    }

    /// Takes ownership of the cached database, if one has been built.
    pub fn into_database(self) -> (r: Option<LoadedDatabase>)
        ensures
            r == self.cache,
    {
        self.cache
    }

    /// The cached database, if one has been built.
    pub fn database(&self) -> (r: Option<&LoadedDatabase>)
        ensures
            match r {
                Some(db) => self.cache == Some(*db),
                None => self.cache is None,
            },
    {
        self.cache.as_ref()
    }
}

} // verus!
