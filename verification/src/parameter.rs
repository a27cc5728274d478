//! The parameter data model: processors, syntax definitions, validator
//! configuration maps, and the parameter record itself.
//!
//! Every type carries a spec-level view built from sequences, so that
//! contracts about merged databases and query results can speak of contents
//! independently of allocation.

use vstd::prelude::*;

use crate::assoc::{assoc_get, lemma_assoc_get_at, lemma_assoc_get_none};
use crate::probe::SystemProbe;
use crate::strutil::{clone_vec_string, string_eq_str};

verus! {

/// One value of a validator configuration map. The configuration is an open
/// key/value table interpreted only by the validator a parameter names.
#[derive(Debug)]
pub enum ConfigValue {
    Bool(bool),
    Int(i64),
    Str(String),
    List(Vec<String>),
}

pub ghost enum ConfigValueV {
    Bool(bool),
    Int(i64),
    Str(Seq<char>),
    List(Seq<Seq<char>>),
}

impl View for ConfigValue {
    type V = ConfigValueV;

    open spec fn view(&self) -> ConfigValueV {
        match self {
            ConfigValue::Bool(b) => ConfigValueV::Bool(*b),
            ConfigValue::Int(n) => ConfigValueV::Int(*n),
            ConfigValue::Str(s) => ConfigValueV::Str(s@),
            ConfigValue::List(v) => ConfigValueV::List(v.deep_view()),
        }
    }
}

impl Clone for ConfigValue {
    fn clone(&self) -> (r: Self)
        ensures
            r@ == self@,
    {
        match self {
            ConfigValue::Bool(b) => ConfigValue::Bool(*b),
            ConfigValue::Int(n) => ConfigValue::Int(*n),
            ConfigValue::Str(s) => ConfigValue::Str(s.clone()),
            ConfigValue::List(v) => {
                let c = clone_vec_string(v);
                assert(c.deep_view() =~= v.deep_view());
                ConfigValue::List(c)
            },
        }
    }
}

/// A validator configuration map; lookup returns the first entry with the
/// requested key.
#[derive(Debug)]
pub struct ConfigMap {
    pub entries: Vec<(String, ConfigValue)>,
}

impl View for ConfigMap {
    type V = Seq<(Seq<char>, ConfigValueV)>;

    open spec fn view(&self) -> Seq<(Seq<char>, ConfigValueV)> {
        self.entries@.map_values(|e: (String, ConfigValue)| (e.0@, e.1@))
    }
}

/// Lookup outcomes used by the built-in validators: a key read as a bool
/// falls back to the default when absent or of another shape.
pub open spec fn cfg_bool(m: Seq<(Seq<char>, ConfigValueV)>, key: Seq<char>, default: bool) -> bool {
    match assoc_get(m, key) {
        Some(ConfigValueV::Bool(b)) => b,
        _ => default,
    }
}

pub open spec fn cfg_int(m: Seq<(Seq<char>, ConfigValueV)>, key: Seq<char>) -> Option<i64> {
    match assoc_get(m, key) {
        Some(ConfigValueV::Int(n)) => Some(n),
        _ => None,
    }
}

pub open spec fn cfg_str(m: Seq<(Seq<char>, ConfigValueV)>, key: Seq<char>) -> Option<Seq<char>> {
    match assoc_get(m, key) {
        Some(ConfigValueV::Str(s)) => Some(s),
        _ => None,
    }
}

pub open spec fn cfg_list(m: Seq<(Seq<char>, ConfigValueV)>, key: Seq<char>) -> Option<
    Seq<Seq<char>>,
> {
    match assoc_get(m, key) {
        Some(ConfigValueV::List(l)) => Some(l),
        _ => None,
    }
}

impl ConfigMap {
    pub fn new() -> (r: ConfigMap)
        ensures
            r@ == Seq::<(Seq<char>, ConfigValueV)>::empty(),
    {
        let r = ConfigMap { entries: Vec::new() };
        assert(r@ =~= Seq::<(Seq<char>, ConfigValueV)>::empty());
        r
    }

    /// Appends an entry; an existing entry with the same key keeps priority.
    pub fn push(&mut self, key: String, value: ConfigValue)
        ensures
            final(self)@ == old(self)@.push((key@, value@)),
    {
        let ghost before = self@;
        self.entries.push((key, value));
        assert(final(self)@ =~= before.push((key@, value@)));
    }

    /// Index of the first entry carrying `key`, with the lookup settled.
    fn find_index(&self, key: &str) -> (r: Option<usize>)
        ensures
            match r {
                Some(i) => {
                    &&& i < self@.len()
                    &&& self@[i as int].0 == key@
                    &&& assoc_get(self@, key@) == Some(self@[i as int].1)
                },
                None => assoc_get(self@, key@) is None,
            },
    {
        let mut i: usize = 0;
        while i < self.entries.len()
            invariant
                i <= self.entries@.len(),
                self@.len() == self.entries@.len(),
                forall|j: int| 0 <= j < i ==> self@[j].0 != key@,
                forall|j: int|
                    0 <= j < self.entries@.len() ==> self@[j] == (
                    self.entries@[j].0@,
                    self.entries@[j].1@,
                ),
            decreases self.entries@.len() - i,
        {
            if string_eq_str(&self.entries[i].0, key) {
                proof {
                    lemma_assoc_get_at(self@, key@, i as int);
                }
                return Some(i);
            }
            i = i + 1;
        }
        proof {
            lemma_assoc_get_none(self@, key@);
        }
        None
    }

    pub fn get_bool_or(&self, key: &str, default: bool) -> (r: bool)
        ensures
            r == cfg_bool(self@, key@, default),
    {
        match self.find_index(key) {
            Some(i) => match &self.entries[i].1 {
                ConfigValue::Bool(b) => *b,
                _ => default,
            },
            None => default,
        }
    }

    pub fn get_int(&self, key: &str) -> (r: Option<i64>)
        ensures
            r == cfg_int(self@, key@),
    {
        match self.find_index(key) {
            Some(i) => match &self.entries[i].1 {
                ConfigValue::Int(n) => Some(*n),
                _ => None,
            },
            None => None,
        }
    }

    pub fn get_str(&self, key: &str) -> (r: Option<String>)
        ensures
            match r {
                Some(s) => cfg_str(self@, key@) == Some(s@),
                None => cfg_str(self@, key@) is None,
            },
    {
        match self.find_index(key) {
            Some(i) => match &self.entries[i].1 {
                ConfigValue::Str(s) => Some(s.clone()),
                _ => None,
            },
            None => None,
        }
    }

    pub fn get_list(&self, key: &str) -> (r: Option<Vec<String>>)
        ensures
            match r {
                Some(l) => cfg_list(self@, key@) == Some(l.deep_view()),
                None => cfg_list(self@, key@) is None,
            },
    {
        match self.find_index(key) {
            Some(i) => match &self.entries[i].1 {
                ConfigValue::List(l) => {
                    let c = clone_vec_string(l);
                    assert(c.deep_view() =~= l.deep_view());
                    Some(c)
                },
                _ => None,
            },
            None => None,
        }
    }
}

impl Clone for ConfigMap {
    fn clone(&self) -> (r: Self)
        ensures
            r@ == self@,
    {
        let mut entries: Vec<(String, ConfigValue)> = Vec::new();
        let mut i: usize = 0;
        while i < self.entries.len()
            invariant
                i <= self.entries@.len(),
                entries@.len() == i,
                forall|j: int|
                    0 <= j < i ==> #[trigger] entries@[j].0@ == self.entries@[j].0@
                        && entries@[j].1@ == self.entries@[j].1@,
            decreases self.entries@.len() - i,
        {
            let key = self.entries[i].0.clone();
            let value = self.entries[i].1.clone();
            entries.push((key, value));
            i = i + 1;
        }
        let r = ConfigMap { entries };
        assert(r@ =~= self@);
        r
    }
}

/// The boot-time component that interprets a parameter. Equality and
/// indexing go over the whole value, payload included.
#[derive(Debug)]
pub enum ParameterProcessor {
    Kernel,
    Systemd { min_version: String },
    Dracut { min_version: String },
    InitramfsTools,
    Plymouth,
    Grub,
}

pub ghost enum ProcessorV {
    Kernel,
    Systemd { min_version: Seq<char> },
    Dracut { min_version: Seq<char> },
    InitramfsTools,
    Plymouth,
    Grub,
}

impl View for ParameterProcessor {
    type V = ProcessorV;

    open spec fn view(&self) -> ProcessorV {
        match self {
            ParameterProcessor::Kernel => ProcessorV::Kernel,
            ParameterProcessor::Systemd { min_version } => ProcessorV::Systemd {
                min_version: min_version@,
            },
            ParameterProcessor::Dracut { min_version } => ProcessorV::Dracut {
                min_version: min_version@,
            },
            ParameterProcessor::InitramfsTools => ProcessorV::InitramfsTools,
            ParameterProcessor::Plymouth => ProcessorV::Plymouth,
            ParameterProcessor::Grub => ProcessorV::Grub,
        }
    }
}

impl Clone for ParameterProcessor {
    fn clone(&self) -> (r: Self)
        ensures
            r@ == self@,
    {
        match self {
            ParameterProcessor::Kernel => ParameterProcessor::Kernel,
            ParameterProcessor::Systemd { min_version } => ParameterProcessor::Systemd {
                min_version: min_version.clone(),
            },
            ParameterProcessor::Dracut { min_version } => ParameterProcessor::Dracut {
                min_version: min_version.clone(),
            },
            ParameterProcessor::InitramfsTools => ParameterProcessor::InitramfsTools,
            ParameterProcessor::Plymouth => ParameterProcessor::Plymouth,
            ParameterProcessor::Grub => ParameterProcessor::Grub,
        }
    }
}

/// Whole-value equality on processors, payload included.
pub fn processor_eq(a: &ParameterProcessor, b: &ParameterProcessor) -> (r: bool)
    ensures
        r == (a@ == b@),
{
    match (a, b) {
        (ParameterProcessor::Kernel, ParameterProcessor::Kernel) => true,
        (
            ParameterProcessor::Systemd { min_version: x },
            ParameterProcessor::Systemd { min_version: y },
        ) => string_eq_str(x, y.as_str()),
        (
            ParameterProcessor::Dracut { min_version: x },
            ParameterProcessor::Dracut { min_version: y },
        ) => string_eq_str(x, y.as_str()),
        (ParameterProcessor::InitramfsTools, ParameterProcessor::InitramfsTools) => true,
        (ParameterProcessor::Plymouth, ParameterProcessor::Plymouth) => true,
        (ParameterProcessor::Grub, ParameterProcessor::Grub) => true,
        _ => false,
    }
}

/// A parameter's declared syntax: which validator checks it, a display
/// format, and the open configuration the validator reads.
#[derive(Debug)]
pub struct SyntaxDefinition {
    pub validator_type: String,
    pub format: String,
    pub config: ConfigMap,
}

pub ghost struct SyntaxV {
    pub validator_type: Seq<char>,
    pub format: Seq<char>,
    pub config: Seq<(Seq<char>, ConfigValueV)>,
}

impl View for SyntaxDefinition {
    type V = SyntaxV;

    open spec fn view(&self) -> SyntaxV {
        SyntaxV {
            validator_type: self.validator_type@,
            format: self.format@,
            config: self.config@,
        }
    }
}

impl Clone for SyntaxDefinition {
    fn clone(&self) -> (r: Self)
        ensures
            r@ == self@,
    {
        SyntaxDefinition {
            validator_type: self.validator_type.clone(),
            format: self.format.clone(),
            config: self.config.clone(),
        }
    }
}

/// Support window of a parameter in one distribution.
#[derive(Debug)]
pub struct DistributionSupport {
    pub min_version: Option<String>,
    pub max_version: Option<String>,
    pub component_version: Option<String>,
    pub notes: Option<String>,
}

pub ghost struct DistributionSupportV {
    pub min_version: Option<Seq<char>>,
    pub max_version: Option<Seq<char>>,
    pub component_version: Option<Seq<char>>,
    pub notes: Option<Seq<char>>,
}

impl View for DistributionSupport {
    type V = DistributionSupportV;

    open spec fn view(&self) -> DistributionSupportV {
        DistributionSupportV {
            min_version: self.min_version.deep_view(),
            max_version: self.max_version.deep_view(),
            component_version: self.component_version.deep_view(),
            notes: self.notes.deep_view(),
        }
    }
}

/// A fresh copy of an optional string.
pub fn clone_opt_string(v: &Option<String>) -> (r: Option<String>)
    ensures
        r.deep_view() == v.deep_view(),
{
    match v {
        Some(s) => Some(s.clone()),
        None => None,
    }
}

impl Clone for DistributionSupport {
    fn clone(&self) -> (r: Self)
        ensures
            r@ == self@,
    {
        DistributionSupport {
            min_version: clone_opt_string(&self.min_version),
            max_version: clone_opt_string(&self.max_version),
            component_version: clone_opt_string(&self.component_version),
            notes: clone_opt_string(&self.notes),
        }
    }
}

/// Example values a schema ships for a parameter.
#[derive(Debug)]
pub struct Examples {
    pub valid: Vec<String>,
    pub invalid: Vec<String>,
}

pub ghost struct ExamplesV {
    pub valid: Seq<Seq<char>>,
    pub invalid: Seq<Seq<char>>,
}

impl View for Examples {
    type V = ExamplesV;

    open spec fn view(&self) -> ExamplesV {
        ExamplesV { valid: self.valid.deep_view(), invalid: self.invalid.deep_view() }
    }
}

impl Clone for Examples {
    fn clone(&self) -> (r: Self)
        ensures
            r@ == self@,
    {
        let valid = clone_vec_string(&self.valid);
        let invalid = clone_vec_string(&self.invalid);
        assert(valid.deep_view() =~= self.valid.deep_view());
        assert(invalid.deep_view() =~= self.invalid.deep_view());
        Examples { valid, invalid }
    }
}

/// Documentation links a schema ships for a parameter.
#[derive(Debug)]
pub struct DocumentationLinks {
    pub kernel_org: Option<String>,
    pub man_pages: Vec<String>,
    pub distribution_docs: Vec<(String, String)>,
}

pub ghost struct DocumentationLinksV {
    pub kernel_org: Option<Seq<char>>,
    pub man_pages: Seq<Seq<char>>,
    pub distribution_docs: Seq<(Seq<char>, Seq<char>)>,
}

impl View for DocumentationLinks {
    type V = DocumentationLinksV;

    open spec fn view(&self) -> DocumentationLinksV {
        DocumentationLinksV {
            kernel_org: self.kernel_org.deep_view(),
            man_pages: self.man_pages.deep_view(),
            distribution_docs: self.distribution_docs@.map_values(
                |e: (String, String)| (e.0@, e.1@),
            ),
        }
    }
}

/// A fresh copy of a vector of string pairs.
pub fn clone_string_pairs(v: &Vec<(String, String)>) -> (r: Vec<(String, String)>)
    ensures
        r@.map_values(|e: (String, String)| (e.0@, e.1@)) == v@.map_values(
            |e: (String, String)| (e.0@, e.1@),
        ),
{
    let mut r: Vec<(String, String)> = Vec::new();
    let mut i: usize = 0;
    while i < v.len()
        invariant
            i <= v@.len(),
            r@.len() == i,
            forall|j: int|
                0 <= j < i ==> #[trigger] r@[j].0@ == v@[j].0@ && r@[j].1@ == v@[j].1@,
        decreases v@.len() - i,
    {
        r.push((v[i].0.clone(), v[i].1.clone()));
        i = i + 1;
    }
    assert(r@.map_values(|e: (String, String)| (e.0@, e.1@)) =~= v@.map_values(
        |e: (String, String)| (e.0@, e.1@),
    ));
    r
}

impl Clone for DocumentationLinks {
    fn clone(&self) -> (r: Self)
        ensures
            r@ == self@,
    {
        let man_pages = clone_vec_string(&self.man_pages);
        assert(man_pages.deep_view() =~= self.man_pages.deep_view());
        DocumentationLinks {
            kernel_org: clone_opt_string(&self.kernel_org),
            man_pages,
            distribution_docs: clone_string_pairs(&self.distribution_docs),
        }
    }
}

/// One named, validated boot-time configuration token, as stored in a built
/// database. Immutable once built.
#[derive(Debug)]
pub struct Parameter {
    pub name: String,
    pub processor: ParameterProcessor,
    pub description: String,
    pub deprecated: bool,
    pub selectors: Vec<String>,
    pub syntax: SyntaxDefinition,
    pub distributions: Vec<(String, DistributionSupport)>,
    pub examples: Examples,
    pub documentation: Option<DocumentationLinks>,
}

pub ghost struct ParamV {
    pub name: Seq<char>,
    pub processor: ProcessorV,
    pub description: Seq<char>,
    pub deprecated: bool,
    pub selectors: Seq<Seq<char>>,
    pub syntax: SyntaxV,
    pub distributions: Seq<(Seq<char>, DistributionSupportV)>,
    pub examples: ExamplesV,
    pub documentation: Option<DocumentationLinksV>,
}

impl View for Parameter {
    type V = ParamV;

    open spec fn view(&self) -> ParamV {
        ParamV {
            name: self.name@,
            processor: self.processor@,
            description: self.description@,
            deprecated: self.deprecated,
            selectors: self.selectors.deep_view(),
            syntax: self.syntax@,
            distributions: self.distributions@.map_values(
                |e: (String, DistributionSupport)| (e.0@, e.1@),
            ),
            examples: self.examples@,
            documentation: match self.documentation {
                Some(d) => Some(d@),
                None => None,
            },
        }
    }
}

/// A fresh copy of a distribution-support table.
pub fn clone_distributions(v: &Vec<(String, DistributionSupport)>) -> (r: Vec<
    (String, DistributionSupport),
>)
    ensures
        r@.map_values(|e: (String, DistributionSupport)| (e.0@, e.1@)) == v@.map_values(
            |e: (String, DistributionSupport)| (e.0@, e.1@),
        ),
{
    let mut r: Vec<(String, DistributionSupport)> = Vec::new();
    let mut i: usize = 0;
    while i < v.len()
        invariant
            i <= v@.len(),
            r@.len() == i,
            forall|j: int|
                0 <= j < i ==> #[trigger] r@[j].0@ == v@[j].0@ && r@[j].1@ == v@[j].1@,
        decreases v@.len() - i,
    {
        r.push((v[i].0.clone(), v[i].1.clone()));
        i = i + 1;
    }
    assert(r@.map_values(|e: (String, DistributionSupport)| (e.0@, e.1@)) =~= v@.map_values(
        |e: (String, DistributionSupport)| (e.0@, e.1@),
    ));
    r
}

impl Clone for Parameter {
    fn clone(&self) -> (r: Self)
        ensures
            r@ == self@,
    {
        let selectors = clone_vec_string(&self.selectors);
        assert(selectors.deep_view() =~= self.selectors.deep_view());
        Parameter {
            name: self.name.clone(),
            processor: self.processor.clone(),
            description: self.description.clone(),
            deprecated: self.deprecated,
            selectors,
            syntax: self.syntax.clone(),
            distributions: clone_distributions(&self.distributions),
            examples: self.examples.clone(),
            documentation: match &self.documentation {
                Some(d) => Some(d.clone()),
                None => None,
            },
        }
    }
}

impl Parameter {
    /// Whether every selector of this parameter is satisfied by the probe's
    /// tag set.
    pub open spec fn spec_is_applicable(&self, probe: &SystemProbe) -> bool {
        forall|i: int|
            0 <= i < self.selectors@.len() ==> probe.spec_has_tag(
                #[trigger] self.selectors@[i]@,
            )
    }

    /// A parameter applies when all of its selector tags are present in the
    /// probed system state; a parameter without selectors always applies.
    pub fn is_applicable(&self, probe: &SystemProbe) -> (r: bool)
        ensures
            r == self.spec_is_applicable(probe),
    {
        let mut i: usize = 0;
        while i < self.selectors.len()
            invariant
                i <= self.selectors@.len(),
                forall|j: int|
                    0 <= j < i ==> probe.spec_has_tag(#[trigger] self.selectors@[j]@),
            decreases self.selectors@.len() - i,
        {
            if !probe.has_tag(self.selectors[i].as_str()) {
                return false;
            }
            i = i + 1;
        }
        true
    }
}

} // verus!
