//! Validation, documentation and querying of boot command line parameters.
//!
//! A parameter database is assembled from layered schema sources, exposed
//! through a read-only catalog, and consulted by a command line parser that
//! dispatches per-parameter validators, and by a query engine that evaluates
//! multi-condition filters.

mod assoc;
mod catalog;
mod config;
mod database;
mod error;
mod parameter;
mod parser;
mod probe;
mod query;
mod strutil;
mod validators;
mod version;

pub use catalog::{ParameterCatalog, ParameterInfo, ParameterTree, VendorVersion, VersionInfo};
pub use config::ParameterConfig;
pub use database::{
    ComponentVersionRaw, DatabaseLoader, DistributionSupportRaw, DocumentationLinksRaw, ExamplesRaw,
    LoadedDatabase, ParameterDefinitionRaw, ParameterVersionsRaw, SchemaSource,
    SyntaxDefinitionRaw, VendorVersionRaw, VersionInfoRaw,
};
pub use error::{
    BuildError, DatabaseError, KCmdlineError, ParseError, ProbeError, RegistryError,
    ValidationError,
};
pub use parameter::{
    ConfigMap, ConfigValue, DistributionSupport, DocumentationLinks, Examples, Parameter,
    ParameterProcessor, SyntaxDefinition,
};
pub use parser::{
    CommandLineParser, ParameterBuilder, ParameterParser, ParsedCommandLine, ParsedParameter,
};
pub use probe::{DistributionInfo, HardwareProbe, SystemProbe};
pub use query::{DistributionQuery, QueryMode, QueryParameters};
pub use version::{ComponentVersion, KernelVersion};
pub use validators::common::{
    BooleanValidator, EnumValidator, HexValidator, IntegerValidator, KeyValueValidator,
    SizeValidator,
};
pub use validators::dracut::{
    DracutBreakValidator, DracutLuksNameValidator, DracutLvmLvValidator, DracutNetworkValidator,
};
pub use validators::hardware::{DmiSpecValidator, PciDeviceSpecValidator, UsbDeviceSpecValidator};
pub use validators::kernel::{CpuListValidator, IoRangeValidator, MemoryRangeValidator};
pub use validators::systemd::SystemdUnitValidator;
pub use validators::{
    StandardValidatorRegistry, ValidationResult, ValidationSummary, ValidatorKind,
};

use vstd::prelude::*;

verus! {

/// The main library interface: one catalog plus one probed system state,
/// queried together.
pub struct KCmdline {
    pub catalog: catalog::ParameterCatalog,
    pub probe: SystemProbe,
}

impl KCmdline {
    /// Pairs a built catalog with a probed system state.
    pub fn new(catalog: catalog::ParameterCatalog, probe: SystemProbe) -> (r: KCmdline)
        ensures
            r.catalog == catalog,
            r.probe == probe,
    {
        KCmdline { catalog, probe }
    }

    /// The parameters that match a filter, judged against this system.
    pub fn query_parameters(&self, query: &QueryParameters) -> (r: Vec<&Parameter>)
        ensures
            r@.map_values(|p: &Parameter| p@) == self.catalog@.parameters.map_values(
                |e: (Seq<char>, parameter::ParamV)| e.1,
            ).filter(
                |pv: parameter::ParamV| query::matches_query_spec(query@, pv, &self.probe),
            ),
    {
        self.catalog.query_parameters(query, &self.probe)
    }

    /// Name condition: an unset pattern passes; a set pattern must compile
    /// and match the parameter's name.
    pub fn check_name_condition(&self, param: &Parameter, query: &QueryParameters) -> (r: bool)
        ensures
            r == query::name_cond(query@, param@),
    {
        query::check_name(query, param)
    }

    /// Processor condition: whole-value equality, payload included.
    pub fn check_processor_condition(&self, param: &Parameter, query: &QueryParameters) -> (r:
        bool)
        ensures
            r == query::processor_cond(query@, param@),
    {
        query::check_processor(query, param)
    }

    /// Hardware condition: every queried PCI and USB pair must be among the
    /// probe's device tags.
    pub fn check_hardware_condition(&self, _param: &Parameter, query: &QueryParameters) -> (r:
        bool)
        ensures
            r == query::hardware_cond(query@, &self.probe),
    {
        query::check_hardware(query, &self.probe)
    }

    /// Applicability condition: a set flag must equal whether the
    /// parameter's selectors are satisfied by the probe.
    pub fn check_applicability_condition(
        &self,
        param: &Parameter,
        query: &QueryParameters,
    ) -> (r: bool)
        ensures
            r == query::applicability_cond(query@, param@, &self.probe),
    {
        query::check_applicability(query, param, &self.probe)
    }

    /// Distribution condition: a set distribution must support the
    /// parameter, in the queried version when one is given.
    pub fn check_distribution_condition(
        &self,
        param: &Parameter,
        query: &QueryParameters,
    ) -> (r: bool)
        ensures
            r == query::distribution_cond(query@, param@),
    {
        query::check_distribution(query, param)
    }

    /// Deprecation condition: a set flag must equal the record's.
    pub fn check_deprecated_condition(&self, param: &Parameter, query: &QueryParameters) -> (r:
        bool)
        ensures
            r == query::deprecated_cond(query@, param@),
    {
        query::check_deprecated(query, param)
    }

    /// Flag condition: every queried flag must be among the parameter's
    /// selector tags.
    pub fn check_flags_condition(&self, param: &Parameter, query: &QueryParameters) -> (r: bool)
        ensures
            r == query::flags_cond(query@, param@),
    {
        query::check_flags(query, param)
    }

    /// The parameters whose names match a pattern known to compile; see
    /// `find_parameters_checked` for unchecked patterns.
    pub fn find_parameters(&self, pattern: &str) -> (r: Vec<&Parameter>)
        requires
            query::pattern_compiles(pattern@),
        ensures
            r@.map_values(|p: &Parameter| p@) == self.catalog@.parameters.map_values(
                |e: (Seq<char>, parameter::ParamV)| e.1,
            ).filter(
                |pv: parameter::ParamV| query::matches_query_spec(
                    query::name_query(pattern@),
                    pv,
                    &self.probe,
                ),
            ),
    {
        let q = QueryParameters { name: Some(pattern.to_owned()), ..Default::default() };
        proof {
            assert(q@ =~= query::name_query(pattern@));
        }
        self.catalog.query_parameters(&q, &self.probe)
    }

    /// Like `find_parameters`, for a pattern that may not compile: a
    /// rejected pattern yields no result rather than a panic.
    pub fn find_parameters_checked(&self, pattern: &str) -> (r: Option<Vec<&Parameter>>)
        ensures
            r is Some <==> query::pattern_compiles(pattern@),
            r matches Some(v) ==> v@.map_values(|p: &Parameter| p@) == self.catalog@
                .parameters.map_values(|e: (Seq<char>, parameter::ParamV)| e.1).filter(
                |pv: parameter::ParamV| query::matches_query_spec(
                    query::name_query(pattern@),
                    pv,
                    &self.probe,
                ),
            ),
    {
        if query::pattern_check(pattern) {
            Some(self.find_parameters(pattern))
        } else {
            None
        }
    }

    /// The parameters tied to one PCI vendor/device pair on this system.
    pub fn parameters_for_pci_device(&self, vendor_id: u16, device_id: u16) -> (r: Vec<
        &Parameter,
    >)
        ensures
            r@.map_values(|p: &Parameter| p@) == self.catalog@.parameters.map_values(
                |e: (Seq<char>, parameter::ParamV)| e.1,
            ).filter(
                |pv: parameter::ParamV| query::matches_query_spec(
                    query::pci_query(vendor_id, device_id),
                    pv,
                    &self.probe,
                ),
            ),
    {
        let mut pci_ids: Vec<(u16, u16)> = Vec::new();
        pci_ids.push((vendor_id, device_id));
        let q = QueryParameters { pci_ids, ..Default::default() };
        proof {
            assert(q@.pci_ids =~= seq![(vendor_id, device_id)]);
            assert(q@ =~= query::pci_query(vendor_id, device_id));
        }
        self.catalog.query_parameters(&q, &self.probe)
    }
}

} // verus!
