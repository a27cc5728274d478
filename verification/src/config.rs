//! Caller-side configuration values for building parameter strings.

use vstd::prelude::*;

verus! {

/// A value a caller wants a parameter set to.
#[derive(Debug)]
pub enum ParameterConfig {
    Boolean(bool),
    Integer(i64),
    Str(String),
    List(Vec<String>),
    CpuList { cpus: Vec<u32>, flags: Vec<String> },
    Complex(Vec<(String, ParameterConfig)>),
}

impl ParameterConfig {
    pub fn from_bool(value: bool) -> (r: ParameterConfig)
        ensures
            r == ParameterConfig::Boolean(value),
    {
        ParameterConfig::Boolean(value)
    }

    pub fn from_int(value: i64) -> (r: ParameterConfig)
        ensures
            r == ParameterConfig::Integer(value),
    {
        ParameterConfig::Integer(value)
    }

    pub fn from_string(value: String) -> (r: ParameterConfig)
        ensures
            r == ParameterConfig::Str(value),
    {
        ParameterConfig::Str(value)
    }

    pub fn from_string_list(value: Vec<String>) -> (r: ParameterConfig)
        ensures
            r == ParameterConfig::List(value),
    {
        ParameterConfig::List(value)
    }

    pub fn from_cpu_list(cpus: Vec<u32>) -> (r: ParameterConfig)
        ensures
            r matches ParameterConfig::CpuList { cpus: c, flags: f } && c == cpus && f@
                == Seq::<String>::empty(),
    {
        ParameterConfig::CpuList { cpus, flags: Vec::new() }
    }

    /// Replaces the flag list of a CPU list configuration; any other
    /// variant is returned unchanged.
    pub fn with_flags(self, flags: Vec<String>) -> (r: ParameterConfig)
        ensures
            (self matches ParameterConfig::CpuList { cpus: c, .. } ==> r == (
            ParameterConfig::CpuList { cpus: c, flags: flags },
            ).0),
            !(self is CpuList) ==> r == self,
    {
        match self {
            ParameterConfig::CpuList { cpus, flags: _ } => ParameterConfig::CpuList {
                cpus,
                flags,
            },
            other => other,
        }
    }
}

} // verus!
