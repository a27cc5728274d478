//! Error taxonomy: database, validation, parse, build, probe and registry
//! failures, each a plain data value.

use vstd::prelude::*;

verus! {

/// Failures while loading or assembling the parameter database.
#[derive(Debug)]
pub enum DatabaseError {
    /// An I/O failure while reading a source, with its description.
    IoError(String),
    /// The database could not be loaded at all (for example a missing root).
    LoadError(String),
    /// A record was present but malformed.
    FormatError(String),
    /// A definition that had to exist was absent.
    MissingDefinition(String),
}

/// Failures while validating a single value.
#[derive(Debug)]
pub enum ValidationError {
    InvalidValue(String),
    UnknownParameter(String),
    ValidatorNotFound(String),
}

/// Failures while parsing a command line or a single token.
#[derive(Debug)]
pub enum ParseError {
    SyntaxError(String),
    InvalidFormat(String),
    MissingValue(String),
}

/// Failures while building a parameter string from a configuration.
#[derive(Debug)]
pub enum BuildError {
    UnknownParameter(String),
    InvalidConfig { param: String, error: String },
    MissingConfig(String),
}

/// Failures reported by the external system probe.
#[derive(Debug)]
pub enum ProbeError {
    IoError(String),
    ParseError(String),
    MissingSystemFile(String),
}

/// Failures while registering a validator.
#[derive(Debug)]
pub enum RegistryError {
    /// The name is already taken by an explicit registration.
    NameError(String),
}

/// Any failure of the library, by component.
#[derive(Debug)]
pub enum KCmdlineError {
    DatabaseError(DatabaseError),
    ValidationError(ValidationError),
    ParseError(ParseError),
    ProbeError(ProbeError),
}

} // verus!
