//! Version identifiers attached to parameters and components.

use vstd::prelude::*;

verus! {

/// A kernel version label, with an optional branch.
#[derive(Debug)]
pub struct KernelVersion {
    pub version: String,
    pub branch: Option<String>,
}

/// A component and the version of it that first understood a parameter.
#[derive(Debug)]
pub struct ComponentVersion {
    pub name: String,
    pub version: String,
}

} // verus!
