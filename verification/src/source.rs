//! Source declarations: what a processing chain acquires and decodes.

use vstd::prelude::*;

verus! {

/// A generated test pattern.
#[derive(Clone, PartialEq, Eq, Debug)]
pub struct Test {}

/// A URI-addressable stream.
#[derive(Clone, PartialEq, Eq, Debug)]
pub struct URI {
    pub uri: String,
}

/// The closed set of source kinds.
#[derive(Clone, PartialEq, Eq, Debug)]
pub enum SourceType {
    Test(Test),
    URI(URI),
}

/// A declared source: a unique id, a display name and its kind.
#[derive(Clone, PartialEq, Eq, Debug)]
pub struct SourceConfig {
    pub name: String,
    pub id: u32,
    pub source: SourceType,
}

} // verus!
