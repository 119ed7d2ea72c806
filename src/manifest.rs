use vstd::prelude::*;

use crate::version::Version;

verus! {

/// A package name: its normalized group and name, and the text it was
/// written as (`group/name`).
#[derive(Debug)]
pub struct PackageName {
    pub group: String,
    pub name: String,
    pub text: String,
}

/// How a dependency is to be resolved: from the registry, with a version
/// constraint, or otherwise (described by the text).
#[derive(Debug)]
pub enum DepReq {
    Registry(String),
    Other(String),
}

#[derive(Debug)]
pub struct Dependency {
    pub name: PackageName,
    pub req: DepReq,
}

/// What the artifact builder says of a package.
#[derive(Debug)]
pub struct Manifest {
    pub name: PackageName,
    pub version: Version,
    pub description: Option<String>,
    pub dependencies: Vec<Dependency>,
}

impl Clone for PackageName {
    fn clone(&self) -> (r: Self)
        ensures
            r == *self,
    {
        PackageName { group: self.group.clone(), name: self.name.clone(), text: self.text.clone() }
    }
}

} // verus!
