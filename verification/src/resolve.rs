//! The resolver graph as this crate sees it: the packages, versions, sources
//! and dependency references that a lockfile records.

use vstd::prelude::*;

verus! {

/// One resolved package.
#[derive(Debug, Clone, PartialEq, Eq)]
pub struct Package {
    pub name: String,
    pub version: String,
    /// Where the package comes from; `None` for the project's own source.
    pub source: Option<String>,
    /// References to the packages this one depends on.
    pub dependencies: Vec<String>,
}

/// A resolved dependency graph: the project's own package, every other
/// resolved package, and optional resolver bookkeeping.
#[derive(Debug, Clone, PartialEq, Eq)]
pub struct Resolve {
    pub root: Package,
    pub packages: Vec<Package>,
    pub metadata: Option<Vec<(String, String)>>,
    /// The source identity the graph is anchored to.  Loading takes it from
    /// the caller, never from file content; saving does not write it.
    pub source_id: String,
}

/// Mathematical model of a package.
#[verifier::ext_equal]
pub struct PackageV {
    pub name: Seq<char>,
    pub version: Seq<char>,
    pub source: Option<Seq<char>>,
    pub dependencies: Seq<Seq<char>>,
}

/// Mathematical model of a resolved graph.
#[verifier::ext_equal]
pub struct ResolveV {
    pub root: PackageV,
    pub packages: Seq<PackageV>,
    pub metadata: Option<Seq<(Seq<char>, Seq<char>)>>,
    pub source_id: Seq<char>,
}

/// The models of a list of key/value string pairs.
pub open spec fn pairs_model(s: Seq<(String, String)>) -> Seq<(Seq<char>, Seq<char>)> {
    Seq::new(s.len(), |i: int| (s[i].0@, s[i].1@))
}

impl View for Package {
    type V = PackageV;

    open spec fn view(&self) -> PackageV {
        PackageV {
            name: self.name@,
            version: self.version@,
            source: match self.source {
                Option::Some(s) => Option::Some(s@),
                Option::None => Option::None,
            },
            dependencies: Seq::new(self.dependencies@.len(), |i: int| self.dependencies@[i]@),
        }
    }
}

impl View for Resolve {
    type V = ResolveV;

    open spec fn view(&self) -> ResolveV {
        ResolveV {
            root: self.root@,
            packages: Seq::new(self.packages@.len(), |i: int| self.packages@[i]@),
            metadata: match self.metadata {
                Option::Some(m) => Option::Some(pairs_model(m@)),
                Option::None => Option::None,
            },
            source_id: self.source_id@,
        }
    }
}

} // verus!
