//! The data model: one published version of one package, its declared
//! dependency edges, and the dependency kinds.

use vstd::prelude::*;

verus! {

/// The role a dependency plays for the version that declares it.
/// Absent on the wire means `Normal`.
#[derive(Clone, Copy, Debug, PartialEq, Eq, Hash, Structural)]
pub enum DependencyKind {
    Normal,
    Dev,
    Build,
}

impl Default for DependencyKind {
    fn default() -> (r: Self)
        ensures
            r == DependencyKind::Normal,
    {
        DependencyKind::Normal
    }
}

/// One dependency edge declared by a version.
#[derive(Clone, Debug, PartialEq)]
pub struct Dependency {
    /// The identifier as written in the declaring manifest.
    pub name: String,
    /// Opaque version-requirement literal.
    pub req: String,
    /// Feature names to activate, in declared order, duplicates kept.
    pub features: Vec<String>,
    pub optional: bool,
    /// Whether the dependency's default feature set is enabled.
    pub default_features: bool,
    /// Platform-conditional expression, when the edge is conditional.
    pub target: Option<String>,
    /// Omitted on the wire iff `Normal`; the default is applied when
    /// the record is validated.
    pub kind: DependencyKind,
    /// The published identifier, when the manifest renamed the
    /// dependency via an alias.
    pub package: Option<String>,
}

/// The mathematical shape of a dependency edge.
#[verifier::ext_equal]
pub struct DependencyView {
    pub name: Seq<char>,
    pub req: Seq<char>,
    pub features: Seq<Seq<char>>,
    pub optional: bool,
    pub default_features: bool,
    pub target: Option<Seq<char>>,
    pub kind: DependencyKind,
    pub package: Option<Seq<char>>,
}

impl View for Dependency {
    type V = DependencyView;

    open spec fn view(&self) -> DependencyView {
        DependencyView {
            name: self.name@,
            req: self.req@,
            features: self.features.deep_view(),
            optional: self.optional,
            default_features: self.default_features,
            target: self.target.deep_view(),
            kind: self.kind,
            package: self.package.deep_view(),
        }
    }
}

/// The views of a sequence of dependency edges, elementwise.
pub open spec fn deps_view(s: Seq<Dependency>) -> Seq<DependencyView> {
    Seq::new(s.len(), |i: int| s[i]@)
}

impl DependencyView {
    /// The published identifier this edge is fetched under: the rename
    /// source when the dependency was declared under an alias, else
    /// the declared name.
    pub open spec fn spec_crate_name(self) -> Seq<char> {
        match self.package {
            Some(p) => p,
            None => self.name,
        }
    }
}

impl Dependency {
    /// The identifier as written in the declaring manifest.
    pub fn name(&self) -> (r: &str)
        ensures
            r@ == self@.name,
    {
        self.name.as_str()
    }

    /// The version-requirement literal.
    pub fn requirement(&self) -> (r: &str)
        ensures
            r@ == self@.req,
    {
        self.req.as_str()
    }

    /// Feature names this edge activates, in declared order.
    pub fn features(&self) -> (r: &Vec<String>)
        ensures
            r.deep_view() == self@.features,
    {
        &self.features
    }

    pub fn is_optional(&self) -> (r: bool)
        ensures
            r == self@.optional,
    {
        self.optional
    }

    pub fn has_default_features(&self) -> (r: bool)
        ensures
            r == self@.default_features,
    {
        self.default_features
    }

    /// The platform-conditional expression, when there is one.
    pub fn target(&self) -> (r: Option<&str>)
        ensures
            r is Some <==> self@.target is Some,
            r is Some ==> r->0@ == self@.target->0,
    {
        match &self.target {
            Some(t) => Some(t.as_str()),
            None => None,
        }
    }

    /// The kind of this edge; `Normal` when the wire record gave none.
    pub fn kind(&self) -> (r: DependencyKind)
        ensures
            r == self@.kind,
    {
        self.kind
    }

    /// The rename source, when the dependency was declared under an
    /// alias.
    pub fn package(&self) -> (r: Option<&str>)
        ensures
            r is Some <==> self@.package is Some,
            r is Some ==> r->0@ == self@.package->0,
    {
        match &self.package {
            Some(p) => Some(p.as_str()),
            None => None,
        }
    }

    /// The published identifier this edge is fetched under: `package()`
    /// when present, else `name()`.
    pub fn crate_name(&self) -> (r: &str)
        ensures
            r@ == self@.spec_crate_name(),
    {
        match &self.package {
            Some(p) => p.as_str(),
            None => self.name.as_str(),
        }
    }
}

/// One published version of one package.
#[derive(Clone, Debug, PartialEq)]
pub struct Version {
    /// Package identifier; lowercase on disk.
    pub name: String,
    /// Semantic-version-like literal, opaque here.
    pub vers: String,
    /// Declared dependency edges, in wire order.
    pub deps: Vec<Dependency>,
    /// Content hash of the published artifact: exactly 32 raw bytes.
    pub cksum: Vec<u8>,
    /// Feature name to the feature names it activates, keys unique.
    /// Pairs keep the order the record was built or decoded with; the
    /// JSON capability may normalize member order when decoding.
    pub features: Vec<(String, Vec<String>)>,
    /// Withdrawn, but kept resolvable for reproducibility.
    pub yanked: bool,
}

/// The mathematical shape of a published version.
#[verifier::ext_equal]
pub struct VersionView {
    pub name: Seq<char>,
    pub vers: Seq<char>,
    pub deps: Seq<DependencyView>,
    pub cksum: Seq<u8>,
    pub features: Seq<(Seq<char>, Seq<Seq<char>>)>,
    pub yanked: bool,
}

impl View for Version {
    type V = VersionView;

    open spec fn view(&self) -> VersionView {
        VersionView {
            name: self.name@,
            vers: self.vers@,
            deps: deps_view(self.deps@),
            cksum: self.cksum@,
            features: self.features.deep_view(),
            yanked: self.yanked,
        }
    }
}

impl VersionView {
    /// A version is well-formed when its checksum has exactly 32 bytes
    /// and its feature keys are unique.
    pub open spec fn wf(self) -> bool {
        &&& self.cksum.len() == 32
        &&& forall|i: int, j: int|
            0 <= i < j < self.features.len() ==> (#[trigger] self.features[i]).0
                != (#[trigger] self.features[j]).0
    }
}

impl Version {
    /// Name of the package.
    pub fn name(&self) -> (r: &str)
        ensures
            r@ == self@.name,
    {
        self.name.as_str()
    }

    /// The version literal.
    pub fn version(&self) -> (r: &str)
        ensures
            r@ == self@.vers,
    {
        self.vers.as_str()
    }

    /// The declared dependency edges, in wire order.
    pub fn dependencies(&self) -> (r: &Vec<Dependency>)
        ensures
            r@.len() == self@.deps.len(),
            forall|i: int| 0 <= i < r@.len() ==> (#[trigger] r@[i])@ == self@.deps[i],
    {
        &self.deps
    }

    /// The content hash of the published artifact: 32 bytes.
    pub fn checksum(&self) -> (r: &Vec<u8>)
        ensures
            r@ == self@.cksum,
    {
        &self.cksum
    }

    /// The feature map.
    pub fn features(&self) -> (r: &Vec<(String, Vec<String>)>)
        ensures
            r.deep_view() == self@.features,
    {
        &self.features
    }

    /// Whether this version was withdrawn from the index.
    pub fn is_yanked(&self) -> (r: bool)
        ensures
            r == self@.yanked,
    {
        self.yanked
    }
}

} // verus!
