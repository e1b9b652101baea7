//! The record codec's validation layer.
//!
//! Decoding is a two-step affair: the JSON capability turns one line of
//! bytes into a raw wire record in which every field is optional; this
//! module turns a raw record into a validated [`Version`], checking the
//! required fields and the checksum and applying the defaults. Encoding
//! lowers a validated record back to the raw form, omitting the
//! dependency kind exactly when it is `Normal` and the rename source
//! exactly when there is none; lowering then validating gives the
//! record back unchanged.

use vstd::prelude::*;
use crate::hex::hex_decode;
use crate::hex::hex_decoded;
use crate::hex::hex_encoded;
use crate::hex::hex_valid;
use crate::hex::hex_encode;
use crate::hex::lemma_hex_round_trip;
use crate::model::Dependency;
use crate::model::DependencyKind;
use crate::model::DependencyView;
use crate::model::Version;
use crate::model::VersionView;
use crate::model::deps_view;

verus! {

/// Why one line failed to decode.
#[derive(Clone, Copy, Debug, PartialEq, Eq, Structural)]
pub enum DecodeError {
    /// The line is not a JSON object.
    Json,
    /// A required field is absent.
    MissingField,
    /// A present field has the wrong type, an unknown kind string, or a
    /// duplicate feature key.
    FieldType,
    /// The checksum is not a 64-character hex string.
    ChecksumFormat,
}

/// One dependency edge as it stands on the wire: nothing yet required,
/// nothing yet defaulted.
#[derive(Clone, Debug)]
pub struct RawDependency {
    pub name: Option<String>,
    pub req: Option<String>,
    pub features: Option<Vec<String>>,
    pub optional: Option<bool>,
    pub default_features: Option<bool>,
    pub target: Option<String>,
    pub kind: Option<String>,
    pub package: Option<String>,
}

/// The mathematical shape of a raw dependency.
#[verifier::ext_equal]
pub struct RawDependencyView {
    pub name: Option<Seq<char>>,
    pub req: Option<Seq<char>>,
    pub features: Option<Seq<Seq<char>>>,
    pub optional: Option<bool>,
    pub default_features: Option<bool>,
    pub target: Option<Seq<char>>,
    pub kind: Option<Seq<char>>,
    pub package: Option<Seq<char>>,
}

impl View for RawDependency {
    type V = RawDependencyView;

    open spec fn view(&self) -> RawDependencyView {
        RawDependencyView {
            name: self.name.deep_view(),
            req: self.req.deep_view(),
            features: self.features.deep_view(),
            optional: self.optional,
            default_features: self.default_features,
            target: self.target.deep_view(),
            kind: self.kind.deep_view(),
            package: self.package.deep_view(),
        }
    }
}

/// One version record as it stands on the wire.
#[derive(Clone, Debug)]
pub struct RawVersion {
    pub name: Option<String>,
    pub vers: Option<String>,
    pub deps: Option<Vec<RawDependency>>,
    pub cksum: Option<String>,
    pub features: Option<Vec<(String, Vec<String>)>>,
    pub yanked: Option<bool>,
}

/// The views of a sequence of raw dependencies, elementwise.
pub open spec fn raw_deps_view(s: Seq<RawDependency>) -> Seq<RawDependencyView> {
    Seq::new(s.len(), |i: int| s[i]@)
}

/// The mathematical shape of a raw version record.
#[verifier::ext_equal]
pub struct RawVersionView {
    pub name: Option<Seq<char>>,
    pub vers: Option<Seq<char>>,
    pub deps: Option<Seq<RawDependencyView>>,
    pub cksum: Option<Seq<char>>,
    pub features: Option<Seq<(Seq<char>, Seq<Seq<char>>)>>,
    pub yanked: Option<bool>,
}

impl View for RawVersion {
    type V = RawVersionView;

    open spec fn view(&self) -> RawVersionView {
        RawVersionView {
            name: self.name.deep_view(),
            vers: self.vers.deep_view(),
            deps: match self.deps {
                Some(d) => Some(raw_deps_view(d@)),
                None => None,
            },
            cksum: self.cksum.deep_view(),
            features: self.features.deep_view(),
            yanked: self.yanked,
        }
    }
}

/// The dependency kind a wire string stands for, if any.
pub open spec fn spec_kind_of(s: Seq<char>) -> Option<DependencyKind> {
    if s == "normal"@ {
        Some(DependencyKind::Normal)
    } else if s == "dev"@ {
        Some(DependencyKind::Dev)
    } else if s == "build"@ {
        Some(DependencyKind::Build)
    } else {
        None
    }
}

/// The wire string of a dependency kind.
pub open spec fn spec_kind_str(k: DependencyKind) -> Seq<char> {
    match k {
        DependencyKind::Normal => "normal"@,
        DependencyKind::Dev => "dev"@,
        DependencyKind::Build => "build"@,
    }
}

/// Parse a wire kind string.
pub fn kind_from_str(s: &String) -> (r: Option<DependencyKind>)
    ensures
        r == spec_kind_of(s@),
{
    if *s == String::from_str("normal") {
        Some(DependencyKind::Normal)
    } else if *s == String::from_str("dev") {
        Some(DependencyKind::Dev)
    } else if *s == String::from_str("build") {
        Some(DependencyKind::Build)
    } else {
        None
    }
}

/// Validation of one raw dependency: the name, requirement, feature
/// list and the two booleans are required; the kind defaults to
/// `Normal` when absent and must be a known kind string when present;
/// target and package stay as they are.
pub open spec fn spec_validate_dep(d: RawDependencyView) -> Result<DependencyView, DecodeError> {
    if d.name is None || d.req is None || d.features is None || d.optional is None
        || d.default_features is None {
        Err(DecodeError::MissingField)
    } else {
        let k = match d.kind {
            None => Some(DependencyKind::Normal),
            Some(s) => spec_kind_of(s),
        };
        match k {
            None => Err(DecodeError::FieldType),
            Some(kk) => Ok(DependencyView {
                name: d.name->0,
                req: d.req->0,
                features: d.features->0,
                optional: d.optional->0,
                default_features: d.default_features->0,
                target: d.target,
                kind: kk,
                package: d.package,
            }),
        }
    }
}

/// Validation of a dependency list: every edge validated in order, the
/// earliest failure surfacing.
pub open spec fn spec_validate_deps(ds: Seq<RawDependencyView>) -> Result<
    Seq<DependencyView>,
    DecodeError,
>
    decreases ds.len(),
{
    if ds.len() == 0 {
        Ok(Seq::empty())
    } else {
        match spec_validate_deps(ds.drop_last()) {
            Err(e) => Err(e),
            Ok(pre) => match spec_validate_dep(ds.last()) {
                Err(e) => Err(e),
                Ok(d) => Ok(pre.push(d)),
            },
        }
    }
}

/// Whether a feature map has unique keys.
pub open spec fn features_unique(fs: Seq<(Seq<char>, Seq<Seq<char>>)>) -> bool {
    forall|i: int, j: int|
        0 <= i < j < fs.len() ==> (#[trigger] fs[i]).0 != (#[trigger] fs[j]).0
}

/// Validation of one raw version record: all six fields are required;
/// the checksum must be a 64-character hex string and becomes 32 raw
/// bytes; feature keys must be unique; the dependency edges are
/// validated in order.
pub open spec fn spec_validate(v: RawVersionView) -> Result<VersionView, DecodeError> {
    if v.name is None || v.vers is None || v.deps is None || v.cksum is None
        || v.features is None || v.yanked is None {
        Err(DecodeError::MissingField)
    } else if !(v.cksum->0.len() == 64 && hex_valid(v.cksum->0)) {
        Err(DecodeError::ChecksumFormat)
    } else if !features_unique(v.features->0) {
        Err(DecodeError::FieldType)
    } else {
        match spec_validate_deps(v.deps->0) {
            Err(e) => Err(e),
            Ok(ds) => Ok(VersionView {
                name: v.name->0,
                vers: v.vers->0,
                deps: ds,
                cksum: hex_decoded(v.cksum->0),
                features: v.features->0,
                yanked: v.yanked->0,
            }),
        }
    }
}

fn clone_opt_string(s: &Option<String>) -> (r: Option<String>)
    ensures
        r.deep_view() == s.deep_view(),
{
    match s {
        Some(x) => Some(x.clone()),
        None => None,
    }
}

fn clone_string_vec(v: &Vec<String>) -> (r: Vec<String>)
    ensures
        r.deep_view() == v.deep_view(),
{
    #![verifier::loop_isolation(false)]
    let mut out: Vec<String> = Vec::new();
    let mut i: usize = 0;
    while i < v.len()
        invariant
            0 <= i <= v@.len(),
            out@.len() == i,
            forall|k: int| 0 <= k < i ==> out@[k]@ == v@[k]@,
        decreases v@.len() - i,
    {
        out.push(v[i].clone());
        i = i + 1;
    }
    assert(out.deep_view() =~= v.deep_view());
    out
}

/// Validate one raw dependency edge.
pub fn validate_dep(d: &RawDependency) -> (r: Result<Dependency, DecodeError>)
    ensures
        r is Ok <==> spec_validate_dep(d@) is Ok,
        r is Ok ==> (r->Ok_0)@ == spec_validate_dep(d@)->Ok_0,
        r is Err ==> r->Err_0 == spec_validate_dep(d@)->Err_0,
{
    let name = match &d.name {
        Some(s) => s.clone(),
        None => { return Err(DecodeError::MissingField); },
    };
    let req = match &d.req {
        Some(s) => s.clone(),
        None => { return Err(DecodeError::MissingField); },
    };
    let features = match &d.features {
        Some(f) => clone_string_vec(f),
        None => { return Err(DecodeError::MissingField); },
    };
    let optional = match &d.optional {
        Some(b) => *b,
        None => { return Err(DecodeError::MissingField); },
    };
    let default_features = match &d.default_features {
        Some(b) => *b,
        None => { return Err(DecodeError::MissingField); },
    };
    let kind = match &d.kind {
        None => DependencyKind::Normal,
        Some(s) => match kind_from_str(s) {
            Some(k) => k,
            None => { return Err(DecodeError::FieldType); },
        },
    };
    let out = Dependency {
        name,
        req,
        features,
        optional,
        default_features,
        target: clone_opt_string(&d.target),
        kind,
        package: clone_opt_string(&d.package),
    };
    assert(out@ =~= spec_validate_dep(d@)->Ok_0);
    Ok(out)
}

/// The earliest failing edge decides the outcome of validating a
/// dependency list.
proof fn lemma_validate_deps_first_err(ds: Seq<RawDependencyView>, i: int)
    requires
        0 <= i < ds.len(),
        spec_validate_deps(ds.subrange(0, i)) is Ok,
        spec_validate_dep(ds[i]) is Err,
    ensures
        spec_validate_deps(ds) == Err::<Seq<DependencyView>, DecodeError>(
            spec_validate_dep(ds[i])->Err_0),
    decreases ds.len(),
{
    if i == ds.len() - 1 {
        assert(ds.drop_last() =~= ds.subrange(0, i));
    } else {
        assert(ds.drop_last().subrange(0, i) =~= ds.subrange(0, i));
        lemma_validate_deps_first_err(ds.drop_last(), i);
        assert(ds.drop_last()[i] == ds[i]);
    }
}

/// Validate one raw version record.
pub fn validate(raw: &RawVersion) -> (r: Result<Version, DecodeError>)
    ensures
        r is Ok <==> spec_validate(raw@) is Ok,
        r is Ok ==> (r->Ok_0)@ == spec_validate(raw@)->Ok_0,
        r is Err ==> r->Err_0 == spec_validate(raw@)->Err_0,
{
    #![verifier::loop_isolation(false)]
    let name = match &raw.name {
        Some(s) => s.clone(),
        None => { return Err(DecodeError::MissingField); },
    };
    let vers = match &raw.vers {
        Some(s) => s.clone(),
        None => { return Err(DecodeError::MissingField); },
    };
    let rdeps = match &raw.deps {
        Some(d) => d,
        None => { return Err(DecodeError::MissingField); },
    };
    let cksum_str = match &raw.cksum {
        Some(s) => s,
        None => { return Err(DecodeError::MissingField); },
    };
    let feats = match &raw.features {
        Some(f) => f,
        None => { return Err(DecodeError::MissingField); },
    };
    let yanked = match &raw.yanked {
        Some(b) => *b,
        None => { return Err(DecodeError::MissingField); },
    };
    if cksum_str.unicode_len() != 64 {
        return Err(DecodeError::ChecksumFormat);
    }
    let cksum = match hex_decode(cksum_str.as_str()) {
        Some(b) => b,
        None => { return Err(DecodeError::ChecksumFormat); },
    };
    let nf = feats.len();
    let mut fi: usize = 0;
    while fi < nf
        invariant
            nf == feats@.len(),
            0 <= fi <= nf,
            raw.features == Some(*feats),
            forall|a: int, b: int|
                0 <= a < b < feats.deep_view().len() && a < fi ==> (#[trigger] feats.deep_view()[a]).0
                    != (#[trigger] feats.deep_view()[b]).0,
        decreases nf - fi,
    {
        let mut fj: usize = fi + 1;
        while fj < nf
            invariant
                nf == feats@.len(),
                0 <= fi < fj <= nf,
                forall|b: int|
                    fi < b < fj ==> (#[trigger] feats.deep_view()[b]).0
                        != feats.deep_view()[fi as int].0,
            decreases nf - fj,
        {
            if feats[fi].0 == feats[fj].0 {
                assert(feats.deep_view()[fi as int].0 == feats.deep_view()[fj as int].0);
                assert(!features_unique(raw@.features->0));
                return Err(DecodeError::FieldType);
            }
            fj = fj + 1;
        }
        fi = fi + 1;
    }
    assert(features_unique(raw@.features->0));
    let mut features: Vec<(String, Vec<String>)> = Vec::new();
    let mut i: usize = 0;
    while i < feats.len()
        invariant
            0 <= i <= feats@.len(),
            features@.len() == i,
            forall|k: int|
                0 <= k < i ==> (#[trigger] features@[k]).0@ == feats@[k].0@
                    && features@[k].1.deep_view() == feats@[k].1.deep_view(),
        decreases feats@.len() - i,
    {
        let key = feats[i].0.clone();
        let vals = clone_string_vec(&feats[i].1);
        let ghost pair = (key, vals);
        features.push((key, vals));
        proof {
            assert(features@[i as int] == pair);
        }
        i = i + 1;
    }
    proof {
        assert forall|k: int| 0 <= k < feats@.len() implies #[trigger] features.deep_view()[k]
            == feats.deep_view()[k] by {
            assert(features.deep_view()[k] == (features@[k].0@, features@[k].1.deep_view()));
            assert(feats.deep_view()[k] == (feats@[k].0@, feats@[k].1.deep_view()));
        }
        assert(features.deep_view() =~= feats.deep_view());
    }
    let ghost dvs = raw@.deps->0;
    let mut deps: Vec<Dependency> = Vec::new();
    let mut di: usize = 0;
    proof {
        assert(dvs.subrange(0, 0) =~= Seq::<RawDependencyView>::empty());
        assert(deps_view(deps@) =~= Seq::<DependencyView>::empty());
    }
    while di < rdeps.len()
        invariant
            rdeps@.len() == dvs.len(),
            dvs == raw_deps_view(rdeps@),
            0 <= di <= rdeps@.len(),
            spec_validate_deps(dvs.subrange(0, di as int)) == Ok::<_, DecodeError>(
                deps_view(deps@)),
        decreases rdeps@.len() - di,
    {
        match validate_dep(&rdeps[di]) {
            Ok(dep) => {
                let ghost pre = deps@;
                let ghost dv = dep@;
                deps.push(dep);
                proof {
                    assert(spec_validate_dep(dvs[di as int]) == Ok::<_, DecodeError>(dv));
                    assert(dvs.subrange(0, di + 1).drop_last() =~= dvs.subrange(0, di as int));
                    assert(dvs.subrange(0, di + 1).last() == dvs[di as int]);
                    assert(deps_view(deps@) =~= deps_view(pre).push(dv));
                    assert(spec_validate_deps(dvs.subrange(0, di + 1)) == Ok::<_, DecodeError>(
                        deps_view(deps@)));
                }
            },
            Err(e) => {
                proof {
                    lemma_validate_deps_first_err(dvs, di as int);
                }
                return Err(e);
            },
        }
        di = di + 1;
    }
    proof {
        assert(dvs.subrange(0, dvs.len() as int) =~= dvs);
    }
    let out = Version { name, vers, deps, cksum, features, yanked };
    assert(out@ =~= spec_validate(raw@)->Ok_0);
    Ok(out)
}

/// The raw form of one dependency edge: the kind is omitted exactly
/// when it is `Normal`, the rename source exactly when there is none.
pub open spec fn spec_lower_dep(d: DependencyView) -> RawDependencyView {
    RawDependencyView {
        name: Some(d.name),
        req: Some(d.req),
        features: Some(d.features),
        optional: Some(d.optional),
        default_features: Some(d.default_features),
        target: d.target,
        kind: if d.kind == DependencyKind::Normal {
            None
        } else {
            Some(spec_kind_str(d.kind))
        },
        package: d.package,
    }
}

/// The raw form of one version record.
pub open spec fn spec_lower(v: VersionView) -> RawVersionView {
    RawVersionView {
        name: Some(v.name),
        vers: Some(v.vers),
        deps: Some(v.deps.map_values(|d: DependencyView| spec_lower_dep(d))),
        cksum: Some(hex_encoded(v.cksum)),
        features: Some(v.features),
        yanked: Some(v.yanked),
    }
}

/// Lower one dependency edge to its raw wire form.
pub fn lower_dep(d: &Dependency) -> (r: RawDependency)
    ensures
        r@ == spec_lower_dep(d@),
{
    let kind = match d.kind {
        DependencyKind::Normal => None,
        DependencyKind::Dev => Some(String::from_str("dev")),
        DependencyKind::Build => Some(String::from_str("build")),
    };
    let out = RawDependency {
        name: Some(d.name.clone()),
        req: Some(d.req.clone()),
        features: Some(clone_string_vec(&d.features)),
        optional: Some(d.optional),
        default_features: Some(d.default_features),
        target: clone_opt_string(&d.target),
        kind,
        package: clone_opt_string(&d.package),
    };
    assert(out@ =~= spec_lower_dep(d@));
    out
}

/// Lower one version record to its raw wire form.
pub fn lower(v: &Version) -> (r: RawVersion)
    ensures
        r@ == spec_lower(v@),
{
    #![verifier::loop_isolation(false)]
    let mut rdeps: Vec<RawDependency> = Vec::new();
    let mut i: usize = 0;
    while i < v.deps.len()
        invariant
            0 <= i <= v.deps@.len(),
            rdeps@.len() == i,
            forall|k: int| 0 <= k < i ==> rdeps@[k]@ == spec_lower_dep(#[trigger] v.deps@[k]@),
        decreases v.deps@.len() - i,
    {
        let rd = lower_dep(&v.deps[i]);
        rdeps.push(rd);
        i = i + 1;
    }
    let mut features: Vec<(String, Vec<String>)> = Vec::new();
    let mut j: usize = 0;
    while j < v.features.len()
        invariant
            0 <= j <= v.features@.len(),
            features@.len() == j,
            forall|k: int|
                0 <= k < j ==> (#[trigger] features@[k]).0@ == v.features@[k].0@
                    && features@[k].1.deep_view() == v.features@[k].1.deep_view(),
        decreases v.features@.len() - j,
    {
        let key = v.features[j].0.clone();
        let vals = clone_string_vec(&v.features[j].1);
        let ghost pair = (key, vals);
        features.push((key, vals));
        proof {
            assert(features@[j as int] == pair);
        }
        j = j + 1;
    }
    proof {
        assert forall|k: int| 0 <= k < v.features@.len() implies #[trigger] features.deep_view()[k]
            == v.features.deep_view()[k] by {
            assert(features.deep_view()[k] == (features@[k].0@, features@[k].1.deep_view()));
            assert(v.features.deep_view()[k] == (v.features@[k].0@,
                v.features@[k].1.deep_view()));
        }
    }
    let out = RawVersion {
        name: Some(v.name.clone()),
        vers: Some(v.vers.clone()),
        deps: Some(rdeps),
        cksum: Some(hex_encode(&v.cksum)),
        features: Some(features),
        yanked: Some(v.yanked),
    };
    proof {
        assert(raw_deps_view(rdeps@) =~= v@.deps.map_values(|d: DependencyView| spec_lower_dep(
            d)));
        assert(features.deep_view() =~= v.features.deep_view());
        assert(out@ =~= spec_lower(v@));
    }
    out
}

/// Lowering a dependency edge and validating the raw form gives the
/// edge back: the kind omitted iff `Normal` is re-defaulted correctly.
proof fn lemma_validate_lower_dep(d: DependencyView)
    ensures
        spec_validate_dep(spec_lower_dep(d)) == Ok::<_, DecodeError>(d),
{
    reveal_strlit("normal");
    reveal_strlit("dev");
    reveal_strlit("build");
    match d.kind {
        DependencyKind::Normal => {},
        DependencyKind::Dev => {
            assert("dev"@ != "normal"@) by {
                assert("dev"@.len() == 3 && "normal"@.len() == 6);
            }
            assert(spec_kind_of("dev"@) == Some(DependencyKind::Dev));
        },
        DependencyKind::Build => {
            assert("build"@ != "normal"@ && "build"@ != "dev"@) by {
                assert("build"@.len() == 5 && "normal"@.len() == 6 && "dev"@.len() == 3);
            }
            assert(spec_kind_of("build"@) == Some(DependencyKind::Build));
        },
    }
    assert(spec_validate_dep(spec_lower_dep(d))->Ok_0 =~= d);
}

/// Lowering a dependency list and validating it gives the list back.
proof fn lemma_validate_lower_deps(ds: Seq<DependencyView>)
    ensures
        spec_validate_deps(ds.map_values(|d: DependencyView| spec_lower_dep(d)))
            == Ok::<_, DecodeError>(ds),
    decreases ds.len(),
{
    let lowered = ds.map_values(|d: DependencyView| spec_lower_dep(d));
    if ds.len() == 0 {
        assert(ds =~= Seq::<DependencyView>::empty());
    } else {
        lemma_validate_lower_deps(ds.drop_last());
        assert(lowered.drop_last() =~= ds.drop_last().map_values(
            |d: DependencyView| spec_lower_dep(d)));
        lemma_validate_lower_dep(ds.last());
        assert(lowered.last() == spec_lower_dep(ds.last()));
        assert(ds.drop_last().push(ds.last()) =~= ds);
    }
}

/// The round trip: lowering any well-formed version record to its wire
/// form and validating that form gives the record back, including when
/// the dependency kind is `Normal` (omitted and re-defaulted) and when
/// the rename source is absent.
pub proof fn lemma_validate_lower(v: VersionView)
    requires
        v.wf(),
    ensures
        spec_validate(spec_lower(v)) == Ok::<_, DecodeError>(v),
{
    lemma_hex_round_trip(v.cksum);
    lemma_validate_lower_deps(v.deps);
    assert(spec_validate(spec_lower(v))->Ok_0 =~= v);
}

} // verus!
