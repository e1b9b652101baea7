//! The JSON capability, and decoding one line into a validated record.
//!
//! The tokenizer/decoder itself is outside this library: serde_json
//! turns a byte span into one structural value. That value is carried
//! across the trusted boundary as a transparent tree of the library's
//! own, so the result of parsing a line is a function of the line's
//! bytes alone and carries the name [`json_of`]. Everything after the
//! boundary — the walk from the tree to a raw wire record, and the
//! validation of the raw record — is verified against an exact
//! specification: [`spec_decode_line`] fixes the decode of every line.

use vstd::prelude::*;
use crate::codec::DecodeError;
use crate::codec::RawDependency;
use crate::codec::RawDependencyView;
use crate::codec::RawVersion;
use crate::codec::RawVersionView;
use crate::codec::raw_deps_view;
use crate::codec::spec_validate;
use crate::codec::validate;
use crate::model::Version;
use crate::model::VersionView;

verus! {

/// One JSON value, as a transparent tree: the shape the JSON capability
/// hands across the trusted boundary. A number is carried as its
/// decimal rendering; no record field reads one.
#[derive(Debug)]
pub enum Json {
    Null,
    Bool(bool),
    Num(String),
    Str(String),
    Arr(Vec<Json>),
    Obj(Vec<(String, Json)>),
}

/// What serde_json parses the byte span to, rendered as the
/// transparent tree: `None` on malformed input. A function of the
/// bytes alone.
pub uninterp spec fn json_of(b: Seq<u8>) -> Option<Json>;

#[verifier::external_type_specification]
#[verifier::external_body]
pub struct ExValue(serde_json::Value);

/// The conversion half of the JSON capability: one arm per serde_json
/// value variant, moving the content into the library's transparent
/// tree. Relies on serde_json::Value's variants and on
/// serde_json::Number's decimal rendering.
#[verifier::external_body]
fn value_to_json(v: &serde_json::Value) -> Json {
    match v {
        serde_json::Value::Null => Json::Null,
        serde_json::Value::Bool(b) => Json::Bool(*b),
        serde_json::Value::Number(n) => Json::Num(n.to_string()),
        serde_json::Value::String(s) => Json::Str(s.clone()),
        serde_json::Value::Array(a) => Json::Arr(a.iter().map(value_to_json).collect()),
        serde_json::Value::Object(m) => Json::Obj(
            m.iter().map(|(k, val)| (k.clone(), value_to_json(val))).collect(),
        ),
    }
}

/// Relies on serde_json::from_slice: parses the whole byte span as one
/// JSON value (empty input is malformed), a function of the bytes
/// alone — the named result `json_of`.
#[verifier::external_body]
fn parse_json(b: &[u8]) -> (r: Option<Json>)
    ensures
        r == json_of(b@),
        b@.len() == 0 ==> r is None,
{
    serde_json::from_slice::<serde_json::Value>(b).ok().map(|v| value_to_json(&v))
}

/// The members of a JSON object; `None` for any other value.
pub open spec fn spec_obj(j: Json) -> Option<Seq<(String, Json)>> {
    match j {
        Json::Obj(m) => Some(m@),
        _ => None,
    }
}

/// The first member under the key, if any.
pub open spec fn spec_get(m: Seq<(String, Json)>, key: Seq<char>) -> Option<Json>
    decreases m.len(),
{
    if m.len() == 0 {
        None
    } else if m[0].0@ == key {
        Some(m[0].1)
    } else {
        spec_get(m.drop_first(), key)
    }
}

/// A string field: absent gives `None`; a present field must be a
/// string.
pub open spec fn spec_str_field(m: Seq<(String, Json)>, key: Seq<char>) -> Result<
    Option<Seq<char>>,
    DecodeError,
> {
    match spec_get(m, key) {
        None => Ok(None),
        Some(j) => match j {
            Json::Str(s) => Ok(Some(s@)),
            _ => Err(DecodeError::FieldType),
        },
    }
}

/// An optional string field: absent or null give `None`; anything else
/// must be a string.
pub open spec fn spec_opt_str_field(m: Seq<(String, Json)>, key: Seq<char>) -> Result<
    Option<Seq<char>>,
    DecodeError,
> {
    match spec_get(m, key) {
        None => Ok(None),
        Some(j) => match j {
            Json::Null => Ok(None),
            Json::Str(s) => Ok(Some(s@)),
            _ => Err(DecodeError::FieldType),
        },
    }
}

/// A boolean field: absent gives `None`; a present field must be a
/// boolean.
pub open spec fn spec_bool_field(m: Seq<(String, Json)>, key: Seq<char>) -> Result<
    Option<bool>,
    DecodeError,
> {
    match spec_get(m, key) {
        None => Ok(None),
        Some(j) => match j {
            Json::Bool(b) => Ok(Some(b)),
            _ => Err(DecodeError::FieldType),
        },
    }
}

/// The strings of an array whose elements must all be strings.
pub open spec fn spec_str_items(a: Seq<Json>) -> Result<Seq<Seq<char>>, DecodeError>
    decreases a.len(),
{
    if a.len() == 0 {
        Ok(Seq::empty())
    } else {
        match spec_str_items(a.drop_last()) {
            Err(e) => Err(e),
            Ok(pre) => match a.last() {
                Json::Str(s) => Ok(pre.push(s@)),
                _ => Err(DecodeError::FieldType),
            },
        }
    }
}

/// An array-of-strings field: absent gives `None`; a present field
/// must be an array of strings.
pub open spec fn spec_str_list_field(m: Seq<(String, Json)>, key: Seq<char>) -> Result<
    Option<Seq<Seq<char>>>,
    DecodeError,
> {
    match spec_get(m, key) {
        None => Ok(None),
        Some(j) => match j {
            Json::Arr(a) => match spec_str_items(a@) {
                Ok(xs) => Ok(Some(xs)),
                Err(e) => Err(e),
            },
            _ => Err(DecodeError::FieldType),
        },
    }
}

/// One dependency edge of the wire record: the element must be an
/// object; each present field must have its wire type.
pub open spec fn spec_raw_dep_of(j: Json) -> Result<RawDependencyView, DecodeError> {
    match spec_obj(j) {
        None => Err(DecodeError::FieldType),
        Some(m) => match spec_str_field(m, "name"@) {
            Err(e) => Err(e),
            Ok(name) => match spec_str_field(m, "req"@) {
                Err(e) => Err(e),
                Ok(req) => match spec_str_list_field(m, "features"@) {
                    Err(e) => Err(e),
                    Ok(features) => match spec_bool_field(m, "optional"@) {
                        Err(e) => Err(e),
                        Ok(optional) => match spec_bool_field(m, "default_features"@) {
                            Err(e) => Err(e),
                            Ok(default_features) => match spec_opt_str_field(m, "target"@) {
                                Err(e) => Err(e),
                                Ok(target) => match spec_opt_str_field(m, "kind"@) {
                                    Err(e) => Err(e),
                                    Ok(kind) => match spec_opt_str_field(m, "package"@) {
                                        Err(e) => Err(e),
                                        Ok(package) => Ok(RawDependencyView {
                                            name,
                                            req,
                                            features,
                                            optional,
                                            default_features,
                                            target,
                                            kind,
                                            package,
                                        }),
                                    },
                                },
                            },
                        },
                    },
                },
            },
        },
    }
}

/// The dependency edges of the wire record, in array order, the
/// earliest failure surfacing.
pub open spec fn spec_raw_deps(a: Seq<Json>) -> Result<Seq<RawDependencyView>, DecodeError>
    decreases a.len(),
{
    if a.len() == 0 {
        Ok(Seq::empty())
    } else {
        match spec_raw_deps(a.drop_last()) {
            Err(e) => Err(e),
            Ok(pre) => match spec_raw_dep_of(a.last()) {
                Err(e) => Err(e),
                Ok(d) => Ok(pre.push(d)),
            },
        }
    }
}

/// The feature map of the wire record: every member's value must be an
/// array of strings; members kept in the object's order.
pub open spec fn spec_feature_items(m: Seq<(String, Json)>) -> Result<
    Seq<(Seq<char>, Seq<Seq<char>>)>,
    DecodeError,
>
    decreases m.len(),
{
    if m.len() == 0 {
        Ok(Seq::empty())
    } else {
        match spec_feature_items(m.drop_last()) {
            Err(e) => Err(e),
            Ok(pre) => match m.last().1 {
                Json::Arr(a) => match spec_str_items(a@) {
                    Err(e) => Err(e),
                    Ok(xs) => Ok(pre.push((m.last().0@, xs))),
                },
                _ => Err(DecodeError::FieldType),
            },
        }
    }
}

/// The raw wire record a JSON value stands for: the value must be an
/// object; fields may be absent, but a present field must have its
/// wire type; fields are examined in wire order, the earliest failure
/// surfacing.
pub open spec fn spec_raw_of_json(j: Json) -> Result<RawVersionView, DecodeError> {
    match spec_obj(j) {
        None => Err(DecodeError::FieldType),
        Some(m) => match spec_str_field(m, "name"@) {
            Err(e) => Err(e),
            Ok(name) => match spec_str_field(m, "vers"@) {
                Err(e) => Err(e),
                Ok(vers) => match (match spec_get(m, "deps"@) {
                    None => Ok(None),
                    Some(j2) => match j2 {
                        Json::Arr(a) => match spec_raw_deps(a@) {
                            Ok(ds) => Ok(Some(ds)),
                            Err(e) => Err(e),
                        },
                        _ => Err(DecodeError::FieldType),
                    },
                }) {
                    Err(e) => Err(e),
                    Ok(deps) => match spec_str_field(m, "cksum"@) {
                        Err(e) => Err(e),
                        Ok(cksum) => match (match spec_get(m, "features"@) {
                            None => Ok(None),
                            Some(j3) => match j3 {
                                Json::Obj(fm) => match spec_feature_items(fm@) {
                                    Ok(fs) => Ok(Some(fs)),
                                    Err(e) => Err(e),
                                },
                                _ => Err(DecodeError::FieldType),
                            },
                        }) {
                            Err(e) => Err(e),
                            Ok(features) => match spec_bool_field(m, "yanked"@) {
                                Err(e) => Err(e),
                                Ok(yanked) => Ok(RawVersionView {
                                    name,
                                    vers,
                                    deps,
                                    cksum,
                                    features,
                                    yanked,
                                }),
                            },
                        },
                    },
                },
            },
        },
    }
}

/// The decode of one line: the JSON capability's named parse, the walk
/// to the raw record, then validation.
pub open spec fn spec_decode_line(b: Seq<u8>) -> Result<VersionView, DecodeError> {
    match json_of(b) {
        None => Err(DecodeError::Json),
        Some(j) => match spec_raw_of_json(j) {
            Err(e) => Err(e),
            Ok(raw) => spec_validate(raw),
        },
    }
}

/// Whether two string slices hold the same characters.
fn str_eq(a: &str, b: &str) -> (r: bool)
    ensures
        r == (a@ == b@),
{
    #![verifier::loop_isolation(false)]
    let n = a.unicode_len();
    if n != b.unicode_len() {
        return false;
    }
    let mut i: usize = 0;
    while i < n
        invariant
            0 <= i <= n,
            forall|k: int| 0 <= k < i ==> a@[k] == b@[k],
        decreases n - i,
    {
        if a.get_char(i) != b.get_char(i) {
            return false;
        }
        i = i + 1;
    }
    assert(a@ =~= b@);
    true
}

/// Skipping members whose keys all mismatch does not change a lookup.
proof fn lemma_spec_get_skip(m: Seq<(String, Json)>, key: Seq<char>, i: int)
    requires
        0 <= i <= m.len(),
        forall|k: int| 0 <= k < i ==> (#[trigger] m[k]).0@ != key,
    ensures
        spec_get(m, key) == spec_get(m.skip(i), key),
    decreases i,
{
    if i == 0 {
        assert(m.skip(0) =~= m);
    } else {
        assert(m[0].0@ != key);
        assert(m.drop_first() =~= m.skip(1));
        lemma_spec_get_skip(m.skip(1), key, i - 1);
        assert(m.skip(1).skip(i - 1) =~= m.skip(i));
    }
}

/// The first member under the key, if any.
fn obj_get<'a>(m: &'a Vec<(String, Json)>, key: &str) -> (r: Option<&'a Json>)
    ensures
        r is Some <==> spec_get(m@, key@) is Some,
        r is Some ==> *r->0 == spec_get(m@, key@)->0,
{
    #![verifier::loop_isolation(false)]
    let mut i: usize = 0;
    while i < m.len()
        invariant
            0 <= i <= m@.len(),
            forall|k: int| 0 <= k < i ==> (#[trigger] m@[k]).0@ != key@,
        decreases m@.len() - i,
    {
        if str_eq(m[i].0.as_str(), key) {
            proof {
                lemma_spec_get_skip(m@, key@, i as int);
                assert(m@.skip(i as int)[0] == m@[i as int]);
            }
            return Some(&m[i].1);
        }
        i = i + 1;
    }
    proof {
        lemma_spec_get_skip(m@, key@, m@.len() as int);
        assert(m@.skip(m@.len() as int) =~= Seq::<(String, Json)>::empty());
    }
    None
}

/// A string field of an object.
fn str_field(m: &Vec<(String, Json)>, key: &str) -> (r: Result<Option<String>, DecodeError>)
    ensures
        r is Ok <==> spec_str_field(m@, key@) is Ok,
        r is Ok ==> r->Ok_0.deep_view() == spec_str_field(m@, key@)->Ok_0,
        r is Err ==> r->Err_0 == spec_str_field(m@, key@)->Err_0,
{
    match obj_get(m, key) {
        None => Ok(None),
        Some(j) => match j {
            Json::Str(s) => Ok(Some(s.clone())),
            _ => Err(DecodeError::FieldType),
        },
    }
}

/// An optional string field of an object: null counts as absent.
fn opt_str_field(m: &Vec<(String, Json)>, key: &str) -> (r: Result<Option<String>, DecodeError>)
    ensures
        r is Ok <==> spec_opt_str_field(m@, key@) is Ok,
        r is Ok ==> r->Ok_0.deep_view() == spec_opt_str_field(m@, key@)->Ok_0,
        r is Err ==> r->Err_0 == spec_opt_str_field(m@, key@)->Err_0,
{
    match obj_get(m, key) {
        None => Ok(None),
        Some(j) => match j {
            Json::Null => Ok(None),
            Json::Str(s) => Ok(Some(s.clone())),
            _ => Err(DecodeError::FieldType),
        },
    }
}

/// A boolean field of an object.
fn bool_field(m: &Vec<(String, Json)>, key: &str) -> (r: Result<Option<bool>, DecodeError>)
    ensures
        r is Ok <==> spec_bool_field(m@, key@) is Ok,
        r is Ok ==> r->Ok_0 == spec_bool_field(m@, key@)->Ok_0,
        r is Err ==> r->Err_0 == spec_bool_field(m@, key@)->Err_0,
{
    match obj_get(m, key) {
        None => Ok(None),
        Some(j) => match j {
            Json::Bool(b) => Ok(Some(*b)),
            _ => Err(DecodeError::FieldType),
        },
    }
}

/// In an all-strings array, the earliest failing element decides.
proof fn lemma_str_items_first_err(a: Seq<Json>, i: int)
    requires
        0 <= i < a.len(),
        spec_str_items(a.subrange(0, i)) is Ok,
        !(a[i] is Str),
    ensures
        spec_str_items(a) == Err::<Seq<Seq<char>>, DecodeError>(DecodeError::FieldType),
    decreases a.len(),
{
    if i == a.len() - 1 {
        assert(a.drop_last() =~= a.subrange(0, i));
    } else {
        assert(a.drop_last().subrange(0, i) =~= a.subrange(0, i));
        lemma_str_items_first_err(a.drop_last(), i);
    }
}

/// The strings of an array whose elements must all be strings.
fn str_items(a: &Vec<Json>) -> (r: Result<Vec<String>, DecodeError>)
    ensures
        r is Ok <==> spec_str_items(a@) is Ok,
        r is Ok ==> r->Ok_0.deep_view() == spec_str_items(a@)->Ok_0,
        r is Err ==> r->Err_0 == spec_str_items(a@)->Err_0,
{
    #![verifier::loop_isolation(false)]
    let mut out: Vec<String> = Vec::new();
    let mut i: usize = 0;
    proof {
        assert(a@.subrange(0, 0) =~= Seq::<Json>::empty());
        assert(out.deep_view() =~= Seq::<Seq<char>>::empty());
    }
    while i < a.len()
        invariant
            0 <= i <= a@.len(),
            spec_str_items(a@.subrange(0, i as int)) == Ok::<_, DecodeError>(out.deep_view()),
        decreases a@.len() - i,
    {
        match &a[i] {
            Json::Str(s) => {
                let ghost pre = out.deep_view();
                out.push(s.clone());
                proof {
                    assert(a@.subrange(0, i + 1).drop_last() =~= a@.subrange(0, i as int));
                    assert(a@.subrange(0, i + 1).last() == a@[i as int]);
                    assert(out.deep_view() =~= pre.push(a@[i as int]->Str_0@));
                }
            },
            _ => {
                proof {
                    lemma_str_items_first_err(a@, i as int);
                }
                return Err(DecodeError::FieldType);
            },
        }
        i = i + 1;
    }
    proof {
        assert(a@.subrange(0, a@.len() as int) =~= a@);
    }
    Ok(out)
}

/// An array-of-strings field of an object.
fn str_list_field(m: &Vec<(String, Json)>, key: &str) -> (r: Result<
    Option<Vec<String>>,
    DecodeError,
>)
    ensures
        r is Ok <==> spec_str_list_field(m@, key@) is Ok,
        r is Ok ==> r->Ok_0.deep_view() == spec_str_list_field(m@, key@)->Ok_0,
        r is Err ==> r->Err_0 == spec_str_list_field(m@, key@)->Err_0,
{
    match obj_get(m, key) {
        None => Ok(None),
        Some(j) => match j {
            Json::Arr(a) => match str_items(a) {
                Ok(xs) => Ok(Some(xs)),
                Err(e) => Err(e),
            },
            _ => Err(DecodeError::FieldType),
        },
    }
}

/// Walk one JSON value into a raw dependency record.
fn raw_dep_from_json(j: &Json) -> (r: Result<RawDependency, DecodeError>)
    ensures
        r is Ok <==> spec_raw_dep_of(*j) is Ok,
        r is Ok ==> (r->Ok_0)@ == spec_raw_dep_of(*j)->Ok_0,
        r is Err ==> r->Err_0 == spec_raw_dep_of(*j)->Err_0,
{
    let m = match j {
        Json::Obj(m) => m,
        _ => { return Err(DecodeError::FieldType); },
    };
    let name = match str_field(m, "name") {
        Ok(s) => s,
        Err(e) => { return Err(e); },
    };
    let req = match str_field(m, "req") {
        Ok(s) => s,
        Err(e) => { return Err(e); },
    };
    let features = match str_list_field(m, "features") {
        Ok(f) => f,
        Err(e) => { return Err(e); },
    };
    let optional = match bool_field(m, "optional") {
        Ok(b) => b,
        Err(e) => { return Err(e); },
    };
    let default_features = match bool_field(m, "default_features") {
        Ok(b) => b,
        Err(e) => { return Err(e); },
    };
    let target = match opt_str_field(m, "target") {
        Ok(s) => s,
        Err(e) => { return Err(e); },
    };
    let kind = match opt_str_field(m, "kind") {
        Ok(s) => s,
        Err(e) => { return Err(e); },
    };
    let package = match opt_str_field(m, "package") {
        Ok(s) => s,
        Err(e) => { return Err(e); },
    };
    let out = RawDependency { name, req, features, optional, default_features, target, kind,
        package };
    assert(out@ =~= spec_raw_dep_of(*j)->Ok_0);
    Ok(out)
}

/// In a dependency array, the earliest failing element decides.
proof fn lemma_raw_deps_first_err(a: Seq<Json>, i: int)
    requires
        0 <= i < a.len(),
        spec_raw_deps(a.subrange(0, i)) is Ok,
        spec_raw_dep_of(a[i]) is Err,
    ensures
        spec_raw_deps(a) == Err::<Seq<RawDependencyView>, DecodeError>(
            spec_raw_dep_of(a[i])->Err_0),
    decreases a.len(),
{
    if i == a.len() - 1 {
        assert(a.drop_last() =~= a.subrange(0, i));
    } else {
        assert(a.drop_last().subrange(0, i) =~= a.subrange(0, i));
        lemma_raw_deps_first_err(a.drop_last(), i);
    }
}

/// Walk a dependency array.
fn raw_deps_from_json(a: &Vec<Json>) -> (r: Result<Vec<RawDependency>, DecodeError>)
    ensures
        r is Ok <==> spec_raw_deps(a@) is Ok,
        r is Ok ==> raw_deps_view(r->Ok_0@) == spec_raw_deps(a@)->Ok_0,
        r is Err ==> r->Err_0 == spec_raw_deps(a@)->Err_0,
{
    #![verifier::loop_isolation(false)]
    let mut out: Vec<RawDependency> = Vec::new();
    let mut i: usize = 0;
    proof {
        assert(a@.subrange(0, 0) =~= Seq::<Json>::empty());
        assert(raw_deps_view(out@) =~= Seq::<RawDependencyView>::empty());
    }
    while i < a.len()
        invariant
            0 <= i <= a@.len(),
            spec_raw_deps(a@.subrange(0, i as int)) == Ok::<_, DecodeError>(raw_deps_view(out@)),
        decreases a@.len() - i,
    {
        match raw_dep_from_json(&a[i]) {
            Ok(d) => {
                let ghost pre = out@;
                let ghost dv = d@;
                out.push(d);
                proof {
                    assert(spec_raw_dep_of(a@[i as int]) == Ok::<_, DecodeError>(dv));
                    assert(a@.subrange(0, i + 1).drop_last() =~= a@.subrange(0, i as int));
                    assert(a@.subrange(0, i + 1).last() == a@[i as int]);
                    assert(raw_deps_view(out@) =~= raw_deps_view(pre).push(dv));
                }
            },
            Err(e) => {
                proof {
                    lemma_raw_deps_first_err(a@, i as int);
                }
                return Err(e);
            },
        }
        i = i + 1;
    }
    proof {
        assert(a@.subrange(0, a@.len() as int) =~= a@);
    }
    Ok(out)
}

/// In a feature map, the earliest failing member decides.
proof fn lemma_feature_items_first_err(m: Seq<(String, Json)>, i: int)
    requires
        0 <= i < m.len(),
        spec_feature_items(m.subrange(0, i)) is Ok,
        match m[i].1 {
            Json::Arr(a) => spec_str_items(a@) is Err,
            _ => true,
        },
    ensures
        spec_feature_items(m) == Err::<Seq<(Seq<char>, Seq<Seq<char>>)>, DecodeError>(
            match m[i].1 {
                Json::Arr(a) => spec_str_items(a@)->Err_0,
                _ => DecodeError::FieldType,
            }),
    decreases m.len(),
{
    if i == m.len() - 1 {
        assert(m.drop_last() =~= m.subrange(0, i));
    } else {
        assert(m.drop_last().subrange(0, i) =~= m.subrange(0, i));
        lemma_feature_items_first_err(m.drop_last(), i);
    }
}

/// Walk a feature map.
fn feature_items_from_json(m: &Vec<(String, Json)>) -> (r: Result<
    Vec<(String, Vec<String>)>,
    DecodeError,
>)
    ensures
        r is Ok <==> spec_feature_items(m@) is Ok,
        r is Ok ==> r->Ok_0.deep_view() == spec_feature_items(m@)->Ok_0,
        r is Err ==> r->Err_0 == spec_feature_items(m@)->Err_0,
{
    #![verifier::loop_isolation(false)]
    let mut out: Vec<(String, Vec<String>)> = Vec::new();
    let mut i: usize = 0;
    proof {
        assert(m@.subrange(0, 0) =~= Seq::<(String, Json)>::empty());
        assert(out.deep_view() =~= Seq::<(Seq<char>, Seq<Seq<char>>)>::empty());
    }
    while i < m.len()
        invariant
            0 <= i <= m@.len(),
            out@.len() == i,
            spec_feature_items(m@.subrange(0, i as int)) == Ok::<_, DecodeError>(out.deep_view()),
        decreases m@.len() - i,
    {
        match &m[i].1 {
            Json::Arr(a) => match str_items(a) {
                Ok(xs) => {
                    let key = m[i].0.clone();
                    let ghost pre = out.deep_view();
                    let ghost pair = (key, xs);
                    out.push((key, xs));
                    proof {
                        assert(out@[i as int] == pair);
                        assert(m@.subrange(0, i + 1).drop_last() =~= m@.subrange(0, i as int));
                        assert(m@.subrange(0, i + 1).last() == m@[i as int]);
                        assert(out.deep_view() =~= pre.push((m@[i as int].0@,
                            spec_str_items(m@[i as int].1->Arr_0@)->Ok_0)));
                    }
                },
                Err(e) => {
                    proof {
                        lemma_feature_items_first_err(m@, i as int);
                    }
                    return Err(e);
                },
            },
            _ => {
                proof {
                    lemma_feature_items_first_err(m@, i as int);
                }
                return Err(DecodeError::FieldType);
            },
        }
        i = i + 1;
    }
    proof {
        assert(m@.subrange(0, m@.len() as int) =~= m@);
    }
    Ok(out)
}

/// Walk one JSON value into a raw version record.
fn raw_from_json(j: &Json) -> (r: Result<RawVersion, DecodeError>)
    ensures
        r is Ok <==> spec_raw_of_json(*j) is Ok,
        r is Ok ==> (r->Ok_0)@ == spec_raw_of_json(*j)->Ok_0,
        r is Err ==> r->Err_0 == spec_raw_of_json(*j)->Err_0,
{
    let m = match j {
        Json::Obj(m) => m,
        _ => { return Err(DecodeError::FieldType); },
    };
    let name = match str_field(m, "name") {
        Ok(s) => s,
        Err(e) => { return Err(e); },
    };
    let vers = match str_field(m, "vers") {
        Ok(s) => s,
        Err(e) => { return Err(e); },
    };
    let deps = match obj_get(m, "deps") {
        None => None,
        Some(j2) => match j2 {
            Json::Arr(a) => match raw_deps_from_json(a) {
                Ok(ds) => Some(ds),
                Err(e) => { return Err(e); },
            },
            _ => { return Err(DecodeError::FieldType); },
        },
    };
    let cksum = match str_field(m, "cksum") {
        Ok(s) => s,
        Err(e) => { return Err(e); },
    };
    let features = match obj_get(m, "features") {
        None => None,
        Some(j3) => match j3 {
            Json::Obj(fm) => match feature_items_from_json(fm) {
                Ok(fs) => Some(fs),
                Err(e) => { return Err(e); },
            },
            _ => { return Err(DecodeError::FieldType); },
        },
    };
    let yanked = match bool_field(m, "yanked") {
        Ok(b) => b,
        Err(e) => { return Err(e); },
    };
    let out = RawVersion { name, vers, deps, cksum, features, yanked };
    assert(out@ =~= spec_raw_of_json(*j)->Ok_0);
    Ok(out)
}

/// Decode one line of bytes into a validated version record, exactly as
/// [`spec_decode_line`] fixes it: the named JSON parse, the walk to the
/// raw record, then validation. Any decoded record is well-formed.
pub fn decode_line(line: &[u8]) -> (r: Result<Version, DecodeError>)
    ensures
        r is Ok <==> spec_decode_line(line@) is Ok,
        r is Ok ==> (r->Ok_0)@ == spec_decode_line(line@)->Ok_0 && (r->Ok_0)@.wf(),
        r is Err ==> r->Err_0 == spec_decode_line(line@)->Err_0,
        line@.len() == 0 ==> r == Err::<Version, DecodeError>(DecodeError::Json),
{
    let value = match parse_json(line) {
        Some(v) => v,
        None => { return Err(DecodeError::Json); },
    };
    let raw = match raw_from_json(&value) {
        Ok(raw) => raw,
        Err(e) => { return Err(e); },
    };
    let version = match validate(&raw) {
        Ok(v) => v,
        Err(e) => { return Err(e); },
    };
    proof {
        let spec_v = spec_validate(raw@)->Ok_0;
        assert(spec_v.cksum.len() == 32);
        assert(version@.wf());
    }
    Ok(version)
}

} // verus!
