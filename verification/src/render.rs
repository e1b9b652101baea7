//! Rendering a validated record back to its wire line.
//!
//! One version record becomes one JSON object on a single line, fields
//! in wire order. A dependency's kind is omitted exactly when it is
//! `Normal` and its rename source exactly when there is none; an absent
//! target is written as null, as the index does. The whole line is
//! defined by the spec functions here and the renderer is proved to
//! produce exactly that sequence.

use vstd::prelude::*;
use crate::hex::hex_encode;
use crate::hex::hex_encoded;
use crate::hex::spec_hex_char;
use crate::hex::hex_char;
use crate::model::Dependency;
use crate::model::DependencyKind;
use crate::model::DependencyView;
use crate::model::Version;
use crate::model::VersionView;
use crate::codec::spec_kind_str;

verus! {

/// The escape of one character inside a JSON string: quote and
/// backslash get a backslash, control characters a `\u00XX` escape,
/// everything else stands as itself.
pub open spec fn json_escape_char(c: char) -> Seq<char> {
    if c == '"' {
        seq!['\\', '"']
    } else if c == '\\' {
        seq!['\\', '\\']
    } else if (c as u32) < 32 {
        seq!['\\', 'u', '0', '0', spec_hex_char(((c as u32) as int) / 16),
            spec_hex_char(((c as u32) as int) % 16)]
    } else {
        seq![c]
    }
}

/// The escaped form of a whole string.
pub open spec fn json_escape(s: Seq<char>) -> Seq<char>
    decreases s.len(),
{
    if s.len() == 0 {
        Seq::empty()
    } else {
        json_escape(s.drop_last()) + json_escape_char(s.last())
    }
}

/// A string as a JSON string literal: escaped, in double quotes.
pub open spec fn quoted(s: Seq<char>) -> Seq<char> {
    seq!['"'] + json_escape(s) + seq!['"']
}

/// Comma-joined pieces, no trailing comma.
pub open spec fn comma_joined(items: Seq<Seq<char>>) -> Seq<char>
    decreases items.len(),
{
    if items.len() == 0 {
        Seq::empty()
    } else if items.len() == 1 {
        items[0]
    } else {
        comma_joined(items.drop_last()) + seq![','] + items.last()
    }
}

/// A JSON array of string literals.
pub open spec fn render_str_list(xs: Seq<Seq<char>>) -> Seq<char> {
    seq!['['] + comma_joined(xs.map_values(|s: Seq<char>| quoted(s))) + seq![']']
}

/// A JSON boolean.
pub open spec fn render_bool(b: bool) -> Seq<char> {
    if b {
        "true"@
    } else {
        "false"@
    }
}

/// The opening fields of a dependency object: name, requirement,
/// feature list.
pub open spec fn render_dep_start(d: DependencyView) -> Seq<char> {
    "{\"name\":"@ + quoted(d.name) + ",\"req\":"@ + quoted(d.req) + ",\"features\":"@
        + render_str_list(d.features)
}

/// The flag fields of a dependency object: the two booleans and the
/// target, null when there is none.
pub open spec fn render_dep_flags(d: DependencyView) -> Seq<char> {
    ",\"optional\":"@ + render_bool(d.optional) + ",\"default_features\":"@ + render_bool(
        d.default_features) + ",\"target\":"@ + (match d.target {
        Some(t) => quoted(t),
        None => "null"@,
    })
}

/// The kind field, omitted exactly when the kind is `Normal`.
pub open spec fn render_dep_kind(d: DependencyView) -> Seq<char> {
    if d.kind == DependencyKind::Normal {
        Seq::<char>::empty()
    } else {
        ",\"kind\":"@ + quoted(spec_kind_str(d.kind))
    }
}

/// The package field, omitted exactly when there is no rename source.
pub open spec fn render_dep_package(d: DependencyView) -> Seq<char> {
    match d.package {
        Some(p) => ",\"package\":"@ + quoted(p),
        None => Seq::<char>::empty(),
    }
}

/// One dependency edge as a JSON object, fields in wire order; the
/// kind appears only when it is not `Normal`, the rename source only
/// when there is one.
pub open spec fn render_dep(d: DependencyView) -> Seq<char> {
    render_dep_start(d) + render_dep_flags(d) + render_dep_kind(d) + render_dep_package(d)
        + seq!['}']
}

/// The feature map as a JSON object.
pub open spec fn render_features(fs: Seq<(Seq<char>, Seq<Seq<char>>)>) -> Seq<char> {
    seq!['{'] + comma_joined(
        fs.map_values(|p: (Seq<char>, Seq<Seq<char>>)| quoted(p.0) + seq![':'] + render_str_list(
            p.1))) + seq!['}']
}

/// One version record as its wire line.
pub open spec fn render_version(v: VersionView) -> Seq<char> {
    "{\"name\":"@ + quoted(v.name) + ",\"vers\":"@ + quoted(v.vers) + ",\"deps\":"@ + (seq!['[']
        + comma_joined(v.deps.map_values(|d: DependencyView| render_dep(d))) + seq![']'])
        + ",\"cksum\":"@ + quoted(hex_encoded(v.cksum)) + ",\"features\":"@ + render_features(
        v.features) + ",\"yanked\":"@ + render_bool(v.yanked) + seq!['}']
}

/// Append the escaped form of `s`.
fn push_escaped(out: &mut String, s: &str)
    ensures
        final(out)@ == old(out)@ + json_escape(s@),
{
    #![verifier::loop_isolation(false)]
    let n = s.unicode_len();
    let mut i: usize = 0;
    while i < n
        invariant
            out@ == old(out)@ + json_escape(s@.subrange(0, i as int)),
            0 <= i <= n,
        decreases n - i,
    {
        let ghost pre = s@.subrange(0, i as int);
        let c = s.get_char(i);
        if c == '"' {
            out.push('\\');
            out.push('"');
        } else if c == '\\' {
            out.push('\\');
            out.push('\\');
        } else if (c as u32) < 32 {
            let code = c as u32;
            out.push('\\');
            out.push('u');
            out.push('0');
            out.push('0');
            out.push(hex_char((code / 16) as u8));
            out.push(hex_char((code % 16) as u8));
        } else {
            out.push(c);
        }
        proof {
            let cur = s@.subrange(0, i + 1);
            assert(cur.drop_last() =~= pre);
            assert(cur.last() == s@[i as int]);
            assert(out@ =~= old(out)@ + json_escape(cur));
        }
        i = i + 1;
    }
    assert(s@.subrange(0, n as int) =~= s@);
}

/// Append `s` as a JSON string literal.
fn push_quoted(out: &mut String, s: &str)
    ensures
        final(out)@ == old(out)@ + quoted(s@),
{
    out.push('"');
    push_escaped(out, s);
    out.push('"');
    assert(out@ =~= old(out)@ + quoted(s@));
}

/// Append a JSON array of string literals.
fn push_str_list(out: &mut String, xs: &Vec<String>)
    ensures
        final(out)@ == old(out)@ + render_str_list(xs.deep_view()),
{
    #![verifier::loop_isolation(false)]
    let ghost qs = xs.deep_view().map_values(|s: Seq<char>| quoted(s));
    out.push('[');
    let mut i: usize = 0;
    while i < xs.len()
        invariant
            qs == xs.deep_view().map_values(|s: Seq<char>| quoted(s)),
            0 <= i <= xs@.len(),
            out@ == old(out)@ + seq!['['] + comma_joined(qs.subrange(0, i as int)),
        decreases xs@.len() - i,
    {
        if i > 0 {
            out.push(',');
        }
        push_quoted(out, xs[i].as_str());
        proof {
            let cur = qs.subrange(0, i + 1);
            assert(qs[i as int] == quoted(xs.deep_view()[i as int]));
            assert(xs.deep_view()[i as int] == xs@[i as int]@);
            if i == 0 {
                assert(cur =~= seq![qs[0]]);
                assert(comma_joined(cur) == qs[0]);
                assert(out@ =~= old(out)@ + seq!['['] + comma_joined(cur));
            } else {
                assert(cur.drop_last() =~= qs.subrange(0, i as int));
                assert(cur.last() == qs[i as int]);
                assert(out@ =~= old(out)@ + seq!['['] + comma_joined(cur));
            }
        }
        i = i + 1;
    }
    out.push(']');
    proof {
        assert(qs.subrange(0, xs@.len() as int) =~= qs);
        assert(out@ =~= old(out)@ + render_str_list(xs.deep_view()));
    }
}

/// Append a JSON boolean.
fn push_bool(out: &mut String, b: bool)
    ensures
        final(out)@ == old(out)@ + render_bool(b),
{
    if b {
        out.append("true");
    } else {
        out.append("false");
    }
}

/// Append one dependency edge as a JSON object.
#[verifier::rlimit(100)]
#[verifier::spinoff_prover]
fn push_dep(out: &mut String, d: &Dependency)
    ensures
        final(out)@ == old(out)@ + render_dep(d@),
{
    out.append("{\"name\":");
    push_quoted(out, d.name.as_str());
    out.append(",\"req\":");
    push_quoted(out, d.req.as_str());
    out.append(",\"features\":");
    push_str_list(out, &d.features);
    proof {
        assert(out@ =~= old(out)@ + render_dep_start(d@));
    }
    let ghost after_start = out@;
    out.append(",\"optional\":");
    push_bool(out, d.optional);
    out.append(",\"default_features\":");
    push_bool(out, d.default_features);
    out.append(",\"target\":");
    match &d.target {
        Some(t) => push_quoted(out, t.as_str()),
        None => out.append("null"),
    }
    proof {
        assert(out@ =~= after_start + render_dep_flags(d@));
    }
    let ghost after_flags = out@;
    match d.kind {
        DependencyKind::Normal => {},
        DependencyKind::Dev => {
            out.append(",\"kind\":");
            push_quoted(out, "dev");
        },
        DependencyKind::Build => {
            out.append(",\"kind\":");
            push_quoted(out, "build");
        },
    }
    proof {
        assert(out@ =~= after_flags + render_dep_kind(d@));
    }
    let ghost after_kind = out@;
    match &d.package {
        Some(p) => {
            out.append(",\"package\":");
            push_quoted(out, p.as_str());
        },
        None => {},
    }
    out.push('}');
    proof {
        assert(out@ =~= after_kind + render_dep_package(d@) + seq!['}']);
        assert(out@ =~= old(out)@ + render_dep(d@));
    }
}

/// Append the feature map as a JSON object.
fn push_features(out: &mut String, fs: &Vec<(String, Vec<String>)>)
    ensures
        final(out)@ == old(out)@ + render_features(fs.deep_view()),
{
    #![verifier::loop_isolation(false)]
    let ghost qs = fs.deep_view().map_values(
        |p: (Seq<char>, Seq<Seq<char>>)| quoted(p.0) + seq![':'] + render_str_list(p.1));
    out.push('{');
    let mut i: usize = 0;
    while i < fs.len()
        invariant
            qs == fs.deep_view().map_values(
                |p: (Seq<char>, Seq<Seq<char>>)| quoted(p.0) + seq![':'] + render_str_list(p.1)),
            0 <= i <= fs@.len(),
            out@ == old(out)@ + seq!['{'] + comma_joined(qs.subrange(0, i as int)),
        decreases fs@.len() - i,
    {
        if i > 0 {
            out.push(',');
        }
        push_quoted(out, fs[i].0.as_str());
        out.push(':');
        push_str_list(out, &fs[i].1);
        proof {
            let cur = qs.subrange(0, i + 1);
            assert(fs.deep_view()[i as int] == (fs@[i as int].0@, fs@[i as int].1.deep_view()));
            assert(qs[i as int] == quoted(fs@[i as int].0@) + seq![':'] + render_str_list(
                fs@[i as int].1.deep_view()));
            if i == 0 {
                assert(cur =~= seq![qs[0]]);
                assert(comma_joined(cur) == qs[0]);
                assert(out@ =~= old(out)@ + seq!['{'] + comma_joined(cur));
            } else {
                assert(cur.drop_last() =~= qs.subrange(0, i as int));
                assert(cur.last() == qs[i as int]);
                assert(out@ =~= old(out)@ + seq!['{'] + comma_joined(cur));
            }
        }
        i = i + 1;
    }
    out.push('}');
    proof {
        assert(qs.subrange(0, fs@.len() as int) =~= qs);
        assert(out@ =~= old(out)@ + render_features(fs.deep_view()));
    }
}

/// Render one version record as its wire line.
#[verifier::rlimit(100)]
#[verifier::spinoff_prover]
pub fn encode(v: &Version) -> (r: String)
    ensures
        r@ == render_version(v@),
{
    #![verifier::loop_isolation(false)]
    let ghost ds = v@.deps.map_values(|d: DependencyView| render_dep(d));
    let mut out = String::new();
    out.append("{\"name\":");
    push_quoted(&mut out, v.name.as_str());
    out.append(",\"vers\":");
    push_quoted(&mut out, v.vers.as_str());
    out.append(",\"deps\":");
    out.push('[');
    let ghost mid = out@;
    let mut i: usize = 0;
    while i < v.deps.len()
        invariant
            ds == v@.deps.map_values(|d: DependencyView| render_dep(d)),
            v@.deps.len() == v.deps@.len(),
            0 <= i <= v.deps@.len(),
            out@ == mid + comma_joined(ds.subrange(0, i as int)),
        decreases v.deps@.len() - i,
    {
        if i > 0 {
            out.push(',');
        }
        push_dep(&mut out, &v.deps[i]);
        proof {
            let cur = ds.subrange(0, i + 1);
            assert(v@.deps[i as int] == v.deps@[i as int]@);
            assert(ds[i as int] == render_dep(v.deps@[i as int]@));
            if i == 0 {
                assert(cur =~= seq![ds[0]]);
                assert(comma_joined(cur) == ds[0]);
                assert(out@ =~= mid + comma_joined(cur));
            } else {
                assert(cur.drop_last() =~= ds.subrange(0, i as int));
                assert(cur.last() == ds[i as int]);
                assert(out@ =~= mid + comma_joined(cur));
            }
        }
        i = i + 1;
    }
    out.push(']');
    proof {
        assert(ds.subrange(0, v.deps@.len() as int) =~= ds);
    }
    out.append(",\"cksum\":");
    let hx = hex_encode(&v.cksum);
    push_quoted(&mut out, hx.as_str());
    out.append(",\"features\":");
    push_features(&mut out, &v.features);
    out.append(",\"yanked\":");
    push_bool(&mut out, v.yanked);
    out.push('}');
    assert(out@ =~= render_version(v@));
    out
}

} // verus!
