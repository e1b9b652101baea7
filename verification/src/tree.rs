//! Enumerating the index tree.
//!
//! The tree is walked with two wildcard passes whose results are
//! concatenated in a fixed order: first `<root>/*/*/*`, the
//! three-segment shape that covers the two-level buckets (both the
//! `3/<first char>/<name>` and the `<chars 1-2>/<chars 3-4>/<name>`
//! form), then `<root>/[12]/*`, the flat shape of one- and
//! two-character names. The wildcard matching itself is outside this
//! library; the patterns, the pass order, the skip-or-surface policy
//! for unparsable entries, and the proof that every resolved path falls
//! under one of the two passes are here.

use vstd::prelude::*;
use vstd::utf8::is_ascii_chars;
use crate::crate_file::Crate;
use crate::crate_file::Error;
use crate::shard::lower_chars;
use crate::shard::spec_lower_char;
use crate::shard::spec_resolve;

verus! {

/// The pattern of the first pass: the three-segment bucket shapes.
pub fn deep_pattern(root: &str) -> (r: String)
    ensures
        r@ == root@ + "/*/*/*"@,
{
    let mut s = String::from_str(root);
    s.append("/*/*/*");
    s
}

/// The pattern of the second pass: the flat one- and two-character
/// buckets.
pub fn flat_pattern(root: &str) -> (r: String)
    ensures
        r@ == root@ + "/[12]/*"@,
{
    let mut s = String::from_str(root);
    s.append("/[12]/*");
    s
}

/// Concatenate the two passes in their fixed order: every deep-bucket
/// entry before every flat-bucket entry; within a pass the listing
/// order is kept.
pub fn chain_passes(deep: Vec<String>, flat: Vec<String>) -> (r: Vec<String>)
    ensures
        r.deep_view() == deep.deep_view() + flat.deep_view(),
{
    let ghost d = deep.deep_view();
    let ghost f = flat.deep_view();
    let mut out = deep;
    let mut rest = flat;
    out.append(&mut rest);
    proof {
        assert forall|k: int| 0 <= k < out.deep_view().len() implies #[trigger] out.deep_view()[k]
            == (d + f)[k] by {
            assert(out@[k]@ == out.deep_view()[k]);
        }
        assert(out.deep_view() =~= d + f);
    }
    out
}

/// How a bulk enumeration treats an entry that fails to parse.
#[derive(Clone, Copy, Debug, PartialEq, Eq, Structural)]
pub enum ParsePolicy {
    /// Surface the failure: the caller asked for this one entry and
    /// wants to know why it failed.
    Strict,
    /// Skip the entry and go on: a scan of the whole tree stays robust
    /// against a few corrupt entries.
    SkipInvalid,
}

/// Apply the parse policy to one enumerated entry: a parsed entry is
/// kept either way; a failure surfaces under `Strict` and becomes a
/// silent skip (`None`) under `SkipInvalid`.
pub fn admit_entry(policy: ParsePolicy, parsed: Result<Crate, Error>) -> (r: Result<
    Option<Crate>,
    Error,
>)
    ensures
        parsed is Ok ==> r == Ok::<Option<Crate>, Error>(Some(parsed->Ok_0)),
        policy == ParsePolicy::Strict && parsed is Err ==> r == Err::<Option<Crate>, Error>(
            parsed->Err_0),
        policy == ParsePolicy::SkipInvalid && parsed is Err ==> r == Ok::<Option<Crate>, Error>(
            None),
{
    match parsed {
        Ok(c) => Ok(Some(c)),
        Err(e) => match policy {
            ParsePolicy::Strict => Err(e),
            ParsePolicy::SkipInvalid => Ok(None),
        },
    }
}

/// One path segment as a literal-leading-dot wildcard sees it:
/// non-empty, no separator, and not starting with a dot (a `*` does not
/// match a hidden entry).
pub open spec fn seg_ok(s: Seq<char>) -> bool {
    &&& s.len() > 0
    &&& forall|i: int| 0 <= i < s.len() ==> #[trigger] s[i] != '/'
    &&& s[0] != '.'
}

/// Whether a relative path is matched by the three-segment pass
/// `*/*/*`.
pub open spec fn deep_shape(p: Seq<char>) -> bool {
    exists|a: Seq<char>, b: Seq<char>, c: Seq<char>|
        #![trigger seg_ok(a), seg_ok(b), seg_ok(c)]
        seg_ok(a) && seg_ok(b) && seg_ok(c) && p =~= a + seq!['/'] + b + seq!['/'] + c
}

/// Whether a relative path is matched by the flat pass `[12]/*`.
pub open spec fn flat_shape(p: Seq<char>) -> bool {
    exists|b: Seq<char>|
        seg_ok(b) && (p =~= seq!['1', '/'] + b || p =~= seq!['2', '/'] + b)
}

/// A name is plain when it is non-empty ASCII and none of its
/// characters is a separator or a dot: the identifiers the index
/// shards.
pub open spec fn plain_name(name: Seq<char>) -> bool {
    &&& name.len() > 0
    &&& is_ascii_chars(name)
    &&& forall|i: int| 0 <= i < name.len() ==> #[trigger] name[i] != '/' && name[i] != '.'
}

/// Lowercasing maps no character onto a separator or a dot that was
/// not one already.
proof fn lemma_lower_keeps_plain(name: Seq<char>)
    requires
        plain_name(name),
    ensures
        forall|i: int|
            0 <= i < name.len() ==> #[trigger] lower_chars(name)[i] != '/' && lower_chars(
                name)[i] != '.',
        lower_chars(name).len() == name.len(),
{
    assert forall|i: int| 0 <= i < name.len() implies #[trigger] lower_chars(name)[i] != '/'
        && lower_chars(name)[i] != '.' by {
        assert(lower_chars(name)[i] == spec_lower_char(name[i]));
        assert(name[i] != '/' && name[i] != '.');
    }
}

/// Every plain name's resolved path is covered by one of the two
/// enumeration passes: the flat pass for one- and two-character names,
/// the deep pass for everything longer — in particular the
/// three-character shape `3/<first char>/<name>` is a three-segment
/// path and falls under `*/*/*`.
pub proof fn lemma_resolve_pass_coverage(name: Seq<char>)
    requires
        plain_name(name),
    ensures
        spec_resolve(name) is Some,
        name.len() <= 2 ==> flat_shape(spec_resolve(name)->0),
        name.len() >= 3 ==> deep_shape(spec_resolve(name)->0),
{
    lemma_lower_keeps_plain(name);
    let low = lower_chars(name);
    let p = spec_resolve(name)->0;
    if name.len() == 1 {
        assert(seg_ok(low));
        assert(p =~= seq!['1', '/'] + low);
        assert(flat_shape(p));
    } else if name.len() == 2 {
        assert(seg_ok(low));
        assert(p =~= seq!['2', '/'] + low);
        assert(flat_shape(p));
    } else if name.len() == 3 {
        let a = seq!['3'];
        let b = seq![low[0]];
        let c = low;
        assert(seg_ok(a));
        assert(seg_ok(b));
        assert(seg_ok(c));
        assert(p =~= a + seq!['/'] + b + seq!['/'] + c);
        assert(deep_shape(p));
    } else {
        let a = low.subrange(0, 2);
        let b = low.subrange(2, 4);
        let c = low;
        assert(seg_ok(a));
        assert(seg_ok(b));
        assert(seg_ok(c));
        assert(p =~= a + seq!['/'] + b + seq!['/'] + c);
        assert(deep_shape(p));
    }
}

} // verus!
