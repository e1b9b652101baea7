//! One package's full version history, parsed from one index file.
//!
//! The file is UTF-8 text, one JSON record per line, lines separated by
//! a newline byte, with optional trailing newlines that are stripped
//! before parsing. A history is never empty: a zero-line or
//! whitespace-only file is rejected as `EmptyHistory`, never parsed to
//! an empty sequence. Parsing is fixed exactly by [`spec_from_slice`]:
//! one record per line, in file order, the first failing line's error
//! surfacing. File order is chronological-by-publish and not
//! necessarily sorted by version number: the earliest record need not
//! carry the lowest number, nor the latest the highest.

use vstd::prelude::*;
use crate::codec::DecodeError;
use crate::json::decode_line;
use crate::json::spec_decode_line;
use crate::model::Version;
use crate::model::VersionView;

verus! {

/// Why a history failed to parse.
#[derive(Clone, Copy, Debug, PartialEq, Eq, Structural)]
pub enum Error {
    /// Some line failed to decode.
    Decode(DecodeError),
    /// The file holds no records at all.
    EmptyHistory,
}

/// The whitespace bytes: space, tab, newline, carriage return.
pub open spec fn is_ws(b: u8) -> bool {
    b == 32 || b == 9 || b == 10 || b == 13
}

/// Whether a byte span is whitespace only (an empty span is).
pub open spec fn all_ws(bytes: Seq<u8>) -> bool {
    forall|i: int| 0 <= i < bytes.len() ==> is_ws(#[trigger] bytes[i])
}

/// The span with its trailing newline bytes stripped.
pub open spec fn trim_trailing_newlines(bytes: Seq<u8>) -> Seq<u8>
    decreases bytes.len(),
{
    if bytes.len() > 0 && bytes.last() == 10 {
        trim_trailing_newlines(bytes.drop_last())
    } else {
        bytes
    }
}

/// The position of the first newline byte; the length when there is
/// none.
pub open spec fn first_nl(b: Seq<u8>) -> nat
    decreases b.len(),
{
    if b.len() == 0 {
        0nat
    } else if b[0] == 10 {
        0nat
    } else {
        1nat + first_nl(b.drop_first())
    }
}

/// The parse of a span already stripped of trailing newlines: the span
/// is split on newline bytes, every line is decoded in order, and the
/// first failing line's error surfaces; on success, one record per
/// line, in file order.
pub open spec fn spec_parse_history(b: Seq<u8>) -> Result<Seq<VersionView>, DecodeError>
    decreases b.len(),
{
    let idx = first_nl(b) as int;
    if idx >= b.len() {
        match spec_decode_line(b) {
            Err(e) => Err(e),
            Ok(v) => Ok(seq![v]),
        }
    } else {
        match spec_decode_line(b.subrange(0, idx)) {
            Err(e) => Err(e),
            Ok(v) => match spec_parse_history(b.subrange(idx + 1, b.len() as int)) {
                Err(e) => Err(e),
                Ok(rest) => Ok(seq![v] + rest),
            },
        }
    }
}

/// What parsing a file's full byte content yields: `EmptyHistory` on a
/// whitespace-only (or empty) span; otherwise the parse of the span
/// with its trailing newlines stripped, a failing line's decode error
/// wrapped as [`Error::Decode`].
pub open spec fn spec_from_slice(bytes: Seq<u8>) -> Result<Seq<VersionView>, Error> {
    if all_ws(bytes) {
        Err(Error::EmptyHistory)
    } else {
        match spec_parse_history(trim_trailing_newlines(bytes)) {
            Ok(vs) => Ok(vs),
            Err(e) => Err(Error::Decode(e)),
        }
    }
}

/// A sequence of records already parsed, in front of the rest of a
/// parse.
spec fn spec_prepend(pre: Seq<VersionView>, r: Result<Seq<VersionView>, DecodeError>) -> Result<
    Seq<VersionView>,
    DecodeError,
> {
    match r {
        Ok(rest) => Ok(pre + rest),
        Err(e) => Err(e),
    }
}

/// `first_nl` finds exactly the position of the first newline.
proof fn lemma_first_nl_is(b: Seq<u8>, m: int)
    requires
        0 <= m <= b.len(),
        forall|k: int| 0 <= k < m ==> b[k] != 10,
        m < b.len() ==> b[m] == 10,
    ensures
        first_nl(b) == m,
    decreases m,
{
    if m == 0 {
    } else {
        assert(b[0] != 10);
        let t = b.drop_first();
        assert forall|k: int| 0 <= k < m - 1 implies t[k] != 10 by {
            assert(t[k] == b[k + 1]);
        }
        if m - 1 < t.len() {
            assert(t[m - 1] == b[m]);
        }
        lemma_first_nl_is(t, m - 1);
    }
}

/// A successful parse holds at least one record.
proof fn lemma_parse_history_nonempty(b: Seq<u8>)
    ensures
        spec_parse_history(b) is Ok ==> spec_parse_history(b)->Ok_0.len() >= 1,
    decreases b.len(),
{
    let idx = first_nl(b) as int;
    if idx < b.len() {
        lemma_parse_history_nonempty(b.subrange(idx + 1, b.len() as int));
    }
}

/// The views of a sequence of versions, elementwise.
pub open spec fn versions_view(s: Seq<Version>) -> Seq<VersionView> {
    Seq::new(s.len(), |i: int| s[i]@)
}

/// One package's version history: a non-empty sequence of well-formed
/// records in file order.
#[derive(Clone, Debug, PartialEq)]
pub struct Crate {
    pub versions: Vec<Version>,
}

impl View for Crate {
    type V = Seq<VersionView>;

    open spec fn view(&self) -> Seq<VersionView> {
        versions_view(self.versions@)
    }
}

impl Crate {
    /// A history is well-formed when it holds at least one record and
    /// every record is well-formed.
    pub open spec fn wf(&self) -> bool {
        &&& self@.len() > 0
        &&& forall|i: int| 0 <= i < self@.len() ==> (#[trigger] self@[i]).wf()
    }

    /// Parse one index file's full byte content, exactly as
    /// [`spec_from_slice`] fixes it: trailing newlines stripped, one
    /// decoded record per line in file order, a whitespace-only file
    /// rejected as `EmptyHistory`, and the first failing line's decode
    /// error surfacing.
    #[verifier::rlimit(100)]
    #[verifier::spinoff_prover]
    pub fn from_slice(bytes: &[u8]) -> (r: Result<Crate, Error>)
        requires
            bytes@.len() < usize::MAX,
        ensures
            r is Ok <==> spec_from_slice(bytes@) is Ok,
            r is Ok ==> (r->Ok_0)@ == spec_from_slice(bytes@)->Ok_0 && (r->Ok_0).wf(),
            r is Err ==> r->Err_0 == spec_from_slice(bytes@)->Err_0,
            r == Err::<Crate, Error>(Error::EmptyHistory) <==> all_ws(bytes@),
    {
        #![verifier::loop_isolation(false)]
        let n = bytes.len();
        proof {
            assert(bytes@.subrange(0, n as int) =~= bytes@);
        }
        let mut end: usize = n;
        while end > 0 && bytes[end - 1] == 10
            invariant
                0 <= end <= n,
                n == bytes@.len(),
                trim_trailing_newlines(bytes@) == trim_trailing_newlines(
                    bytes@.subrange(0, end as int)),
                forall|k: int| end <= k < n ==> bytes@[k] == 10,
            decreases end,
        {
            proof {
                assert(bytes@.subrange(0, end as int).drop_last() =~= bytes@.subrange(
                    0, end - 1));
            }
            end = end - 1;
        }
        let ghost trimmed = bytes@.subrange(0, end as int);
        proof {
            assert(trim_trailing_newlines(trimmed) == trimmed);
            assert(trim_trailing_newlines(bytes@) == trimmed);
        }
        let mut probe: usize = 0;
        let mut only_ws = true;
        while probe < end
            invariant
                0 <= probe <= end <= n,
                n == bytes@.len(),
                only_ws <==> (forall|k: int| 0 <= k < probe ==> is_ws(#[trigger] bytes@[k])),
            decreases end - probe,
        {
            let b = bytes[probe];
            if !(b == 32 || b == 9 || b == 10 || b == 13) {
                only_ws = false;
                proof {
                    assert(!is_ws(bytes@[probe as int]));
                }
            }
            probe = probe + 1;
        }
        if only_ws {
            proof {
                assert forall|k: int| 0 <= k < n implies is_ws(#[trigger] bytes@[k]) by {
                    if k >= end {
                        assert(bytes@[k] == 10);
                    }
                }
            }
            return Err(Error::EmptyHistory);
        }
        assert(!all_ws(bytes@)) by {
            let k = choose|k: int| 0 <= k < end && !is_ws(#[trigger] bytes@[k]);
            assert(!is_ws(bytes@[k]));
        }
        let mut versions: Vec<Version> = Vec::new();
        let mut start: usize = 0;
        let mut i: usize = 0;
        proof {
            assert(trimmed.skip(0) =~= trimmed);
            assert(versions_view(versions@) =~= Seq::<VersionView>::empty());
            let p0 = spec_parse_history(trimmed);
            if p0 is Ok {
                assert(Seq::<VersionView>::empty() + p0->Ok_0 =~= p0->Ok_0);
            }
        }
        while i <= end
            invariant
                0 <= start <= i <= end + 1,
                forall|k: int| start <= k < i && k < end ==> trimmed[k] != 10,
                forall|k: int| 0 <= k < versions@.len() ==> (#[trigger] versions@[k])@.wf(),
                i <= end ==> spec_parse_history(trimmed) == spec_prepend(
                    versions_view(versions@),
                    spec_parse_history(trimmed.skip(start as int)),
                ),
                i > end ==> spec_parse_history(trimmed) == Ok::<Seq<VersionView>, DecodeError>(
                    versions_view(versions@)),
            decreases end + 1 - i,
        {
            if i == end || bytes[i] == 10 {
                let mut line: Vec<u8> = Vec::new();
                let mut k: usize = start;
                proof {
                    assert(line@ =~= bytes@.subrange(start as int, start as int));
                }
                while k < i
                    invariant
                        start <= k <= i,
                        i <= end,
                        line@ == bytes@.subrange(start as int, k as int),
                    decreases i - k,
                {
                    proof {
                        assert(bytes@.subrange(start as int, k + 1).drop_last()
                            =~= bytes@.subrange(start as int, k as int));
                        assert(bytes@.subrange(start as int, k + 1).last()
                            == bytes@[k as int]);
                    }
                    line.push(bytes[k]);
                    k = k + 1;
                }
                let ghost rem = trimmed.skip(start as int);
                proof {
                    assert(line@ =~= trimmed.subrange(start as int, i as int));
                    let m = i - start;
                    assert forall|j: int| 0 <= j < m implies rem[j] != 10 by {
                        assert(rem[j] == trimmed[start + j]);
                    }
                    if m < rem.len() {
                        assert(rem[m] == trimmed[i as int]);
                    }
                    lemma_first_nl_is(rem, m);
                    if i < end {
                        assert(rem.subrange(0, m) =~= trimmed.subrange(start as int, i as int));
                        assert(rem.subrange(m + 1, rem.len() as int) =~= trimmed.skip(i + 1));
                    } else {
                        assert(rem =~= trimmed.subrange(start as int, i as int));
                    }
                }
                match decode_line(line.as_slice()) {
                    Ok(v) => {
                        let ghost vs = versions_view(versions@);
                        let ghost vv = v@;
                        versions.push(v);
                        start = i + 1;
                        proof {
                            assert(spec_decode_line(line@) == Ok::<VersionView, DecodeError>(vv));
                            assert(versions_view(versions@) =~= vs + seq![vv]);
                            if i < end {
                                let rest = spec_parse_history(trimmed.skip(i + 1));
                                if rest is Ok {
                                    assert(vs + (seq![vv] + rest->Ok_0) =~= (vs + seq![vv])
                                        + rest->Ok_0);
                                }
                                assert(spec_parse_history(trimmed) == spec_prepend(
                                    versions_view(versions@),
                                    spec_parse_history(trimmed.skip(start as int)),
                                ));
                            } else {
                                assert(spec_parse_history(rem) == Ok::<
                                    Seq<VersionView>,
                                    DecodeError,
                                >(seq![vv]));
                                assert(vs + seq![vv] =~= versions_view(versions@));
                                assert(spec_parse_history(trimmed) == Ok::<
                                    Seq<VersionView>,
                                    DecodeError,
                                >(versions_view(versions@)));
                            }
                        }
                    },
                    Err(e) => {
                        proof {
                            assert(spec_parse_history(rem) == Err::<Seq<VersionView>, DecodeError>(
                                e));
                            assert(spec_parse_history(trimmed) == Err::<
                                Seq<VersionView>,
                                DecodeError,
                            >(e));
                        }
                        return Err(Error::Decode(e));
                    },
                }
            }
            i = i + 1;
        }
        proof {
            lemma_parse_history_nonempty(trimmed);
        }
        let out = Crate { versions };
        proof {
            assert(out@ == spec_from_slice(bytes@)->Ok_0);
            assert forall|k: int| 0 <= k < out@.len() implies (#[trigger] out@[k]).wf() by {
                assert(out@[k] == versions@[k]@);
            }
            assert(out.wf());
        }
        Ok(out)
    }

    /// The records, in file order: chronological by publish date.
    pub fn versions(&self) -> (r: &Vec<Version>)
        ensures
            r@.len() == self@.len(),
            forall|i: int| 0 <= i < r@.len() ==> (#[trigger] r@[i])@ == self@[i],
    {
        &self.versions
    }

    /// The oldest record. This is the first published version, which
    /// need not carry the lowest version number.
    pub fn earliest_version(&self) -> (r: &Version)
        requires
            self.wf(),
        ensures
            r@ == self@.first(),
    {
        &self.versions[0]
    }

    /// The most recently published record, which need not carry the
    /// highest version number.
    pub fn latest_version(&self) -> (r: &Version)
        requires
            self.wf(),
        ensures
            r@ == self@.last(),
    {
        &self.versions[self.versions.len() - 1]
    }

    /// The package's name, as the most recent record spells it.
    pub fn name(&self) -> (r: &str)
        requires
            self.wf(),
        ensures
            r@ == self@.last().name,
    {
        self.latest_version().name()
    }
}

} // verus!
