//! The path-sharding rule: package name to relative path in the index
//! tree.
//!
//! The tree bounds directory fan-out by bucketing files on the length
//! and leading characters of the lowercased name: `1/<name>` and
//! `2/<name>` for one- and two-character names, `3/<first char>/<name>`
//! for three-character names, and `<chars 1-2>/<chars 3-4>/<name>` for
//! anything longer. Only non-empty, ASCII-only names resolve; anything
//! else is a normal "not found".

use vstd::prelude::*;
use vstd::utf8::is_ascii_chars;

verus! {

/// ASCII lowercasing of one character: 'A'..'Z' map to 'a'..'z', all
/// other characters stay as they are.
pub open spec fn spec_lower_char(c: char) -> char {
    if 'A' <= c <= 'Z' {
        match c {
            'A' => 'a', 'B' => 'b', 'C' => 'c', 'D' => 'd', 'E' => 'e',
            'F' => 'f', 'G' => 'g', 'H' => 'h', 'I' => 'i', 'J' => 'j',
            'K' => 'k', 'L' => 'l', 'M' => 'm', 'N' => 'n', 'O' => 'o',
            'P' => 'p', 'Q' => 'q', 'R' => 'r', 'S' => 's', 'T' => 't',
            'U' => 'u', 'V' => 'v', 'W' => 'w', 'X' => 'x', 'Y' => 'y',
            'Z' => 'z',
            _ => c,
        }
    } else {
        c
    }
}

/// ASCII lowercasing of a character sequence.
pub open spec fn lower_chars(s: Seq<char>) -> Seq<char> {
    s.map_values(|c: char| spec_lower_char(c))
}

/// ASCII lowercasing of one character.
pub fn lower_char(c: char) -> (r: char)
    ensures
        r == spec_lower_char(c),
{
    if 'A' <= c && c <= 'Z' {
        match c {
            'A' => 'a', 'B' => 'b', 'C' => 'c', 'D' => 'd', 'E' => 'e',
            'F' => 'f', 'G' => 'g', 'H' => 'h', 'I' => 'i', 'J' => 'j',
            'K' => 'k', 'L' => 'l', 'M' => 'm', 'N' => 'n', 'O' => 'o',
            'P' => 'p', 'Q' => 'q', 'R' => 'r', 'S' => 's', 'T' => 't',
            'U' => 'u', 'V' => 'v', 'W' => 'w', 'X' => 'x', 'Y' => 'y',
            'Z' => 'z',
            _ => c,
        }
    } else {
        c
    }
}

/// The relative path of a package's index file: `None` for an empty or
/// non-ASCII name, otherwise the bucketed path over the lowercased
/// name.
pub open spec fn spec_resolve(name: Seq<char>) -> Option<Seq<char>> {
    if name.len() == 0 || !is_ascii_chars(name) {
        None
    } else {
        let low = lower_chars(name);
        if name.len() == 1 {
            Some(seq!['1', '/'] + low)
        } else if name.len() == 2 {
            Some(seq!['2', '/'] + low)
        } else if name.len() == 3 {
            Some(seq!['3', '/', low[0], '/'] + low)
        } else {
            Some(low.subrange(0, 2) + seq!['/'] + low.subrange(2, 4) + seq!['/'] + low)
        }
    }
}

/// Lowercase a string character by character.
pub fn lower_str(name: &str) -> (r: String)
    ensures
        r@ == lower_chars(name@),
{
    let n = name.unicode_len();
    let mut low = String::new();
    let mut i: usize = 0;
    while i < n
        invariant
            n == name@.len(),
            0 <= i <= n,
            low@.len() == i,
            forall|j: int| 0 <= j < i ==> low@[j] == spec_lower_char(name@[j]),
        decreases n - i,
    {
        let c = lower_char(name.get_char(i));
        low.push(c);
        i = i + 1;
    }
    assert(low@ =~= lower_chars(name@));
    low
}

/// Resolve a package name to the relative path of its index file.
///
/// Empty or non-ASCII names do not resolve: the index holds only ASCII
/// identifiers, so this is a normal "not found", not an error. The
/// bucketing is case-insensitive and the final path component is the
/// lowercased name.
pub fn resolve(name: &str) -> (r: Option<String>)
    ensures
        r is Some <==> spec_resolve(name@) is Some,
        r is Some ==> r->0@ == spec_resolve(name@)->0,
{
    let n = name.unicode_len();
    if n == 0 || !name.is_ascii() {
        return None;
    }
    let low = lower_str(name);
    let mut p = String::new();
    if n == 1 {
        p.push('1');
        p.push('/');
    } else if n == 2 {
        p.push('2');
        p.push('/');
    } else if n == 3 {
        p.push('3');
        p.push('/');
        p.push(low.as_str().get_char(0));
        p.push('/');
    } else {
        p.push(low.as_str().get_char(0));
        p.push(low.as_str().get_char(1));
        p.push('/');
        p.push(low.as_str().get_char(2));
        p.push(low.as_str().get_char(3));
        p.push('/');
    }
    let mut out = p;
    out.append(low.as_str());
    proof {
        if n >= 4 {
            assert(out@ =~= lower_chars(name@).subrange(0, 2) + seq!['/']
                + lower_chars(name@).subrange(2, 4) + seq!['/'] + lower_chars(name@));
        } else {
            assert(out@ =~= spec_resolve(name@)->0);
        }
    }
    Some(out)
}

/// Lowercasing keeps a sequence's length and keeps it ASCII (or
/// non-ASCII) as it was, and is idempotent.
pub proof fn lemma_lower_chars_basic(s: Seq<char>)
    ensures
        lower_chars(s).len() == s.len(),
        is_ascii_chars(lower_chars(s)) == is_ascii_chars(s),
        lower_chars(lower_chars(s)) == lower_chars(s),
{
    if is_ascii_chars(s) {
        assert forall|i: int| 0 <= i < lower_chars(s).len() implies '\0'
            <= #[trigger] lower_chars(s)[i] <= '\u{7f}' by {
            assert(lower_chars(s)[i] == spec_lower_char(s[i]));
            assert('\0' <= s[i] <= '\u{7f}');
        }
        assert(is_ascii_chars(lower_chars(s)));
    }
    if is_ascii_chars(lower_chars(s)) {
        assert forall|i: int| 0 <= i < s.len() implies '\0' <= #[trigger] s[i] <= '\u{7f}' by {
            assert('\0' <= lower_chars(s)[i] <= '\u{7f}');
            assert(lower_chars(s)[i] == spec_lower_char(s[i]));
        }
        assert(is_ascii_chars(s));
    }
    assert(lower_chars(lower_chars(s)) =~= lower_chars(s));
}

/// Sharding is case-insensitive: a name and its lowercased form
/// resolve to the same path.
pub proof fn lemma_resolve_case_insensitive(name: Seq<char>)
    ensures
        spec_resolve(lower_chars(name)) == spec_resolve(name),
{
    lemma_lower_chars_basic(name);
}

} // verus!
