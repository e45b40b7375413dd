//! The substitution that lets a URL parser read an account identifier with
//! colons in it, and the way back from what the parser returns to what the
//! address holds.
//!
//! A URL parser takes a colon in the place of the host for the start of a
//! port. So every colon behind the one that ends the scheme is replaced by
//! an underscore before the parser reads the address. The substitution
//! keeps every character in its place: a piece that the parser returns is
//! looked up in the address where it stands, and taken from there as it was
//! written. Nothing is put back that was not replaced.

use crate::text::{chars_of, push_char, push_range};
use vstd::prelude::*;

verus! {

/// What stands for `c` while a URL parser reads the address: an underscore
/// for a colon, and every other character for itself.
pub open spec fn stand_in(c: char) -> char {
    if c == ':' {
        '_'
    } else {
        c
    }
}

/// `s` with an underscore for every colon.
pub open spec fn escape_colons(s: Seq<char>) -> Seq<char> {
    Seq::new(s.len(), |i: int| stand_in(s[i]))
}

/// `s` holds a colon.
pub open spec fn holds_colon(s: Seq<char>) -> bool {
    exists|j: int| 0 <= j < s.len() && s[j] == ':'
}

/// The first index at or after `i` that holds `c`, or the length of `s`
/// where there is none; `i` itself where it lies outside `s`.
pub open spec fn first_index_of(s: Seq<char>, c: char, i: int) -> int
    decreases s.len() - i,
{
    if 0 <= i < s.len() && s[i] != c {
        first_index_of(s, c, i + 1)
    } else {
        i
    }
}

/// The index behind the colon that ends the scheme: behind the first colon
/// of `url`, or the length of `url` where it holds none.
pub open spec fn scheme_end(url: Seq<char>) -> int {
    let colon = first_index_of(url, ':', 0);
    if colon < url.len() {
        colon + 1
    } else {
        url.len() as int
    }
}

/// The address as the URL parser is given it: the scheme and its colon as
/// they are, and the rest with an underscore for every colon.
pub open spec fn escaped_address(url: Seq<char>) -> Seq<char> {
    url.subrange(0, scheme_end(url)) + escape_colons(
        url.subrange(scheme_end(url), url.len() as int),
    )
}

/// Where the authority begins: behind the two characters that follow the
/// scheme, where the address reaches that far.
pub open spec fn authority_start(url: Seq<char>) -> Option<int> {
    if scheme_end(url) + 2 <= url.len() {
        Some(scheme_end(url) + 2)
    } else {
        None
    }
}

/// Where the first segment of the path begins: behind the first slash at or
/// after the start of the authority, where the address holds one.
pub open spec fn path_start(url: Seq<char>) -> Option<int> {
    match authority_start(url) {
        Some(start) => if first_index_of(url, '/', start) < url.len() {
            Some(first_index_of(url, '/', start) + 1)
        } else {
            None
        },
        None => None,
    }
}

/// Where the piece after a piece of `len` characters at `at` begins: behind
/// that piece and the slash after it, where the address reaches that far.
pub open spec fn behind(url: Seq<char>, at: Option<int>, len: nat) -> Option<int> {
    match at {
        Some(start) => if start + len + 1 <= url.len() {
            Some(start + len + 1)
        } else {
            None
        },
        None => None,
    }
}

/// The parser read `part` at the index `at` of the address: the address
/// holds a slash before `at`, and from `at` on a text that the substitution
/// turns into `part`.
pub open spec fn stands_at(url: Seq<char>, at: int, part: Seq<char>) -> bool {
    &&& 1 <= at
    &&& at + part.len() <= url.len()
    &&& url[at - 1] == '/'
    &&& escape_colons(url.subrange(at, at + part.len())) == part
}

/// What the address holds where the parser read `part`: the text as it was
/// written, colons and underscores each in their place. Where the address
/// does not hold `part` at `at`, `part` stays as the parser returned it.
pub open spec fn as_written(url: Seq<char>, at: Option<int>, part: Seq<char>) -> Seq<char> {
    match at {
        Some(start) => if stands_at(url, start, part) {
            url.subrange(start, start + part.len())
        } else {
            part
        },
        None => part,
    }
}

/// An index of the address, as a number.
pub open spec fn index_view(at: Option<usize>) -> Option<int> {
    match at {
        Some(start) => Some(start as int),
        None => None,
    }
}

/// The first index at or after `from` that holds `c`, or the length of `v`.
fn index_of(v: &Vec<char>, c: char, from: usize) -> (r: usize)
    requires
        from <= v.len(),
    ensures
        r == first_index_of(v@, c, from as int),
        from <= r <= v.len(),
{
    let mut i: usize = from;
    while i < v.len() && v[i] != c
        invariant
            from <= i <= v.len(),
            first_index_of(v@, c, i as int) == first_index_of(v@, c, from as int),
        decreases v.len() - i,
    {
        i = i + 1;
    }
    i
}

/// The index behind the colon that ends the scheme.
fn scheme_end_index(v: &Vec<char>) -> (r: usize)
    ensures
        r == scheme_end(v@),
        r <= v.len(),
{
    let colon = index_of(v, ':', 0);
    if colon < v.len() {
        colon + 1
    } else {
        v.len()
    }
}

/// Where the authority begins.
pub(crate) fn authority_index(v: &Vec<char>) -> (r: Option<usize>)
    ensures
        index_view(r) == authority_start(v@),
{
    let end = scheme_end_index(v);
    if v.len() - end >= 2 {
        Some(end + 2)
    } else {
        None
    }
}

/// Where the first segment of the path begins.
pub(crate) fn path_index(v: &Vec<char>) -> (r: Option<usize>)
    ensures
        index_view(r) == path_start(v@),
{
    match authority_index(v) {
        Some(start) => {
            let slash = index_of(v, '/', start);
            if slash < v.len() {
                Some(slash + 1)
            } else {
                None
            }
        },
        None => None,
    }
}

/// Where the piece after a piece of `len` characters at `at` begins.
pub(crate) fn index_behind(v: &Vec<char>, at: Option<usize>, len: usize) -> (r: Option<usize>)
    ensures
        index_view(r) == behind(v@, index_view(at), len as nat),
{
    match at {
        Some(start) => {
            if start < v.len() && len < v.len() - start {
                Some(start + len + 1)
            } else {
                None
            }
        },
        None => None,
    }
}

/// What the address `v` holds where the parser read `part`.
pub(crate) fn restore_piece(v: &Vec<char>, at: Option<usize>, part: &str) -> (r: String)
    ensures
        r@ == as_written(v@, index_view(at), part@),
{
    let p = chars_of(part);
    match at {
        Some(start) => {
            if start < 1 || start > v.len() || p.len() > v.len() - start || v[start - 1] != '/' {
                return part.to_owned();
            }
            let ghost piece = v@.subrange(start as int, start + p.len());
            let mut i: usize = 0;
            while i < p.len()
                invariant
                    i <= p.len(),
                    at == Some(start),
                    1 <= start,
                    start + p.len() <= v.len(),
                    v@[start - 1] == '/',
                    p@ == part@,
                    piece == v@.subrange(start as int, start + p.len()),
                    forall|j: int| 0 <= j < i ==> stand_in(piece[j]) == p@[j],
                decreases p.len() - i,
            {
                let c = v[start + i];
                let escaped = if c == ':' {
                    '_'
                } else {
                    c
                };
                assert(piece[i as int] == v@[start + i]);
                if escaped != p[i] {
                    assert(escape_colons(piece)[i as int] != part@[i as int]);
                    return part.to_owned();
                }
                i = i + 1;
            }
            assert(escape_colons(piece) =~= part@);
            let mut out = String::new();
            push_range(&mut out, v, start, start + p.len());
            out
        },
        None => part.to_owned(),
    }
}

/// Escapes `url` for the URL parser.
pub fn escape_address(url: &str) -> (r: String)
    ensures
        r@ == escaped_address(url@),
{
    let v = chars_of(url);
    let start = scheme_end_index(&v);
    let mut out = String::new();
    push_range(&mut out, &v, 0, start);
    let mut i: usize = start;
    while i < v.len()
        invariant
            start <= i <= v.len(),
            v@ == url@,
            out@ == url@.subrange(0, start as int) + escape_colons(
                url@.subrange(start as int, i as int),
            ),
        decreases v.len() - i,
    {
        let ghost before = out@;
        if v[i] == ':' {
            push_char(&mut out, '_');
        } else {
            push_char(&mut out, v[i]);
        }
        assert(out@ == before.push(stand_in(url@[i as int])));
        i = i + 1;
        assert(out@ =~= url@.subrange(0, start as int) + escape_colons(
            url@.subrange(start as int, i as int),
        ));
    }
    out
}

/// The substitution can be undone, whatever the text: a piece of the
/// address that the parser returns as the substitution left it comes back
/// as it was written, every colon and every underscore in its place.
pub proof fn lemma_escape_reversible(url: Seq<char>, at: int, piece: Seq<char>)
    requires
        1 <= at,
        at + piece.len() <= url.len(),
        url[at - 1] == '/',
        url.subrange(at, at + piece.len()) == piece,
    ensures
        as_written(url, Some(at), escape_colons(piece)) == piece,
{
}

/// A piece is changed only where a colon was replaced: what comes back for
/// `part` has the length of `part`, and differs from it only where `part`
/// holds an underscore and the address a colon.
pub proof fn lemma_only_replaced_colons_come_back(url: Seq<char>, at: Option<int>, part: Seq<char>)
    ensures
        as_written(url, at, part).len() == part.len(),
        forall|i: int|
            0 <= i < part.len() ==> {
                let c = #[trigger] as_written(url, at, part)[i];
                c == part[i] || (c == ':' && part[i] == '_')
            },
{
    if at is Some && stands_at(url, at->0, part) {
        let start = at->0;
        let piece = url.subrange(start, start + part.len());
        assert forall|i: int| 0 <= i < part.len() implies {
            let c = #[trigger] as_written(url, at, part)[i];
            c == part[i] || (c == ':' && part[i] == '_')
        } by {
            assert(escape_colons(piece)[i] == part[i]);
        }
    }
}

/// A text without a colon is left as it is by escaping.
pub proof fn lemma_escape_without_colon(s: Seq<char>)
    requires
        !holds_colon(s),
    ensures
        escape_colons(s) == s,
{
    assert(escape_colons(s) =~= s);
}

/// Escaping goes through a text piece by piece.
pub proof fn lemma_escape_concat(a: Seq<char>, b: Seq<char>)
    ensures
        escape_colons(a + b) == escape_colons(a) + escape_colons(b),
{
    assert(escape_colons(a + b) =~= escape_colons(a) + escape_colons(b));
}

/// Where no `c` stands from `i` up to `k` and one stands at `k`, the first
/// `c` at or after `i` is at `k`.
pub proof fn lemma_first_index_at(s: Seq<char>, c: char, i: int, k: int)
    requires
        0 <= i <= k < s.len(),
        s[k] == c,
        forall|j: int| i <= j < k ==> s[j] != c,
    ensures
        first_index_of(s, c, i) == k,
    decreases k - i,
{
    if i < k {
        lemma_first_index_at(s, c, i + 1, k);
    }
}

} // verus!
