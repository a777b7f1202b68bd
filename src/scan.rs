//! Wildcard signature scanner: sliding-window search of a byte pattern, in
//! which wildcard tokens match any byte.

use vstd::prelude::*;

verus! {

/// One position of a signature: an exact byte, or a wildcard that matches any byte.
#[derive(Clone, Copy, Debug, PartialEq, Eq, Structural)]
pub enum Token {
    Byte(u8),
    Wildcard,
}

/// Whether a single token accepts the byte `b`.
pub open spec fn token_accepts(t: Token, b: u8) -> bool {
    match t {
        Token::Byte(x) => x == b,
        Token::Wildcard => true,
    }
}

/// The pattern `p` lies entirely inside `h` at offset `o`, and every token accepts
/// the byte beneath it.
pub open spec fn sig_matches_at(h: Seq<u8>, p: Seq<Token>, o: int) -> bool {
    &&& 0 <= o
    &&& o + p.len() <= h.len()
    &&& forall|i: int| 0 <= i < p.len() ==> #[trigger] token_accepts(p[i], h[o + i])
}

/// The smallest match offset that is at least `s`, if any.
pub open spec fn first_match_from(h: Seq<u8>, p: Seq<Token>, s: int) -> Option<int>
    decreases h.len() - s,
{
    if p.len() == 0 || s < 0 || s + p.len() > h.len() {
        None
    } else if sig_matches_at(h, p, s) {
        Some(s)
    } else {
        first_match_from(h, p, s + 1)
    }
}

/// The smallest match offset in the whole haystack, if any.
pub open spec fn first_match(h: Seq<u8>, p: Seq<Token>) -> Option<int> {
    first_match_from(h, p, 0)
}

/// The non-overlapping matches found by scanning left to right from `s`: after a
/// match the scan resumes just past it.
pub open spec fn matches_from(h: Seq<u8>, p: Seq<Token>, s: int) -> Seq<int>
    decreases h.len() - s,
{
    if p.len() == 0 || s < 0 || s + p.len() > h.len() {
        Seq::empty()
    } else if sig_matches_at(h, p, s) {
        seq![s] + matches_from(h, p, s + p.len())
    } else {
        matches_from(h, p, s + 1)
    }
}

/// The offsets of `v`, as integers.
pub open spec fn offsets_view(v: Seq<usize>) -> Seq<int> {
    v.map_values(|x: usize| x as int)
}

/// What `first_match_from` yields is a match, the first one at or after `s`.
pub proof fn lemma_first_match_from(h: Seq<u8>, p: Seq<Token>, s: int)
    requires
        p.len() > 0,
        s >= 0,
    ensures
        match first_match_from(h, p, s) {
            Some(o) => s <= o && sig_matches_at(h, p, o) && forall|j: int|
                s <= j < o ==> !#[trigger] sig_matches_at(h, p, j),
            None => forall|j: int| s <= j ==> !#[trigger] sig_matches_at(h, p, j),
        },
    decreases h.len() - s,
{
    if s + p.len() > h.len() {
    } else if sig_matches_at(h, p, s) {
    } else {
        lemma_first_match_from(h, p, s + 1);
    }
}

/// Every offset that the left-to-right scan from `s` reports is a match at or after `s`.
pub proof fn lemma_matches_from_sound(h: Seq<u8>, p: Seq<Token>, s: int)
    requires
        p.len() > 0,
        s >= 0,
    ensures
        forall|k: int|
            0 <= k < matches_from(h, p, s).len() ==> s <= #[trigger] matches_from(h, p, s)[k]
                && sig_matches_at(h, p, matches_from(h, p, s)[k]),
    decreases h.len() - s,
{
    if s + p.len() > h.len() {
        assert(matches_from(h, p, s).len() == 0);
    } else if sig_matches_at(h, p, s) {
        lemma_matches_from_sound(h, p, s + p.len());
        let rest = matches_from(h, p, s + p.len());
        assert forall|k: int| 0 <= k < matches_from(h, p, s).len() implies s <= #[trigger] matches_from(
            h,
            p,
            s,
        )[k] && sig_matches_at(h, p, matches_from(h, p, s)[k]) by {
            assert(matches_from(h, p, s) == seq![s] + rest);
            if k > 0 {
                assert(matches_from(h, p, s)[k] == rest[k - 1]);
            }
        }
    } else {
        lemma_matches_from_sound(h, p, s + 1);
        assert(matches_from(h, p, s) == matches_from(h, p, s + 1));
    }
}

/// Whether the pattern holds no wildcard.
pub open spec fn is_literal(p: Seq<Token>) -> bool {
    forall|i: int| 0 <= i < p.len() ==> #[trigger] p[i] is Byte
}

/// The bytes of a pattern, a wildcard read as zero.
pub open spec fn literal_bytes(p: Seq<Token>) -> Seq<u8> {
    p.map_values(
        |t: Token|
            match t {
                Token::Byte(b) => b,
                Token::Wildcard => 0u8,
            },
    )
}

/// The bytes `l` stand verbatim in `h` from offset `o`.
pub open spec fn occurs_at(h: Seq<u8>, l: Seq<u8>, o: int) -> bool {
    0 <= o && o + l.len() <= h.len() && h.subrange(o, o + l.len()) == l
}

proof fn lemma_literal_match_is_occurrence(h: Seq<u8>, p: Seq<Token>, o: int)
    requires
        is_literal(p),
    ensures
        sig_matches_at(h, p, o) <==> occurs_at(h, literal_bytes(p), o),
{
    let l = literal_bytes(p);
    if sig_matches_at(h, p, o) {
        assert forall|i: int| 0 <= i < l.len() implies #[trigger] h.subrange(o, o + l.len())[i]
            == l[i] by {
            assert(token_accepts(p[i], h[o + i]));
            assert(p[i] is Byte);
        }
        assert(h.subrange(o, o + l.len()) =~= l);
    }
    if occurs_at(h, l, o) {
        assert forall|i: int| 0 <= i < p.len() implies #[trigger] token_accepts(p[i], h[o + i]) by {
            assert(p[i] is Byte);
            assert(h.subrange(o, o + l.len())[i] == l[i]);
        }
    }
}

/// For a pattern without wildcards, the first match is `Some(o)` exactly when the
/// pattern's bytes stand verbatim at `o` and at no smaller offset.
pub proof fn lemma_literal_first_match(h: Seq<u8>, p: Seq<Token>, o: int)
    requires
        p.len() > 0,
        is_literal(p),
    ensures
        first_match(h, p) == Some(o) <==> (occurs_at(h, literal_bytes(p), o) && forall|j: int|
            0 <= j < o ==> !#[trigger] occurs_at(h, literal_bytes(p), j)),
{
    let l = literal_bytes(p);
    lemma_first_match_from(h, p, 0);
    assert forall|j: int|
        #![trigger sig_matches_at(h, p, j)]
        #![trigger occurs_at(h, l, j)]
        sig_matches_at(h, p, j) <==> occurs_at(h, l, j) by {
        lemma_literal_match_is_occurrence(h, p, j);
    }
    if first_match(h, p) == Some(o) {
        assert(sig_matches_at(h, p, o));
        assert forall|j: int| 0 <= j < o implies !#[trigger] occurs_at(h, l, j) by {
            assert(!sig_matches_at(h, p, j));
        }
    }
    if occurs_at(h, l, o) && forall|j: int| 0 <= j < o ==> !#[trigger] occurs_at(h, l, j) {
        assert(sig_matches_at(h, p, o));
        match first_match(h, p) {
            Some(m) => {
                if m < o {
                    assert(occurs_at(h, l, m));
                }
                if m > o {
                    assert(!sig_matches_at(h, p, o));
                }
            },
            None => {
                assert(!sig_matches_at(h, p, o));
            },
        }
    }
}

/// A wildcard position never decides a match: the haystack byte beneath it can be
/// anything without changing whether the pattern matches at that offset.
pub proof fn lemma_wildcard_byte_irrelevant(h: Seq<u8>, p: Seq<Token>, o: int, k: int, b: u8)
    requires
        0 <= k < p.len(),
        p[k] == Token::Wildcard,
        0 <= o + k < h.len(),
    ensures
        sig_matches_at(h, p, o) == sig_matches_at(h.update(o + k, b), p, o),
{
    let h2 = h.update(o + k, b);
    if 0 <= o && o + p.len() <= h.len() {
        assert forall|i: int| 0 <= i < p.len() implies #[trigger] token_accepts(p[i], h[o + i])
            == token_accepts(p[i], h2[o + i]) by {
            if i != k {
                assert(h2[o + i] == h[o + i]);
            }
        }
    }
}

/// Whether the pattern matches the haystack at offset `o`.
pub fn matches_at(h: &[u8], p: &[Token], o: usize) -> (r: bool)
    ensures
        r == sig_matches_at(h@, p@, o as int),
{
    if p.len() > h.len() || o > h.len() - p.len() {
        return false;
    }
    let mut i: usize = 0;
    while i < p.len()
        invariant
            i <= p@.len(),
            o + p@.len() <= h@.len(),
            h@.len() <= usize::MAX,
            forall|j: int| 0 <= j < i ==> #[trigger] token_accepts(p@[j], h@[o + j]),
        decreases p@.len() - i,
    {
        let ok = match p[i] {
            Token::Byte(b) => h[o + i] == b,
            Token::Wildcard => true,
        };
        if !ok {
            assert(!token_accepts(p@[i as int], h@[o + i]));
            return false;
        }
        i = i + 1;
    }
    true
}

/// The first match at or after `start`.
pub fn search_from(h: &[u8], p: &[Token], start: usize) -> (r: Option<usize>)
    requires
        p@.len() > 0,
    ensures
        match r {
            Some(o) => first_match_from(h@, p@, start as int) == Some(o as int),
            None => first_match_from(h@, p@, start as int) is None,
        },
        match r {
            Some(o) => start <= o && sig_matches_at(h@, p@, o as int) && forall|j: int|
                start <= j < o ==> !#[trigger] sig_matches_at(h@, p@, j),
            None => forall|j: int| start <= j ==> !#[trigger] sig_matches_at(h@, p@, j),
        },
{
    proof {
        lemma_first_match_from(h@, p@, start as int);
    }
    if p.len() > h.len() {
        return None;
    }
    let last = h.len() - p.len();
    let mut i: usize = start;
    while i <= last
        invariant
            start <= i,
            last == h@.len() - p@.len(),
            h@.len() <= usize::MAX,
            p@.len() > 0,
            first_match_from(h@, p@, i as int) == first_match_from(h@, p@, start as int),
        decreases last + 1 - i,
    {
        if matches_at(h, p, i) {
            assert(first_match_from(h@, p@, i as int) == Some(i as int));
            proof {
                lemma_first_match_from(h@, p@, start as int);
            }
            return Some(i);
        }
        i = i + 1;
    }
    None
}

/// The first match in the haystack. An empty haystack, or one shorter than the
/// pattern, has none.
pub fn search(h: &[u8], p: &[Token]) -> (r: Option<usize>)
    requires
        p@.len() > 0,
    ensures
        match r {
            Some(o) => first_match(h@, p@) == Some(o as int),
            None => first_match(h@, p@) is None,
        },
        match r {
            Some(o) => sig_matches_at(h@, p@, o as int) && forall|j: int|
                0 <= j < o ==> !#[trigger] sig_matches_at(h@, p@, j),
            None => forall|j: int| !#[trigger] sig_matches_at(h@, p@, j),
        },
        (h@.len() == 0 || p@.len() > h@.len()) ==> r is None,
{
    let r = search_from(h, p, 0);
    r
}

/// All non-overlapping matches, from left to right: after each match the scan
/// resumes just past it.
pub fn search_all(h: &[u8], p: &[Token]) -> (r: Vec<usize>)
    requires
        p@.len() > 0,
    ensures
        offsets_view(r@) == matches_from(h@, p@, 0),
        forall|k: int| 0 <= k < r@.len() ==> sig_matches_at(h@, p@, #[trigger] r@[k] as int),
{
    let mut out: Vec<usize> = Vec::new();
    if p.len() > h.len() {
        assert(offsets_view(out@) =~= matches_from(h@, p@, 0));
        return out;
    }
    let last = h.len() - p.len();
    let mut i: usize = 0;
    while i <= last
        invariant
            last == h@.len() - p@.len(),
            p@.len() > 0,
            i <= h@.len(),
            h@.len() <= usize::MAX,
            offsets_view(out@) + matches_from(h@, p@, i as int) == matches_from(h@, p@, 0),
        decreases h@.len() - i,
    {
        if matches_at(h, p, i) {
            let ghost before = out@;
            out.push(i);
            assert(offsets_view(out@) =~= offsets_view(before) + seq![i as int]);
            assert(offsets_view(out@) + matches_from(h@, p@, i + p@.len()) =~= offsets_view(before)
                + matches_from(h@, p@, i as int));
            i = i + p.len();
        } else {
            i = i + 1;
        }
    }
    assert(matches_from(h@, p@, i as int) =~= Seq::<int>::empty());
    assert(offsets_view(out@) =~= matches_from(h@, p@, 0));
    proof {
        lemma_matches_from_sound(h@, p@, 0);
        assert forall|k: int| 0 <= k < out@.len() implies sig_matches_at(
            h@,
            p@,
            #[trigger] out@[k] as int,
        ) by {
            assert(offsets_view(out@)[k] == out@[k] as int);
        }
    }
    out
}

} // verus!
