//! Byte-string utilities: equality, substring search and whitespace trimming.
//! All text that the library inspects is handled as bytes; the specification
//! functions here are the vocabulary the rest of the crate's contracts use.

use vstd::prelude::*;

verus! {

/// True for the ASCII whitespace bytes that trimming removes: space,
/// tab, line feed, vertical tab, form feed and carriage return. The
/// library handles text as bytes, so multi-byte Unicode whitespace is
/// outside this model and is kept.
pub open spec fn is_space(b: u8) -> bool {
    b == 32 || (9 <= b && b <= 13)
}

/// Executable test for a single ASCII whitespace byte.
pub fn byte_is_space(b: u8) -> (r: bool)
    ensures
        r == is_space(b),
{
    b == 32 || (9 <= b && b <= 13)
}

/// Byte-slice equality, decided element by element.
pub fn bytes_eq(a: &[u8], b: &[u8]) -> (r: bool)
    ensures
        r == (a@ == b@),
{
    if a.len() != b.len() {
        return false;
    }
    let mut i: usize = 0;
    while i < a.len()
        invariant
            i <= a.len(),
            a.len() == b.len(),
            forall|j: int| 0 <= j < i ==> a@[j] == b@[j],
        decreases a.len() - i,
    {
        if a[i] != b[i] {
            return false;
        }
        i += 1;
    }
    proof {
        assert(a@ =~= b@);
    }
    true
}

/// The needle `n` occurs in `h` at position `i`.
pub open spec fn matches_at(h: Seq<u8>, n: Seq<u8>, i: int) -> bool {
    0 <= i && i + n.len() <= h.len() && h.subrange(i, i + n.len() as int) == n
}

/// Position of the first occurrence of `n` in `h` at or after `from`.
pub open spec fn find_at(h: Seq<u8>, n: Seq<u8>, from: int) -> Option<int>
    decreases h.len() - from,
{
    if from < 0 || from + n.len() > h.len() {
        None
    } else if matches_at(h, n, from) {
        Some(from)
    } else if from < h.len() {
        find_at(h, n, from + 1)
    } else {
        None
    }
}

/// What a `find_at` result means: a hit is the first match, a miss means
/// no match at any position at or after `from`.
pub proof fn lemma_find_at(h: Seq<u8>, n: Seq<u8>, from: int)
    requires
        0 <= from,
    ensures
        match find_at(h, n, from) {
            Some(i) => from <= i && matches_at(h, n, i) && forall|j: int|
                from <= j < i ==> !matches_at(h, n, j),
            None => forall|j: int| j >= from ==> !matches_at(h, n, j),
        },
    decreases h.len() - from,
{
    if from + n.len() > h.len() {
    } else if matches_at(h, n, from) {
    } else if from < h.len() {
        lemma_find_at(h, n, from + 1);
    } else {
        assert(h.subrange(from, from + n.len() as int) =~= n);
        assert(false);
    }
}

/// First occurrence of `needle` in `haystack` at or after `from`,
/// matching `find_at` exactly.
pub fn find_from(haystack: &[u8], needle: &[u8], from: usize) -> (r: Option<usize>)
    ensures
        match r {
            Some(i) => find_at(haystack@, needle@, from as int) == Some(i as int),
            None => find_at(haystack@, needle@, from as int) is None,
        },
{
    let h_len = haystack.len();
    let n_len = needle.len();
    if n_len > h_len || from > h_len - n_len {
        proof {
            assert(find_at(haystack@, needle@, from as int) is None);
        }
        return None;
    }
    let limit = h_len - n_len;
    let mut i = from;
    while i <= limit
        invariant
            from <= i <= limit + 1,
            limit == h_len - n_len,
            h_len == haystack@.len(),
            n_len == needle@.len(),
            n_len <= h_len,
            find_at(haystack@, needle@, from as int) == find_at(haystack@, needle@, i as int),
        decreases limit + 1 - i,
    {
        let mut j: usize = 0;
        while j < n_len && haystack[i + j] == needle[j]
            invariant
                j <= n_len,
                i <= limit,
                limit == h_len - n_len,
                h_len == haystack@.len(),
                n_len == needle@.len(),
                forall|k: int| 0 <= k < j ==> haystack@[i + k] == needle@[k],
            decreases n_len - j,
        {
            j += 1;
        }
        if j == n_len {
            proof {
                assert(haystack@.subrange(i as int, i + n_len as int) =~= needle@);
                assert(matches_at(haystack@, needle@, i as int));
            }
            return Some(i);
        }
        proof {
            assert(haystack@[i + j] != needle@[j as int]);
            assert(!matches_at(haystack@, needle@, i as int)) by {
                if matches_at(haystack@, needle@, i as int) {
                    assert(haystack@.subrange(i as int, i + n_len as int)[j as int]
                        == haystack@[i + j]);
                }
            }
        }
        i += 1;
    }
    proof {
        assert(find_at(haystack@, needle@, i as int) is None);
    }
    None
}

/// `s` with leading ASCII whitespace removed.
pub open spec fn trim_start(s: Seq<u8>) -> Seq<u8>
    decreases s.len(),
{
    if s.len() > 0 && is_space(s[0]) {
        trim_start(s.drop_first())
    } else {
        s
    }
}

/// `s` with trailing ASCII whitespace removed.
pub open spec fn trim_end(s: Seq<u8>) -> Seq<u8>
    decreases s.len(),
{
    if s.len() > 0 && is_space(s.last()) {
        trim_end(s.drop_last())
    } else {
        s
    }
}

/// `s` with whitespace removed from both ends.
pub open spec fn trimmed(s: Seq<u8>) -> Seq<u8> {
    trim_end(trim_start(s))
}

/// Copy of `s` with ASCII whitespace removed from both ends.
pub fn trim_bytes(s: &[u8]) -> (r: Vec<u8>)
    ensures
        r@ == trimmed(s@),
{
    let len = s.len();
    proof {
        assert(s@.subrange(0, len as int) =~= s@);
    }
    let mut lo: usize = 0;
    while lo < len && byte_is_space(s[lo])
        invariant
            lo <= len,
            len == s@.len(),
            trim_start(s@) == trim_start(s@.subrange(lo as int, len as int)),
        decreases len - lo,
    {
        proof {
            assert(s@.subrange(lo as int, len as int).drop_first()
                =~= s@.subrange(lo + 1, len as int));
        }
        lo += 1;
    }
    proof {
        assert(trim_start(s@) == s@.subrange(lo as int, len as int));
    }
    let mut hi: usize = len;
    while hi > lo && byte_is_space(s[hi - 1])
        invariant
            lo <= hi <= len,
            len == s@.len(),
            trim_start(s@) == s@.subrange(lo as int, len as int),
            trim_end(s@.subrange(lo as int, len as int)) == trim_end(
                s@.subrange(lo as int, hi as int),
            ),
        decreases hi,
    {
        proof {
            assert(s@.subrange(lo as int, hi as int).drop_last()
                =~= s@.subrange(lo as int, hi - 1));
        }
        hi -= 1;
    }
    proof {
        assert(trimmed(s@) == s@.subrange(lo as int, hi as int));
    }
    let mut r: Vec<u8> = Vec::new();
    let mut k = lo;
    while k < hi
        invariant
            lo <= k <= hi <= len,
            len == s@.len(),
            r@ == s@.subrange(lo as int, k as int),
        decreases hi - k,
    {
        r.push(s[k]);
        proof {
            assert(s@.subrange(lo as int, k as int).push(s@[k as int])
                =~= s@.subrange(lo as int, k + 1));
        }
        k += 1;
    }
    r
}

} // verus!
