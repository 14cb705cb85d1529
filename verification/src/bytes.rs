//! Byte-string primitives: equality, copying, and first-occurrence
//! substring search with replacement. Paths are handled throughout the
//! library as byte strings of their textual form.

use vstd::prelude::*;

verus! {

/// True when `needle` occurs in `hay` starting at index `i`.
pub open spec fn match_at(hay: Seq<u8>, needle: Seq<u8>, i: int) -> bool {
    &&& 0 <= i
    &&& i + needle.len() <= hay.len()
    &&& hay.subrange(i, i + needle.len()) == needle
}

/// True when `needle` occurs somewhere in `hay`.
pub open spec fn contains_seq(hay: Seq<u8>, needle: Seq<u8>) -> bool {
    exists|i: int| match_at(hay, needle, i)
}

/// True when the first occurrence of `needle` in `hay` starts at `i`.
pub open spec fn first_match_at(hay: Seq<u8>, needle: Seq<u8>, i: int) -> bool {
    &&& match_at(hay, needle, i)
    &&& forall|j: int| 0 <= j < i ==> !match_at(hay, needle, j)
}

/// The index of the first occurrence of `needle` in `hay`
/// (meaningful only when `contains_seq(hay, needle)` holds).
pub open spec fn first_index(hay: Seq<u8>, needle: Seq<u8>) -> int {
    choose|i: int| first_match_at(hay, needle, i)
}

proof fn lemma_first_match_upto(hay: Seq<u8>, needle: Seq<u8>, i: int)
    requires
        match_at(hay, needle, i),
    ensures
        exists|j: int| first_match_at(hay, needle, j),
    decreases i,
{
    if forall|j: int| 0 <= j < i ==> !match_at(hay, needle, j) {
        assert(first_match_at(hay, needle, i));
    } else {
        let j = choose|j: int| 0 <= j < i && match_at(hay, needle, j);
        lemma_first_match_upto(hay, needle, j);
    }
}

/// Wherever `needle` occurs in `hay` at all, it has a first occurrence,
/// and `first_index` denotes it.
pub proof fn lemma_first_match_exists(hay: Seq<u8>, needle: Seq<u8>)
    requires
        contains_seq(hay, needle),
    ensures
        first_match_at(hay, needle, first_index(hay, needle)),
{
    let i = choose|i: int| match_at(hay, needle, i);
    lemma_first_match_upto(hay, needle, i);
    let j = choose|j: int| first_match_at(hay, needle, j);
    assert(first_match_at(hay, needle, j));
}

/// The first occurrence is unique.
pub proof fn lemma_first_match_unique(hay: Seq<u8>, needle: Seq<u8>, a: int, b: int)
    requires
        first_match_at(hay, needle, a),
        first_match_at(hay, needle, b),
    ensures
        a == b,
{
    if a < b {
        assert(!match_at(hay, needle, a));
    } else if b < a {
        assert(!match_at(hay, needle, b));
    }
}

/// Byte-vector equality.
pub fn bytes_eq(a: &Vec<u8>, b: &Vec<u8>) -> (r: bool)
    ensures
        r == (a@ == b@),
{
    if a.len() != b.len() {
        return false;
    }
    let mut i: usize = 0;
    while i < a.len()
        invariant
            a@.len() == b@.len(),
            i <= a@.len(),
            forall|k: int| 0 <= k < i ==> a@[k] == b@[k],
        decreases a@.len() - i,
    {
        if a[i] != b[i] {
            return false;
        }
        i += 1;
    }
    proof {
        assert(a@ =~= b@);
    }
    true
}

/// A copy of a byte vector.
pub fn clone_bytes(v: &Vec<u8>) -> (r: Vec<u8>)
    ensures
        r@ == v@,
{
    let mut r: Vec<u8> = Vec::new();
    let mut i: usize = 0;
    while i < v.len()
        invariant
            i <= v@.len(),
            r@ == v@.take(i as int),
        decreases v@.len() - i,
    {
        r.push(v[i]);
        proof {
            assert(r@ =~= v@.take(i as int + 1));
        }
        i += 1;
    }
    proof {
        assert(v@.take(v@.len() as int) =~= v@);
    }
    r
}

fn match_here(hay: &Vec<u8>, needle: &Vec<u8>, i: usize) -> (r: bool)
    requires
        i + needle@.len() <= hay@.len(),
    ensures
        r == match_at(hay@, needle@, i as int),
{
    let hay_len: usize = hay.len();
    let mut j: usize = 0;
    while j < needle.len()
        invariant
            i + needle@.len() <= hay@.len(),
            hay_len == hay@.len(),
            j <= needle@.len(),
            forall|k: int| 0 <= k < j ==> hay@[i + k] == needle@[k],
        decreases needle@.len() - j,
    {
        proof {
            assert(i + j < hay@.len());
        }
        if hay[i + j] != needle[j] {
            proof {
                if match_at(hay@, needle@, i as int) {
                    assert(hay@.subrange(i as int, i + needle@.len())[j as int]
                        == needle@[j as int]);
                }
            }
            return false;
        }
        j += 1;
    }
    proof {
        assert forall|k: int| 0 <= k < needle@.len() implies
            hay@.subrange(i as int, i + needle@.len())[k] == needle@[k] by {
            assert(hay@[i + k] == needle@[k]);
        }
        assert(hay@.subrange(i as int, i + needle@.len()) =~= needle@);
    }
    true
}

/// The index of the first occurrence of `needle` in `hay`, or `None`
/// when `needle` does not occur in `hay`.
pub fn find_first(hay: &Vec<u8>, needle: &Vec<u8>) -> (r: Option<usize>)
    ensures
        match r {
            Some(i) => first_match_at(hay@, needle@, i as int),
            None => !contains_seq(hay@, needle@),
        },
{
    if needle.len() > hay.len() {
        return None;
    }
    if needle.len() == 0 {
        proof {
            assert(hay@.subrange(0, 0) =~= needle@);
            assert(first_match_at(hay@, needle@, 0));
        }
        return Some(0);
    }
    let last: usize = hay.len() - needle.len();
    let mut i: usize = 0;
    while i <= last
        invariant
            1 <= needle@.len() <= hay@.len(),
            hay@.len() <= usize::MAX,
            last == hay@.len() - needle@.len(),
            i <= last + 1,
            forall|j: int| 0 <= j < i ==> !match_at(hay@, needle@, j),
        decreases last + 1 - i,
    {
        if match_here(hay, needle, i) {
            return Some(i);
        }
        i += 1;
    }
    proof {
        if contains_seq(hay@, needle@) {
            let j = choose|j: int| match_at(hay@, needle@, j);
            assert(j <= last);
            assert(!match_at(hay@, needle@, j));
        }
    }
    None
}

/// `hay` with its first occurrence of `needle` replaced by `repl`
/// (meaningful only when `contains_seq(hay, needle)` holds).
pub open spec fn spliced(hay: Seq<u8>, needle: Seq<u8>, repl: Seq<u8>) -> Seq<u8> {
    let i = first_index(hay, needle);
    hay.subrange(0, i) + repl + hay.subrange(i + needle.len(), hay.len() as int)
}

/// `hay` with its first occurrence of `needle` replaced by `repl`.
pub fn replace_first(hay: &Vec<u8>, needle: &Vec<u8>, repl: &Vec<u8>) -> (r: Vec<u8>)
    requires
        contains_seq(hay@, needle@),
    ensures
        r@ == spliced(hay@, needle@, repl@),
{
    let found = find_first(hay, needle);
    let i: usize = match found {
        Some(i) => i,
        None => {
            proof {
                assert(false);
            }
            0
        },
    };
    proof {
        lemma_first_match_exists(hay@, needle@);
        lemma_first_match_unique(hay@, needle@, i as int, first_index(hay@, needle@));
    }
    let mut r: Vec<u8> = Vec::new();
    let mut k: usize = 0;
    while k < i
        invariant
            i as int + needle@.len() <= hay@.len(),
            k <= i,
            r@ == hay@.subrange(0, k as int),
        decreases i - k,
    {
        r.push(hay[k]);
        proof {
            assert(r@ =~= hay@.subrange(0, k as int + 1));
        }
        k += 1;
    }
    let mut k: usize = 0;
    while k < repl.len()
        invariant
            i as int + needle@.len() <= hay@.len(),
            k <= repl@.len(),
            r@ == hay@.subrange(0, i as int) + repl@.take(k as int),
        decreases repl@.len() - k,
    {
        r.push(repl[k]);
        proof {
            assert(r@ =~= hay@.subrange(0, i as int) + repl@.take(k as int + 1));
        }
        k += 1;
    }
    proof {
        assert(repl@.take(repl@.len() as int) =~= repl@);
    }
    let hay_len: usize = hay.len();
    proof {
        assert(i + needle@.len() <= hay_len);
    }
    let mut k: usize = i + needle.len();
    while k < hay.len()
        invariant
            i as int + needle@.len() <= hay@.len(),
            i as int + needle@.len() <= k as int <= hay@.len(),
            r@ == hay@.subrange(0, i as int) + repl@
                + hay@.subrange(i as int + needle@.len(), k as int),
        decreases hay@.len() - k,
    {
        r.push(hay[k]);
        proof {
            assert(r@ =~= hay@.subrange(0, i as int) + repl@
                + hay@.subrange(i as int + needle@.len(), k as int + 1));
        }
        k += 1;
    }
    r
}

/// The suffix of `v` from index `i` on.
pub fn tail_from(v: &Vec<u8>, i: usize) -> (r: Vec<u8>)
    requires
        i <= v@.len(),
    ensures
        r@ == v@.subrange(i as int, v@.len() as int),
{
    let mut r: Vec<u8> = Vec::new();
    let mut k: usize = i;
    while k < v.len()
        invariant
            i <= k <= v@.len(),
            r@ == v@.subrange(i as int, k as int),
        decreases v@.len() - k,
    {
        r.push(v[k]);
        proof {
            assert(r@ =~= v@.subrange(i as int, k as int + 1));
        }
        k += 1;
    }
    r
}

} // verus!
