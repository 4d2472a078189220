//! Substring search and replacement over character sequences.
//!
//! Patterns are scanned for a literal needle; replacement is positional and
//! left-to-right, matching the behaviour of `str::replacen` / `str::replace`.

use vstd::prelude::*;
use vstd::string::*;

verus! {

/// True when `needle` occurs in `hay` starting at index `i`.
pub open spec fn match_at(hay: Seq<char>, needle: Seq<char>, i: int) -> bool {
    0 <= i && i + needle.len() <= hay.len() && hay.subrange(i, i + needle.len() as int)
        == needle
}

/// Index of the first occurrence of `needle` in `hay` at or after `i`,
/// or -1 when there is none. An empty needle counts as absent.
pub open spec fn find_at(hay: Seq<char>, needle: Seq<char>, i: int) -> int
    decreases hay.len() - i,
{
    if i < 0 || needle.len() == 0 || i + needle.len() > hay.len() {
        -1
    } else if match_at(hay, needle, i) {
        i
    } else {
        find_at(hay, needle, i + 1)
    }
}

/// Index of the first occurrence of `needle` in `hay`, or -1.
pub open spec fn first_match(hay: Seq<char>, needle: Seq<char>) -> int {
    find_at(hay, needle, 0)
}

/// True when `needle` occurs somewhere in `hay`.
pub open spec fn contains_sub(hay: Seq<char>, needle: Seq<char>) -> bool {
    first_match(hay, needle) >= 0
}

/// `find_at` returns either -1 or the position of a genuine occurrence, and
/// no occurrence lies between the starting index and the returned one.
pub proof fn lemma_find_at_props(hay: Seq<char>, needle: Seq<char>, i: int)
    requires
        0 <= i,
        needle.len() > 0,
    ensures
        find_at(hay, needle, i) >= 0 ==> match_at(hay, needle, find_at(hay, needle, i)),
        find_at(hay, needle, i) >= 0 ==> i <= find_at(hay, needle, i),
        forall|j: int|
            i <= j && (find_at(hay, needle, i) == -1 || j < find_at(hay, needle, i))
                ==> !match_at(hay, needle, j),
    decreases hay.len() - i,
{
    if needle.len() == 0 || i + needle.len() > hay.len() {
    } else if match_at(hay, needle, i) {
    } else {
        lemma_find_at_props(hay, needle, i + 1);
    }
}

/// A match at or after the starting index leaves `find_at` non-negative.
pub proof fn lemma_find_at_finds(hay: Seq<char>, needle: Seq<char>, i: int, j: int)
    requires
        0 <= i <= j,
        needle.len() > 0,
        match_at(hay, needle, j),
    ensures
        0 <= find_at(hay, needle, i) <= j,
    decreases j - i,
{
    if i == j {
    } else if match_at(hay, needle, i) {
    } else {
        lemma_find_at_finds(hay, needle, i + 1, j);
    }
}

/// Finds the first occurrence of `needle` in `hay`, by character position.
pub fn find_sub(hay: &str, needle: &str) -> (r: Option<usize>)
    ensures
        match r {
            Some(i) => find_at(hay@, needle@, 0) == i,
            None => find_at(hay@, needle@, 0) == -1,
        },
{
    let hay_len = hay.unicode_len();
    let needle_len = needle.unicode_len();
    if needle_len == 0 {
        return None;
    }
    let mut i: usize = 0;
    loop
        invariant
            i <= hay_len,
            hay_len == hay@.len(),
            needle_len == needle@.len(),
            needle_len > 0,
            find_at(hay@, needle@, 0) == find_at(hay@, needle@, i as int),
        decreases hay_len - i,
    {
        if hay_len - i < needle_len {
            proof {
                assert(find_at(hay@, needle@, i as int) == -1);
            }
            return None;
        }
        let mut j: usize = 0;
        let mut matched = true;
        while j < needle_len
            invariant
                j <= needle_len,
                i + needle_len <= hay_len,
                hay_len == hay@.len(),
                needle_len == needle@.len(),
                matched ==> hay@.subrange(i as int, i + j) == needle@.subrange(0, j as int),
                !matched ==> !match_at(hay@, needle@, i as int),
            decreases needle_len - j,
        {
            let hc = hay.get_char(i + j);
            let nc = needle.get_char(j);
            proof {
                if matched && hc == nc {
                    assert(hay@.subrange(i as int, i + j + 1) == hay@.subrange(i as int, i + j)
                        + seq![hay@[i + j]]);
                    assert(needle@.subrange(0, j + 1) == needle@.subrange(0, j as int)
                        + seq![needle@[j as int]]);
                }
                if matched && hc != nc {
                    assert(hay@.subrange(i as int, i + needle@.len() as int)[j as int]
                        == hay@[i + j]);
                    assert(!match_at(hay@, needle@, i as int));
                }
            }
            if hc != nc {
                matched = false;
            }
            j += 1;
        }
        if matched {
            proof {
                assert(hay@.subrange(i as int, i + needle@.len() as int)
                    == needle@.subrange(0, needle@.len() as int));
                assert(needle@.subrange(0, needle@.len() as int) == needle@);
                assert(match_at(hay@, needle@, i as int));
            }
            return Some(i);
        }
        proof {
            assert(find_at(hay@, needle@, i as int) == find_at(hay@, needle@, i + 1));
        }
        i += 1;
    }
}

/// Character-wise equality of two string slices.
pub fn str_eq(a: &str, b: &str) -> (r: bool)
    ensures
        r == (a@ == b@),
{
    let a_len = a.unicode_len();
    let b_len = b.unicode_len();
    if a_len != b_len {
        return false;
    }
    let mut i: usize = 0;
    while i < a_len
        invariant
            i <= a_len,
            a_len == a@.len(),
            b_len == b@.len(),
            a_len == b_len,
            forall|k: int| 0 <= k < i ==> a@[k] == b@[k],
        decreases a_len - i,
    {
        if a.get_char(i) != b.get_char(i) {
            return false;
        }
        i += 1;
    }
    proof {
        assert(a@ =~= b@);
    }
    true
}

/// `s` with the first occurrence of `needle` replaced by `rep`; `s` itself
/// when `needle` does not occur.
pub open spec fn replace_first(s: Seq<char>, needle: Seq<char>, rep: Seq<char>) -> Seq<char> {
    let j = first_match(s, needle);
    if j < 0 {
        s
    } else {
        s.subrange(0, j) + rep + s.subrange(j + needle.len() as int, s.len() as int)
    }
}

/// `s` with every occurrence of `needle` replaced by `rep`, scanning left to
/// right without re-examining replacement text, as `str::replace` does.
pub open spec fn replace_all(s: Seq<char>, needle: Seq<char>, rep: Seq<char>) -> Seq<char>
    decreases s.len(),
        via replace_all_decreases
{
    let j = first_match(s, needle);
    if j < 0 {
        s
    } else {
        s.subrange(0, j) + rep + replace_all(
            s.subrange(j + needle.len() as int, s.len() as int),
            needle,
            rep,
        )
    }
}

#[via_fn]
proof fn replace_all_decreases(s: Seq<char>, needle: Seq<char>, rep: Seq<char>) {
    if first_match(s, needle) >= 0 {
        if needle.len() > 0 {
            lemma_find_at_props(s, needle, 0);
        }
    }
}

/// Replaces the first occurrence of `needle` in `s` by `rep`.
pub fn replace_first_exec(s: &str, needle: &str, rep: &str) -> (r: String)
    ensures
        r@ == replace_first(s@, needle@, rep@),
{
    let s_len = s.unicode_len();
    let needle_len = needle.unicode_len();
    match find_sub(s, needle) {
        None => s.to_owned(),
        Some(j) => {
            proof {
                lemma_find_at_props(s@, needle@, 0);
            }
            let mut out = String::from_str(s.substring_char(0, j));
            out.append(rep);
            out.append(s.substring_char(j + needle_len, s_len));
            out
        },
    }
}

/// Replaces every occurrence of `needle` in `s` by `rep`, left to right.
pub fn replace_all_exec(s: &str, needle: &str, rep: &str) -> (r: String)
    requires
        needle@.len() > 0,
    ensures
        r@ == replace_all(s@, needle@, rep@),
{
    let needle_len = needle.unicode_len();
    let mut out = String::new();
    let mut cur = s.to_owned();
    loop
        invariant
            needle_len == needle@.len(),
            needle_len > 0,
            replace_all(s@, needle@, rep@) == out@ + replace_all(cur@, needle@, rep@),
        decreases cur@.len(),
    {
        let cur_len = cur.as_str().unicode_len();
        match find_sub(cur.as_str(), needle) {
            None => {
                out.append(cur.as_str());
                return out;
            },
            Some(j) => {
                proof {
                    lemma_find_at_props(cur@, needle@, 0);
                }
                let ghost prev = cur@;
                out.append(cur.as_str().substring_char(0, j));
                out.append(rep);
                let rest = String::from_str(
                    cur.as_str().substring_char(j + needle_len, cur_len),
                );
                cur = rest;
                proof {
                    assert(replace_all(prev, needle@, rep@) == prev.subrange(0, j as int) + rep@
                        + replace_all(cur@, needle@, rep@));
                }
            },
        }
    }
}

} // verus!
