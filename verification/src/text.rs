//! Character-level text utilities: moving between `str`/`String` and
//! `Vec<char>`, comparisons, and substring search.

use vstd::prelude::*;

verus! {

/// The characters of a string slice, in order.
pub fn chars_of(s: &str) -> (r: Vec<char>)
    ensures
        r@ == s@,
{
    let n: usize = s.unicode_len();
    let mut out: Vec<char> = Vec::new();
    let mut i: usize = 0;
    while i < n
        invariant
            n == s@.len(),
            0 <= i <= n,
            out@ == s@.subrange(0, i as int),
        decreases n - i,
    {
        out.push(s.get_char(i));
        proof {
            assert(out@ =~= s@.subrange(0, i + 1));
        }
        i = i + 1;
    }
    proof {
        assert(s@.subrange(0, n as int) =~= s@);
    }
    out
}

/// Relies on `std::iter::Iterator::collect` for `String` from `char`s: the
/// built string holds exactly the given characters in order.
#[verifier::external_body]
pub fn chars_to_string(cs: &Vec<char>) -> (r: String)
    ensures
        r@ == cs@,
{
    cs.iter().collect()
}

/// Whether a string slice holds exactly the given characters.
pub fn str_eq_chars(s: &str, cs: &Vec<char>) -> (r: bool)
    ensures
        r == (s@ == cs@),
{
    let n: usize = s.unicode_len();
    if n != cs.len() {
        return false;
    }
    let mut i: usize = 0;
    while i < n
        invariant
            n == s@.len(),
            cs@.len() == n,
            0 <= i <= n,
            forall|j: int| 0 <= j < i ==> s@[j] == cs@[j],
        decreases n - i,
    {
        if s.get_char(i) != cs[i] {
            return false;
        }
        i = i + 1;
    }
    proof {
        assert(s@ =~= cs@);
    }
    true
}

/// Whether `needle` occurs in `hay` starting at `at`.
pub open spec fn occurs_at(hay: Seq<char>, needle: Seq<char>, at: int) -> bool {
    &&& 0 <= at
    &&& at + needle.len() <= hay.len()
    &&& hay.subrange(at, at + needle.len()) == needle
}

/// Whether `needle` occurs anywhere in `hay`.
pub open spec fn contains_seq(hay: Seq<char>, needle: Seq<char>) -> bool {
    exists|i: int| occurs_at(hay, needle, i)
}

/// Whether `hay` starts with `needle`.
pub open spec fn starts_with_seq(hay: Seq<char>, needle: Seq<char>) -> bool {
    occurs_at(hay, needle, 0)
}

/// Whether `hay` ends with `needle`.
pub open spec fn ends_with_seq(hay: Seq<char>, needle: Seq<char>) -> bool {
    occurs_at(hay, needle, hay.len() - needle.len())
}

/// Whether `needle` occurs in `hay` at position `at` (executable form).
#[verifier::loop_isolation(false)]
pub fn chars_occur_at(hay: &Vec<char>, needle: &Vec<char>, at: usize) -> (r: bool)
    requires
        at + needle@.len() <= hay@.len(),
    ensures
        r == occurs_at(hay@, needle@, at as int),
{
    let hn: usize = hay.len();
    let m: usize = needle.len();
    let mut j: usize = 0;
    while j < m
        invariant
            hn == hay@.len(),
            m == needle@.len(),
            at + m <= hay@.len(),
            0 <= j <= m,
            forall|k: int| 0 <= k < j ==> hay@[at + k] == needle@[k],
        decreases m - j,
    {
        if hay[at + j] != needle[j] {
            assert(hay@.subrange(at as int, at + m) != needle@) by {
                assert(hay@.subrange(at as int, at + m)[j as int] != needle@[j as int]);
            }
            return false;
        }
        j = j + 1;
    }
    proof {
        assert(hay@.subrange(at as int, at + m) =~= needle@);
    }
    true
}

/// First position at or after `from` where `needle` occurs in `hay`, if any.
#[verifier::loop_isolation(false)]
pub fn find_from(hay: &Vec<char>, needle: &Vec<char>, from: usize) -> (r: Option<usize>)
    requires
        from <= hay@.len(),
    ensures
        match r {
            Some(i) => {
                &&& from <= i
                &&& occurs_at(hay@, needle@, i as int)
                &&& forall|k: int| from <= k < i ==> !occurs_at(hay@, needle@, k)
            },
            None => forall|k: int| from <= k ==> !occurs_at(hay@, needle@, k),
        },
{
    let n: usize = hay.len();
    let m: usize = needle.len();
    if m > n || from > n - m {
        return None;
    }
    if m == 0 {
        proof {
            assert(hay@.subrange(from as int, from as int) =~= needle@);
        }
        return Some(from);
    }
    let mut i: usize = from;
    while i <= n - m
        invariant
            n == hay@.len(),
            m == needle@.len(),
            1 <= m <= n,
            from <= i,
            i <= n - m + 1,
            forall|k: int| from <= k < i ==> !occurs_at(hay@, needle@, k),
        decreases n - i,
    {
        if chars_occur_at(hay, needle, i) {
            return Some(i);
        }
        i = i + 1;
    }
    None
}

/// Whether `needle` occurs anywhere in `hay` (executable form).
pub fn chars_contain(hay: &Vec<char>, needle: &Vec<char>) -> (r: bool)
    ensures
        r == contains_seq(hay@, needle@),
{
    match find_from(hay, needle, 0) {
        Some(_) => true,
        None => false,
    }
}

/// Whether `hay` starts with `needle` (executable form).
pub fn chars_start_with(hay: &Vec<char>, needle: &Vec<char>) -> (r: bool)
    ensures
        r == starts_with_seq(hay@, needle@),
{
    if needle.len() > hay.len() {
        return false;
    }
    chars_occur_at(hay, needle, 0)
}

/// Whether `hay` ends with `needle` (executable form).
pub fn chars_end_with(hay: &Vec<char>, needle: &Vec<char>) -> (r: bool)
    ensures
        r == ends_with_seq(hay@, needle@),
{
    if needle.len() > hay.len() {
        return false;
    }
    chars_occur_at(hay, needle, hay.len() - needle.len())
}

/// The characters of `cs[lo..hi]`, copied out.
#[verifier::loop_isolation(false)]
pub fn slice_chars(cs: &Vec<char>, lo: usize, hi: usize) -> (r: Vec<char>)
    requires
        lo <= hi <= cs@.len(),
    ensures
        r@ == cs@.subrange(lo as int, hi as int),
{
    let mut out: Vec<char> = Vec::new();
    let mut i: usize = lo;
    while i < hi
        invariant
            lo <= i <= hi,
            out@ == cs@.subrange(lo as int, i as int),
        decreases hi - i,
    {
        out.push(cs[i]);
        proof {
            assert(cs@.subrange(lo as int, i as int).push(cs@[i as int]) =~= cs@.subrange(
                lo as int,
                i as int + 1,
            ));
        }
        i = i + 1;
    }
    out
}

} // verus!
