//! Verified scanning primitives over strings, specified over `Seq<char>`.

use vstd::prelude::*;

verus! {

/// First index of `c` in `s`, or -1 when `c` does not occur.
pub open spec fn ffirst(s: Seq<char>, c: char) -> int
    decreases s.len(),
{
    if s.len() == 0 {
        -1
    } else if s[0] == c {
        0
    } else {
        let r = ffirst(s.subrange(1, s.len() as int), c);
        if r == -1 {
            -1
        } else {
            r + 1
        }
    }
}

/// Last index of `c` in `s`, or -1 when `c` does not occur.
pub open spec fn rlast(s: Seq<char>, c: char) -> int
    decreases s.len(),
{
    if s.len() == 0 {
        -1
    } else if s[s.len() - 1] == c {
        s.len() - 1
    } else {
        rlast(s.subrange(0, s.len() - 1), c)
    }
}

pub open spec fn contains_char(s: Seq<char>, c: char) -> bool {
    exists|i: int| 0 <= i < s.len() && s[i] == c
}

/// The pattern `p` occurs in `s` starting at index `i`.
pub open spec fn match_at(s: Seq<char>, p: Seq<char>, i: int) -> bool {
    &&& 0 <= i
    &&& i + p.len() <= s.len()
    &&& s.subrange(i, i + p.len() as int) == p
}

/// First index where `p` occurs in `s`, or -1 when it never does.
pub open spec fn find_sub(s: Seq<char>, p: Seq<char>) -> int
    decreases s.len(),
{
    if p.len() > s.len() {
        -1
    } else if s.subrange(0, p.len() as int) == p {
        0
    } else if s.len() == 0 {
        -1
    } else {
        let r = find_sub(s.subrange(1, s.len() as int), p);
        if r == -1 {
            -1
        } else {
            r + 1
        }
    }
}

pub open spec fn contains_seq(s: Seq<char>, p: Seq<char>) -> bool {
    find_sub(s, p) >= 0
}

/// `s` with every leading occurrence of the character `c` removed.
pub open spec fn trim_leading(s: Seq<char>, c: char) -> Seq<char>
    decreases s.len(),
{
    if s.len() > 0 && s[0] == c {
        trim_leading(s.subrange(1, s.len() as int), c)
    } else {
        s
    }
}

pub proof fn lemma_ffirst_is(s: Seq<char>, c: char, i: int)
    requires
        0 <= i < s.len(),
        s[i] == c,
        forall|j: int| 0 <= j < i ==> s[j] != c,
    ensures
        ffirst(s, c) == i,
    decreases s.len(),
{
    if i == 0 {
    } else {
        let t = s.subrange(1, s.len() as int);
        assert(t[i - 1] == c);
        assert(forall|j: int| 0 <= j < i - 1 ==> t[j] == s[j + 1] && t[j] != c);
        lemma_ffirst_is(t, c, i - 1);
    }
}

pub proof fn lemma_ffirst_range(s: Seq<char>, c: char)
    ensures
        ffirst(s, c) == -1 || 0 <= ffirst(s, c) < s.len(),
    decreases s.len(),
{
    if s.len() > 0 && s[0] != c {
        lemma_ffirst_range(s.subrange(1, s.len() as int), c);
    }
}

pub proof fn lemma_ffirst_none(s: Seq<char>, c: char)
    requires
        forall|j: int| 0 <= j < s.len() ==> s[j] != c,
    ensures
        ffirst(s, c) == -1,
    decreases s.len(),
{
    if s.len() > 0 {
        let t = s.subrange(1, s.len() as int);
        assert(forall|j: int| 0 <= j < t.len() ==> t[j] == s[j + 1] && t[j] != c);
        lemma_ffirst_none(t, c);
    }
}

pub proof fn lemma_rlast_is(s: Seq<char>, c: char, i: int)
    requires
        0 <= i < s.len(),
        s[i] == c,
        forall|j: int| i < j < s.len() ==> s[j] != c,
    ensures
        rlast(s, c) == i,
    decreases s.len(),
{
    if i == s.len() - 1 {
    } else {
        let t = s.subrange(0, s.len() - 1);
        assert(t[i] == c);
        assert(forall|j: int| i < j < t.len() ==> t[j] == s[j] && t[j] != c);
        lemma_rlast_is(t, c, i);
    }
}

pub proof fn lemma_rlast_none(s: Seq<char>, c: char)
    requires
        forall|j: int| 0 <= j < s.len() ==> s[j] != c,
    ensures
        rlast(s, c) == -1,
    decreases s.len(),
{
    if s.len() > 0 {
        let t = s.subrange(0, s.len() - 1);
        assert(forall|j: int| 0 <= j < t.len() ==> t[j] == s[j] && t[j] != c);
        lemma_rlast_none(t, c);
    }
}

proof fn lemma_match_at_shift(s: Seq<char>, p: Seq<char>, i: int)
    requires
        s.len() > 0,
        i >= 1,
    ensures
        match_at(s, p, i) == match_at(s.subrange(1, s.len() as int), p, i - 1),
{
    let t = s.subrange(1, s.len() as int);
    if match_at(s, p, i) {
        assert(t.subrange(i - 1, i - 1 + p.len() as int) =~= s.subrange(i, i + p.len() as int));
    } else if match_at(t, p, i - 1) {
        assert(s.subrange(i, i + p.len() as int) =~= t.subrange(i - 1, i - 1 + p.len() as int));
    }
}

pub proof fn lemma_find_sub_is(s: Seq<char>, p: Seq<char>, i: int)
    requires
        match_at(s, p, i),
        forall|j: int| 0 <= j < i ==> !match_at(s, p, j),
    ensures
        find_sub(s, p) == i,
    decreases s.len(),
{
    if i == 0 {
    } else {
        assert(!match_at(s, p, 0));
        assert(s.len() > 0);
        let t = s.subrange(1, s.len() as int);
        lemma_match_at_shift(s, p, i);
        assert forall|j: int| 0 <= j < i - 1 implies !match_at(t, p, j) by {
            lemma_match_at_shift(s, p, j + 1);
        }
        lemma_find_sub_is(t, p, i - 1);
    }
}

pub proof fn lemma_find_sub_none(s: Seq<char>, p: Seq<char>)
    requires
        forall|j: int| !match_at(s, p, j),
    ensures
        find_sub(s, p) == -1,
    decreases s.len(),
{
    assert(!match_at(s, p, 0));
    if p.len() <= s.len() && s.len() > 0 {
        let t = s.subrange(1, s.len() as int);
        assert forall|j: int| !match_at(t, p, j) by {
            if 0 <= j {
                lemma_match_at_shift(s, p, j + 1);
            }
        }
        lemma_find_sub_none(t, p);
    }
}

/// The found occurrence is inside the string, and none comes before it.
pub proof fn lemma_find_sub_props(s: Seq<char>, p: Seq<char>)
    ensures
        find_sub(s, p) >= -1,
        find_sub(s, p) >= 0 ==> match_at(s, p, find_sub(s, p)) && (forall|j: int|
            0 <= j < find_sub(s, p) ==> !match_at(s, p, j)),
        find_sub(s, p) == -1 ==> forall|j: int| !match_at(s, p, j),
    decreases s.len(),
{
    let r = find_sub(s, p);
    if p.len() > s.len() {
        assert(forall|j: int| !match_at(s, p, j));
    } else if s.subrange(0, p.len() as int) == p {
    } else if s.len() == 0 {
        assert(forall|j: int| !match_at(s, p, j));
    } else {
        let t = s.subrange(1, s.len() as int);
        lemma_find_sub_props(t, p);
        assert(!match_at(s, p, 0));
        if find_sub(t, p) == -1 {
            assert forall|j: int| !match_at(s, p, j) by {
                if j >= 1 {
                    lemma_match_at_shift(s, p, j);
                }
            }
        } else {
            let rt = find_sub(t, p);
            lemma_match_at_shift(s, p, rt + 1);
            assert forall|j: int| 0 <= j < rt + 1 implies !match_at(s, p, j) by {
                if j >= 1 {
                    lemma_match_at_shift(s, p, j);
                }
            }
        }
    }
}

/// A match found in either side of a concatenation is a match in the whole.
pub proof fn lemma_contains_concat_left(a: Seq<char>, b: Seq<char>, p: Seq<char>)
    requires
        contains_seq(a, p),
    ensures
        contains_seq(a + b, p),
{
    lemma_find_sub_props(a, p);
    let i = find_sub(a, p);
    assert((a + b).subrange(i, i + p.len() as int) =~= a.subrange(i, i + p.len() as int));
    assert(match_at(a + b, p, i));
    lemma_match_at_gives_contains(a + b, p, i);
}

pub proof fn lemma_contains_concat_right(a: Seq<char>, b: Seq<char>, p: Seq<char>)
    requires
        contains_seq(b, p),
    ensures
        contains_seq(a + b, p),
{
    lemma_find_sub_props(b, p);
    let i = find_sub(b, p);
    assert((a + b).subrange(a.len() + i, a.len() + i + p.len() as int) =~= b.subrange(
        i,
        i + p.len() as int,
    ));
    assert(match_at(a + b, p, a.len() + i));
    lemma_match_at_gives_contains(a + b, p, a.len() + i);
}

/// Any single occurrence shows `contains_seq`.
pub proof fn lemma_match_at_gives_contains(s: Seq<char>, p: Seq<char>, i: int)
    requires
        match_at(s, p, i),
    ensures
        contains_seq(s, p),
{
    lemma_find_sub_props(s, p);
    if find_sub(s, p) == -1 {
        assert(!match_at(s, p, i));
    }
}

/// Compares the pattern `p` against `s` at position `i`.
fn eq_at(s: &str, p: &str, i: usize) -> (r: bool)
    requires
        i + p@.len() <= s@.len(),
    ensures
        r == match_at(s@, p@, i as int),
{
    let plen: usize = p.unicode_len();
    let slen: usize = s.unicode_len();
    let mut j: usize = 0;
    while j < plen
        invariant
            0 <= j <= plen,
            plen == p@.len(),
            slen == s@.len(),
            i + plen <= s@.len(),
            forall|k: int| 0 <= k < j ==> s@[i + k] == p@[k],
        decreases plen - j,
    {
        if s.get_char(i + j) != p.get_char(j) {
            proof {
                let sub = s@.subrange(i as int, i + plen);
                if sub == p@ {
                    assert(sub[j as int] == s@[i + j]);
                }
            }
            return false;
        }
        j = j + 1;
    }
    proof {
        assert(s@.subrange(i as int, i + plen) =~= p@);
    }
    true
}

/// Whether `p` is a prefix of `s`.
pub fn str_starts_with(s: &str, p: &str) -> (r: bool)
    ensures
        r == match_at(s@, p@, 0),
{
    let plen: usize = p.unicode_len();
    let slen: usize = s.unicode_len();
    if plen > slen {
        return false;
    }
    eq_at(s, p, 0)
}

/// Whether the two strings hold the same characters.
pub fn str_eq(a: &str, b: &str) -> (r: bool)
    ensures
        r == (a@ == b@),
{
    let alen: usize = a.unicode_len();
    let blen: usize = b.unicode_len();
    if alen != blen {
        return false;
    }
    let r = eq_at(a, b, 0);
    proof {
        if match_at(a@, b@, 0) {
            assert(a@.subrange(0, b@.len() as int) =~= a@);
        } else {
            if a@ == b@ {
                assert(a@.subrange(0, b@.len() as int) =~= b@);
            }
        }
    }
    r
}

/// First occurrence of the character `c` in `s`.
pub fn str_find_char(s: &str, c: char) -> (r: Option<usize>)
    ensures
        match r {
            Some(i) => ffirst(s@, c) == i as int && i < s@.len() && s@[i as int] == c,
            None => ffirst(s@, c) == -1 && !contains_char(s@, c),
        },
{
    let slen: usize = s.unicode_len();
    let mut i: usize = 0;
    while i < slen
        invariant
            0 <= i <= slen,
            slen == s@.len(),
            forall|j: int| 0 <= j < i ==> s@[j] != c,
        decreases slen - i,
    {
        if s.get_char(i) == c {
            proof {
                lemma_ffirst_is(s@, c, i as int);
            }
            return Some(i);
        }
        i = i + 1;
    }
    proof {
        lemma_ffirst_none(s@, c);
    }
    None
}

/// Last occurrence of the character `c` in `s`.
pub fn str_rfind_char(s: &str, c: char) -> (r: Option<usize>)
    ensures
        match r {
            Some(i) => rlast(s@, c) == i as int && i < s@.len() && s@[i as int] == c,
            None => rlast(s@, c) == -1 && !contains_char(s@, c),
        },
{
    let slen: usize = s.unicode_len();
    let mut i: usize = slen;
    while i > 0
        invariant
            0 <= i <= slen,
            slen == s@.len(),
            forall|j: int| i <= j < slen ==> s@[j] != c,
        decreases i,
    {
        i = i - 1;
        if s.get_char(i) == c {
            proof {
                lemma_rlast_is(s@, c, i as int);
            }
            return Some(i);
        }
    }
    proof {
        lemma_rlast_none(s@, c);
    }
    None
}

/// Whether `c` occurs anywhere in `s`.
pub fn str_contains_char(s: &str, c: char) -> (r: bool)
    ensures
        r == contains_char(s@, c),
{
    match str_find_char(s, c) {
        Some(_) => true,
        None => false,
    }
}

/// First occurrence of the pattern `p` in `s`.
pub fn str_find_sub(s: &str, p: &str) -> (r: Option<usize>)
    ensures
        match r {
            Some(i) => find_sub(s@, p@) == i as int && match_at(s@, p@, i as int),
            None => find_sub(s@, p@) == -1 && forall|j: int| !match_at(s@, p@, j),
        },
{
    let plen: usize = p.unicode_len();
    let slen: usize = s.unicode_len();
    if plen > slen {
        proof {
            assert(forall|j: int| !match_at(s@, p@, j));
            lemma_find_sub_none(s@, p@);
        }
        return None;
    }
    if plen == 0 {
        proof {
            assert(s@.subrange(0, 0) =~= p@);
            lemma_find_sub_is(s@, p@, 0);
        }
        return Some(0);
    }
    let last: usize = slen - plen;
    let mut i: usize = 0;
    while i <= last
        invariant
            0 <= i <= last + 1,
            last == slen - plen,
            0 < plen <= slen,
            plen == p@.len(),
            slen == s@.len(),
            forall|j: int| 0 <= j < i ==> !match_at(s@, p@, j),
        decreases last + 1 - i,
    {
        if eq_at(s, p, i) {
            proof {
                lemma_find_sub_is(s@, p@, i as int);
            }
            return Some(i);
        }
        i = i + 1;
    }
    proof {
        assert(forall|j: int| !match_at(s@, p@, j));
        lemma_find_sub_none(s@, p@);
    }
    None
}

/// Whether `p` occurs anywhere in `s`.
pub fn str_contains_sub(s: &str, p: &str) -> (r: bool)
    ensures
        r == contains_seq(s@, p@),
{
    match str_find_sub(s, p) {
        Some(_) => true,
        None => false,
    }
}

proof fn lemma_trim_leading_skip(s: Seq<char>, c: char, k: int)
    requires
        0 <= k <= s.len(),
        forall|j: int| 0 <= j < k ==> s[j] == c,
        k == s.len() || s[k] != c,
    ensures
        trim_leading(s, c) == s.subrange(k, s.len() as int),
    decreases k,
{
    if k == 0 {
        assert(s.subrange(0, s.len() as int) =~= s);
    } else {
        let t = s.subrange(1, s.len() as int);
        lemma_trim_leading_skip(t, c, k - 1);
        assert(t.subrange(k - 1, t.len() as int) =~= s.subrange(k, s.len() as int));
    }
}

/// `s` with every leading occurrence of `c` removed.
pub fn str_trim_leading<'a>(s: &'a str, c: char) -> (r: &'a str)
    ensures
        r@ == trim_leading(s@, c),
{
    let slen: usize = s.unicode_len();
    let mut i: usize = 0;
    while i < slen && s.get_char(i) == c
        invariant
            0 <= i <= slen,
            slen == s@.len(),
            forall|j: int| 0 <= j < i ==> s@[j] == c,
        decreases slen - i,
    {
        i = i + 1;
    }
    proof {
        lemma_trim_leading_skip(s@, c, i as int);
    }
    s.substring_char(i, slen)
}

} // verus!
