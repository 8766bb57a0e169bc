//! Verified text utilities over `&str` views (`Seq<char>`): substring
//! search and containment. The rest of the library states its contracts
//! over the spec functions defined here.

use vstd::prelude::*;
use vstd::string::StrSliceExecFns;

verus! {

/// A substring of `s` equal to `sub` starts at index `i`.
pub open spec fn match_at(s: Seq<char>, sub: Seq<char>, i: int) -> bool {
    0 <= i && i + sub.len() <= s.len() && s.subrange(i, i + sub.len() as int) == sub
}

/// The leftmost index at or after `i` where `sub` occurs in `s`.
pub open spec fn first_match_from(s: Seq<char>, sub: Seq<char>, i: int) -> Option<int>
    recommends
        0 <= i <= s.len(),
    decreases s.len() - i + 1,
{
    if i < 0 || i + sub.len() > s.len() {
        None
    } else if s.subrange(i, i + sub.len() as int) == sub {
        Some(i)
    } else {
        first_match_from(s, sub, i + 1)
    }
}

/// The leftmost index where `sub` occurs in `s`.
pub open spec fn first_match(s: Seq<char>, sub: Seq<char>) -> Option<int> {
    first_match_from(s, sub, 0)
}

/// `s` contains `sub` as a contiguous substring.
pub open spec fn contains_sub(s: Seq<char>, sub: Seq<char>) -> bool {
    exists|i: int| match_at(s, sub, i)
}

pub proof fn lemma_first_match_is_match(s: Seq<char>, sub: Seq<char>, i: int)
    requires
        0 <= i <= s.len(),
    ensures
        first_match_from(s, sub, i) matches Some(j) ==> i <= j && match_at(s, sub, j),
        first_match_from(s, sub, i) is None ==> forall|j: int| i <= j ==> !match_at(s, sub, j),
    decreases s.len() - i,
{
    if i + sub.len() <= s.len() && s.subrange(i, i + sub.len() as int) != sub {
        if sub.len() == 0 {
            assert(s.subrange(i, i + sub.len() as int) =~= sub);
        }
        lemma_first_match_is_match(s, sub, i + 1);
    }
}

/// `contains_sub` agrees with `first_match`.
pub proof fn lemma_contains_iff_first_match(s: Seq<char>, sub: Seq<char>)
    ensures
        contains_sub(s, sub) <==> first_match(s, sub) is Some,
{
    lemma_first_match_is_match(s, sub, 0);
    if first_match(s, sub) is Some {
        let j = first_match(s, sub)->0;
        assert(match_at(s, sub, j));
    }
}

/// Returns the index of the leftmost occurrence of `sub` in `s`, if any.
pub fn find_str(s: &str, sub: &str) -> (r: Option<usize>)
    ensures
        match r {
            Some(i) => first_match(s@, sub@) == Some(i as int),
            None => first_match(s@, sub@) is None,
        },
{
    let n: usize = s.unicode_len();
    let m: usize = sub.unicode_len();
    if m > n {
        return None;
    }
    if m == 0 {
        proof {
            assert(s@.subrange(0, 0) =~= sub@);
        }
        return Some(0);
    }
    let mut i: usize = 0;
    while i <= n - m
        invariant
            1 <= m <= n,
            i <= n - m + 1,
            n == s@.len(),
            m == sub@.len(),
            first_match(s@, sub@) == first_match_from(s@, sub@, i as int),
        decreases n - i,
    {
        let mut j: usize = 0;
        let mut same: bool = true;
        proof {
            assert(s@.subrange(i as int, i as int) =~= sub@.subrange(0, 0));
        }
        while j < m
            invariant
                j <= m,
                i + m <= n,
                n == s@.len(),
                m == sub@.len(),
                same <==> s@.subrange(i as int, (i + j) as int) == sub@.subrange(0, j as int),
            decreases m - j,
        {
            let a = s.get_char(i + j);
            let b = sub.get_char(j);
            proof {
                let sext = s@.subrange(i as int, (i + j + 1) as int);
                let bext = sub@.subrange(0, (j + 1) as int);
                assert(sext.drop_last() =~= s@.subrange(i as int, (i + j) as int));
                assert(bext.drop_last() =~= sub@.subrange(0, j as int));
                assert(sext.last() == a);
                assert(bext.last() == b);
                if same && a == b {
                    assert(sext =~= bext);
                }
                if sext == bext {
                    assert(sext.drop_last() == bext.drop_last());
                    assert(sext.last() == bext.last());
                }
            }
            if a != b {
                same = false;
            }
            j = j + 1;
        }
        proof {
            assert(sub@.subrange(0, m as int) =~= sub@);
        }
        if same {
            return Some(i);
        }
        i = i + 1;
    }
    None
}

/// Returns whether `s` contains `sub` as a substring.
pub fn contains_str(s: &str, sub: &str) -> (r: bool)
    ensures
        r == contains_sub(s@, sub@),
{
    let found = find_str(s, sub);
    proof {
        lemma_contains_iff_first_match(s@, sub@);
    }
    found.is_some()
}

/// `p` is a prefix of `q`.
pub open spec fn prefix_of(p: Seq<char>, q: Seq<char>) -> bool {
    p.len() <= q.len() && q.subrange(0, p.len() as int) == p
}

pub proof fn lemma_prefix_transitive(a: Seq<char>, b: Seq<char>, c: Seq<char>)
    requires
        prefix_of(a, b),
        prefix_of(b, c),
    ensures
        prefix_of(a, c),
{
    assert(c.subrange(0, a.len() as int) =~= c.subrange(0, b.len() as int).subrange(
        0,
        a.len() as int,
    ));
}

/// A substring of a prefix is a substring of the whole.
pub proof fn lemma_contains_sub_of_prefix(p: Seq<char>, q: Seq<char>, sub: Seq<char>)
    requires
        prefix_of(p, q),
        contains_sub(p, sub),
    ensures
        contains_sub(q, sub),
{
    let i = choose|i: int| match_at(p, sub, i);
    assert forall|j: int| 0 <= j < p.len() implies q[j] == p[j] by {
        assert(q.subrange(0, p.len() as int)[j] == q[j]);
    }
    assert(q.subrange(i, i + sub.len() as int) =~= p.subrange(i, i + sub.len() as int));
    assert(match_at(q, sub, i));
}

/// `c` is a Unicode whitespace character (the `White_Space` set that
/// `str::trim` removes).
pub open spec fn is_space(c: char) -> bool {
    let u = c as u32;
    u == 0x20 || (0x09 <= u && u <= 0x0d) || u == 0x85 || u == 0xa0 || u == 0x1680 || (0x2000 <= u
        && u <= 0x200a) || u == 0x2028 || u == 0x2029 || u == 0x202f || u == 0x205f || u == 0x3000
}

/// Returns whether `c` is a Unicode whitespace character.
pub fn is_space_char(c: char) -> (r: bool)
    ensures
        r == is_space(c),
{
    let u = c as u32;
    u == 0x20 || (0x09 <= u && u <= 0x0d) || u == 0x85 || u == 0xa0 || u == 0x1680 || (0x2000 <= u
        && u <= 0x200a) || u == 0x2028 || u == 0x2029 || u == 0x202f || u == 0x205f || u == 0x3000
}

/// The index of the first non-whitespace character at or after `i`
/// (`s.len()` if there is none).
pub open spec fn trim_start_idx(s: Seq<char>, i: int) -> int
    decreases s.len() - i,
{
    if i < 0 {
        0
    } else if i >= s.len() {
        s.len() as int
    } else if !is_space(s[i]) {
        i
    } else {
        trim_start_idx(s, i + 1)
    }
}

/// One past the index of the last non-whitespace character before `i`
/// (`0` if there is none).
pub open spec fn trim_end_idx(s: Seq<char>, i: int) -> int
    decreases i,
{
    if i <= 0 {
        0
    } else if i > s.len() {
        s.len() as int
    } else if !is_space(s[i - 1]) {
        i
    } else {
        trim_end_idx(s, i - 1)
    }
}

pub proof fn lemma_trim_start_spaces(s: Seq<char>, i: int)
    requires
        0 <= i <= s.len(),
    ensures
        i <= trim_start_idx(s, i) <= s.len(),
        forall|j: int| i <= j < trim_start_idx(s, i) ==> is_space(s[j]),
        trim_start_idx(s, i) < s.len() ==> !is_space(s[trim_start_idx(s, i)]),
    decreases s.len() - i,
{
    if i < s.len() && is_space(s[i]) {
        lemma_trim_start_spaces(s, i + 1);
    }
}

pub proof fn lemma_trim_end_all_space(s: Seq<char>, i: int)
    requires
        0 <= i <= s.len(),
        forall|j: int| 0 <= j < i ==> is_space(s[j]),
    ensures
        trim_end_idx(s, i) == 0,
    decreases i,
{
    if i > 0 {
        lemma_trim_end_all_space(s, i - 1);
    }
}

/// `s` without leading and trailing whitespace.
pub open spec fn trim_spec(s: Seq<char>) -> Seq<char> {
    let a = trim_start_idx(s, 0);
    let b = trim_end_idx(s, s.len() as int);
    if a <= b {
        s.subrange(a, b)
    } else {
        Seq::empty()
    }
}

/// Returns `s` without leading and trailing whitespace.
pub fn trim_str<'a>(s: &'a str) -> (r: &'a str)
    ensures
        r@ == trim_spec(s@),
{
    let n: usize = s.unicode_len();
    let mut a: usize = 0;
    while a < n
        invariant_except_break
            a <= n,
            n == s@.len(),
            trim_start_idx(s@, 0) == trim_start_idx(s@, a as int),
        ensures
            a <= n,
            n == s@.len(),
            a as int == trim_start_idx(s@, 0),
        decreases n - a,
    {
        if !is_space_char(s.get_char(a)) {
            break ;
        }
        a = a + 1;
    }
    proof {
        lemma_trim_start_spaces(s@, 0);
    }
    if a == n {
        proof {
            reveal_strlit("");
            lemma_trim_end_all_space(s@, n as int);
            assert(""@ =~= trim_spec(s@));
        }
        return "";
    }
    let mut b: usize = n;
    while b > 0
        invariant_except_break
            a < b <= n,
            n == s@.len(),
            !is_space(s@[a as int]),
            trim_end_idx(s@, n as int) == trim_end_idx(s@, b as int),
        ensures
            a < b <= n,
            b as int == trim_end_idx(s@, n as int),
        decreases b,
    {
        if !is_space_char(s.get_char(b - 1)) {
            break ;
        }
        b = b - 1;
    }
    s.substring_char(a, b)
}

/// The last index before `i` where `c` occurs in `s`.
pub open spec fn last_index_of(s: Seq<char>, c: char, i: int) -> Option<int>
    decreases i,
{
    if i <= 0 || i > s.len() {
        None
    } else if s[i - 1] == c {
        Some(i - 1)
    } else {
        last_index_of(s, c, i - 1)
    }
}

pub proof fn lemma_last_index_bounds(s: Seq<char>, c: char, i: int)
    ensures
        last_index_of(s, c, i) matches Some(k) ==> 0 <= k < i && k < s.len() && s[k] == c,
    decreases i,
{
    if 0 < i <= s.len() && s[i - 1] != c {
        lemma_last_index_bounds(s, c, i - 1);
    }
}

/// Returns the index of the last occurrence of `c` in `s`, if any.
pub fn last_char_index(s: &str, c: char) -> (r: Option<usize>)
    ensures
        match r {
            Some(k) => last_index_of(s@, c, s@.len() as int) == Some(k as int),
            None => last_index_of(s@, c, s@.len() as int) is None,
        },
{
    let n: usize = s.unicode_len();
    let mut i: usize = n;
    while i > 0
        invariant
            i <= n,
            n == s@.len(),
            last_index_of(s@, c, n as int) == last_index_of(s@, c, i as int),
        decreases i,
    {
        if s.get_char(i - 1) == c {
            return Some(i - 1);
        }
        i = i - 1;
    }
    None
}

/// `s` ends with `suffix`.
pub open spec fn ends_with(s: Seq<char>, suffix: Seq<char>) -> bool {
    s.len() >= suffix.len() && s.subrange(s.len() - suffix.len(), s.len() as int) == suffix
}

/// Returns whether `s` ends with `suffix`.
pub fn ends_with_str(s: &str, suffix: &str) -> (r: bool)
    ensures
        r == ends_with(s@, suffix@),
{
    let n: usize = s.unicode_len();
    let m: usize = suffix.unicode_len();
    if m > n {
        return false;
    }
    let mut j: usize = 0;
    let mut same: bool = true;
    proof {
        assert(s@.subrange((n - m) as int, (n - m) as int) =~= suffix@.subrange(0, 0));
    }
    while j < m
        invariant
            j <= m <= n,
            n == s@.len(),
            m == suffix@.len(),
            same <==> s@.subrange((n - m) as int, (n - m + j) as int) == suffix@.subrange(
                0,
                j as int,
            ),
        decreases m - j,
    {
        let a = s.get_char(n - m + j);
        let b = suffix.get_char(j);
        proof {
            let sext = s@.subrange((n - m) as int, (n - m + j + 1) as int);
            let bext = suffix@.subrange(0, (j + 1) as int);
            assert(sext.drop_last() =~= s@.subrange((n - m) as int, (n - m + j) as int));
            assert(bext.drop_last() =~= suffix@.subrange(0, j as int));
            assert(sext.last() == a);
            assert(bext.last() == b);
            if same && a == b {
                assert(sext =~= bext);
            }
            if sext == bext {
                assert(sext.drop_last() == bext.drop_last());
                assert(sext.last() == bext.last());
            }
        }
        if a != b {
            same = false;
        }
        j = j + 1;
    }
    proof {
        assert(suffix@.subrange(0, m as int) =~= suffix@);
    }
    same
}

/// Returns whether two string slices hold the same characters.
pub fn str_eq(a: &str, b: &str) -> (r: bool)
    ensures
        r == (a@ == b@),
{
    let n: usize = a.unicode_len();
    let m: usize = b.unicode_len();
    if m != n {
        return false;
    }
    let r = ends_with_str(a, b);
    proof {
        if ends_with(a@, b@) {
            assert(a@.subrange(0, n as int) =~= a@);
        } else {
            assert(a@.subrange(a@.len() - b@.len(), a@.len() as int) =~= a@);
        }
    }
    r
}

} // verus!
