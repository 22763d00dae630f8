//! # Text of the command messages
//!
//! The names of commands, statuses and levels travel as AMF0 strings. These
//! functions compare and cut such strings by their characters.
use vstd::prelude::*;
use vstd::string::StrSliceExecFns;

verus! {

/// `prefix` stands at the start of `s`.
pub open spec fn starts_with_spec(s: Seq<char>, prefix: Seq<char>) -> bool {
    prefix.len() <= s.len() && s.subrange(0, prefix.len() as int) == prefix
}

/// The index of the first `c` in `s`, or -1 where there is none.
pub open spec fn first_index_of(s: Seq<char>, c: char) -> int
    decreases s.len(),
{
    if s.len() == 0 {
        -1
    } else if s[0] == c {
        0
    } else {
        let i = first_index_of(s.drop_first(), c);
        if i < 0 {
            -1
        } else {
            i + 1
        }
    }
}

/// What follows the first `.` of `s`, where `s` has one.
pub open spec fn after_first_dot(s: Seq<char>) -> Option<Seq<char>> {
    let i = first_index_of(s, '.');
    if i < 0 {
        None
    } else {
        Some(s.subrange(i + 1, s.len() as int))
    }
}

/// `first_index_of` gives -1 or the index of the first occurrence.
pub proof fn lemma_first_index_of(s: Seq<char>, c: char)
    ensures
        -1 <= first_index_of(s, c) < s.len(),
        first_index_of(s, c) >= 0 ==> s[first_index_of(s, c)] == c,
        forall|j: int| 0 <= j < s.len() && (first_index_of(s, c) < 0 || j < first_index_of(s, c))
            ==> s[j] != c,
    decreases s.len(),
{
    if s.len() > 0 && s[0] != c {
        lemma_first_index_of(s.drop_first(), c);
        assert forall|j: int|
            0 <= j < s.len() && (first_index_of(s, c) < 0 || j < first_index_of(s, c)) implies s[j]
            != c by {
            if j > 0 {
                assert(s[j] == s.drop_first()[j - 1]);
            }
        }
    }
}

/// The first `c` in `p + rest`, where `p` holds no `c`, is the first `c` of `rest`, moved by `p`'s length.
pub proof fn lemma_first_index_of_concat(p: Seq<char>, rest: Seq<char>, c: char)
    requires
        forall|j: int| 0 <= j < p.len() ==> p[j] != c,
    ensures
        first_index_of(p + rest, c) == if first_index_of(rest, c) < 0 {
            -1
        } else {
            first_index_of(rest, c) + p.len()
        },
    decreases p.len(),
{
    if p.len() > 0 {
        assert((p + rest).drop_first() =~= p.drop_first() + rest);
        lemma_first_index_of_concat(p.drop_first(), rest, c);
    } else {
        assert(p + rest =~= rest);
    }
}

/// Whether `a` holds the same characters as `b`.
pub fn str_equals(a: &String, b: &str) -> (r: bool)
    ensures
        r == (a@ == b@),
{
    *a == b.to_owned()
}

/// Whether `s` starts with `prefix`.
pub fn starts_with(s: &str, prefix: &str) -> (r: bool)
    ensures
        r == starts_with_spec(s@, prefix@),
{
    let n = s.unicode_len();
    let m = prefix.unicode_len();
    if m > n {
        return false;
    }
    let mut i: usize = 0;
    while i < m
        invariant
            m <= n,
            n == s@.len(),
            m == prefix@.len(),
            i <= m,
            forall|j: int| 0 <= j < i ==> s@[j] == prefix@[j],
        decreases m - i,
    {
        if s.get_char(i) != prefix.get_char(i) {
            assert(s@.subrange(0, m as int)[i as int] != prefix@[i as int]);
            return false;
        }
        i = i + 1;
    }
    assert(s@.subrange(0, m as int) =~= prefix@);
    true
}

/// What follows the first `.` of `s`, where `s` has one.
pub fn after_first_dot_of(s: &String) -> (r: Option<String>)
    ensures
        r matches Some(t) ==> after_first_dot(s@) == Some(t@),
        r is None ==> after_first_dot(s@) is None,
{
    let t = s.as_str();
    let n = t.unicode_len();
    let mut i: usize = 0;
    proof {
        lemma_first_index_of(s@, '.');
    }
    while i < n
        invariant
            n == s@.len(),
            t@ == s@,
            i <= n,
            forall|j: int| 0 <= j < i ==> s@[j] != '.',
            -1 <= first_index_of(s@, '.') < s@.len(),
            first_index_of(s@, '.') >= 0 ==> s@[first_index_of(s@, '.')] == '.',
            forall|j: int|
                0 <= j < s@.len() && (first_index_of(s@, '.') < 0 || j < first_index_of(s@, '.'))
                    ==> s@[j] != '.',
        decreases n - i,
    {
        if t.get_char(i) == '.' {
            assert(first_index_of(s@, '.') == i as int);
            let rest = t.substring_char(i + 1, n);
            return Some(rest.to_owned());
        }
        i = i + 1;
    }
    assert(first_index_of(s@, '.') < 0);
    None
}

} // verus!
