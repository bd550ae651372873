//! Character-level helpers on strings.

use vstd::prelude::*;

verus! {

/// `needle` occurs nowhere in `s`.
pub open spec fn lacks(s: Seq<char>, needle: char) -> bool {
    forall|j: int| 0 <= j < s.len() ==> s[j] != needle
}

/// `at` is the position of the first occurrence of `needle` in `s`.
pub open spec fn first_at(s: Seq<char>, needle: char, at: int) -> bool {
    &&& 0 <= at < s.len()
    &&& s[at] == needle
    &&& lacks(s.subrange(0, at), needle)
}

/// The first occurrence of a character is unique.
pub proof fn lemma_first_at_unique(s: Seq<char>, needle: char, a: int, b: int)
    requires
        first_at(s, needle, a),
        first_at(s, needle, b),
    ensures
        a == b,
{
    if a < b {
        assert(s.subrange(0, b)[a] == s[a]);
    } else if b < a {
        assert(s.subrange(0, a)[b] == s[b]);
    }
}

/// Finds the first occurrence of `needle` among the characters of `s`.
pub fn find_char(s: &str, needle: char) -> (found: Option<usize>)
    ensures
        match found {
            Some(at) => first_at(s@, needle, at as int),
            None => lacks(s@, needle),
        },
{
    let n = s.unicode_len();
    let mut i: usize = 0;
    while i < n
        invariant
            n == s@.len(),
            i <= n,
            lacks(s@.subrange(0, i as int), needle),
        decreases n - i,
    {
        if s.get_char(i) == needle {
            return Some(i);
        }
        proof {
            let before = s@.subrange(0, i as int);
            let after = s@.subrange(0, i + 1);
            assert forall|j: int| 0 <= j < after.len() implies after[j] != needle by {
                if j < i {
                    assert(before[j] == s@[j]);
                }
            }
        }
        i += 1;
    }
    proof {
        assert(s@.subrange(0, n as int) =~= s@);
    }
    None
}

/// Copies the characters of `s` from position `from` up to, not including, `to`.
pub fn slice_chars(s: &str, from: usize, to: usize) -> (part: String)
    requires
        from <= to <= s@.len(),
    ensures
        part@ == s@.subrange(from as int, to as int),
{
    s.substring_char(from, to).to_owned()
}

/// Values of a sequence of strings, in order.
pub open spec fn strings_view(strings: Seq<String>) -> Seq<Seq<char>> {
    strings.map_values(|s: String| s@)
}

/// Tells whether `wanted` is among `strings`.
pub fn contains_string(strings: &Vec<String>, wanted: &String) -> (found: bool)
    ensures
        found == strings_view(strings@).contains(wanted@),
{
    let mut i: usize = 0;
    while i < strings.len()
        invariant
            i <= strings.len(),
            forall|j: int| 0 <= j < i ==> strings_view(strings@)[j] != wanted@,
        decreases strings.len() - i,
    {
        if strings[i] == *wanted {
            assert(strings_view(strings@)[i as int] == wanted@);
            return true;
        }
        i += 1;
    }
    false
}

/// Tells whether two strings are equal. Every character of `a` is looked at, wherever the
/// first difference lies.
pub fn same_text(a: &str, b: &str) -> (same: bool)
    ensures
        same == (a@ == b@),
{
    let n = a.unicode_len();
    let m = b.unicode_len();
    let mut same = n == m;
    let mut i: usize = 0;
    while i < n
        invariant
            n == a@.len(),
            m == b@.len(),
            i <= n,
            same == (n == m && forall|j: int| 0 <= j < i ==> a@[j] == b@[j]),
        decreases n - i,
    {
        if i < m {
            if a.get_char(i) != b.get_char(i) {
                same = false;
            }
        }
        i += 1;
    }
    proof {
        if same {
            assert(a@ =~= b@);
        }
    }
    same
}

} // verus!
