//! Character and string utilities the data plane leans on: ASCII case
//! folding, exact and case-insensitive comparison, and substring search.

use vstd::prelude::*;

verus! {

/// ASCII case folding of one character; characters outside `A`..`Z` are kept.
pub open spec fn lower_char(c: char) -> char {
    if 65 <= c as u32 && c as u32 <= 90 {
        (((c as u32) + 32) as u8) as char
    } else {
        c
    }
}

/// ASCII case folding of a whole character sequence.
pub open spec fn spec_lower(s: Seq<char>) -> Seq<char> {
    s.map_values(|c: char| lower_char(c))
}

pub fn to_lower_char(c: char) -> (r: char)
    ensures
        r == lower_char(c),
{
    let u = c as u32;
    if 65 <= u && u <= 90 {
        ((u + 32) as u8) as char
    } else {
        c
    }
}

/// Whether two texts hold the same characters.
pub fn str_eq(s: &str, t: &str) -> (r: bool)
    ensures
        r == (s@ == t@),
{
    let n = s.unicode_len();
    if n != t.unicode_len() {
        return false;
    }
    let mut i: usize = 0;
    while i < n
        invariant
            0 <= i <= n,
            forall|j: int| 0 <= j < i ==> s@[j] == t@[j],
        decreases n - i,
    {
        if s.get_char(i) != t.get_char(i) {
            return false;
        }
        i = i + 1;
    }
    assert(s@ =~= t@);
    true
}

/// Whether the text equals the target up to ASCII case; the target is given
/// already folded.
pub fn eq_ignore_case(s: &str, target_lower: &str) -> (r: bool)
    ensures
        r == (spec_lower(s@) == target_lower@),
{
    let n = s.unicode_len();
    if n != target_lower.unicode_len() {
        return false;
    }
    let mut i: usize = 0;
    while i < n
        invariant
            0 <= i <= n,
            forall|j: int| 0 <= j < i ==> lower_char(s@[j]) == target_lower@[j],
        decreases n - i,
    {
        if to_lower_char(s.get_char(i)) != target_lower.get_char(i) {
            assert(spec_lower(s@)[i as int] != target_lower@[i as int]);
            return false;
        }
        i = i + 1;
    }
    assert(spec_lower(s@) =~= target_lower@);
    true
}

/// Whether some element of the vector holds exactly these characters.
pub fn vec_contains_str(v: &Vec<String>, s: &str) -> (r: bool)
    ensures
        r == v.deep_view().contains(s@),
{
    let mut i: usize = 0;
    while i < v.len()
        invariant
            0 <= i <= v.len(),
            forall|j: int| 0 <= j < i ==> v.deep_view()[j] != s@,
        decreases v.len() - i,
    {
        if str_eq(v[i].as_str(), s) {
            assert(v.deep_view()[i as int] == s@);
            return true;
        }
        i = i + 1;
    }
    false
}

/// The strings of the vector with later repetitions (by characters) dropped:
/// the same set of texts, each once.
pub fn dedup_strings(v: Vec<String>) -> (r: Vec<String>)
    ensures
        r.deep_view().to_set() == v.deep_view().to_set(),
        r.deep_view().no_duplicates(),
{
    let mut r: Vec<String> = Vec::new();
    let mut i: usize = 0;
    proof {
        assert(r.deep_view().to_set() =~= v.deep_view().subrange(0, 0).to_set());
    }
    while i < v.len()
        invariant
            0 <= i <= v.len(),
            r.deep_view().to_set() == v.deep_view().subrange(0, i as int).to_set(),
            r.deep_view().no_duplicates(),
        decreases v.len() - i,
    {
        let ghost pre = r.deep_view();
        let ghost prefix = v.deep_view().subrange(0, i as int);
        if !vec_contains_str(&r, v[i].as_str()) {
            let x = v[i].clone();
            r.push(x);
            proof {
                assert(r.deep_view() =~= pre.push(v.deep_view()[i as int]));
                Seq::lemma_push_to_set_commute(pre, v.deep_view()[i as int]);
            }
        }
        proof {
            assert(v.deep_view().subrange(0, i + 1 as int) =~= prefix.push(
                v.deep_view()[i as int],
            ));
            Seq::lemma_push_to_set_commute(prefix, v.deep_view()[i as int]);
            assert(r.deep_view().to_set() =~= v.deep_view().subrange(0, i + 1 as int).to_set());
        }
        i = i + 1;
    }
    proof {
        assert(v.deep_view().subrange(0, v.deep_view().len() as int) =~= v.deep_view());
    }
    r
}

/// The elements of a concatenation are the union of both sides' elements.
pub proof fn lemma_concat_to_set(a: Seq<Seq<char>>, b: Seq<Seq<char>>)
    ensures
        (a + b).to_set() == a.to_set().union(b.to_set()),
{
    assert forall|x: Seq<char>| (a + b).to_set().contains(x) implies a.to_set().union(
        b.to_set(),
    ).contains(x) by {
        let i = choose|i: int| 0 <= i < (a + b).len() && (a + b)[i] == x;
        if i < a.len() {
            assert(a[i] == x);
        } else {
            assert(b[i - a.len()] == x);
        }
    }
    assert forall|x: Seq<char>| a.to_set().union(b.to_set()).contains(x) implies (a
        + b).to_set().contains(x) by {
        if a.to_set().contains(x) {
            let i = choose|i: int| 0 <= i < a.len() && a[i] == x;
            assert((a + b)[i] == x);
        } else {
            let i = choose|i: int| 0 <= i < b.len() && b[i] == x;
            assert((a + b)[a.len() + i] == x);
        }
    }
    assert((a + b).to_set() =~= a.to_set().union(b.to_set()));
}

/// Whether the needle occurs as a contiguous run inside the hay.
pub open spec fn contains_seq(hay: Seq<char>, needle: Seq<char>) -> bool {
    exists|i: int|
        0 <= i <= hay.len() - needle.len() && #[trigger] hay.subrange(i, i + needle.len() as int)
            == needle
}

/// Substring search, character-exact.
pub fn str_contains(hay: &str, needle: &str) -> (r: bool)
    ensures
        r == contains_seq(hay@, needle@),
{
    let h = hay.unicode_len();
    let n = needle.unicode_len();
    if n > h {
        return false;
    }
    if n == 0 {
        assert(hay@.subrange(0, 0 + needle@.len() as int) =~= needle@);
        return true;
    }
    let mut i: usize = 0;
    while i <= h - n
        invariant
            0 <= i <= h - n + 1,
            0 < n <= h,
            forall|x: int|
                0 <= x < i ==> #[trigger] hay@.subrange(x, x + needle@.len() as int) != needle@,
        decreases h - n - i + 1,
    {
        let sub = hay.substring_char(i, i + n);
        if str_eq(sub, needle) {
            return true;
        }
        i = i + 1;
    }
    false
}

} // verus!
