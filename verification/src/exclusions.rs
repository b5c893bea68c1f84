//! Hostname exclusion store: a set of glob-style host patterns (`?` matches a
//! single character, `*` matches zero or more). Hosts that match any pattern
//! are tunneled blindly instead of being intercepted. Hostname comparison is
//! case-insensitive; replacement of the pattern set is wholesale.

use crate::text::lower_char;
use crate::text::to_lower_char;
use vstd::prelude::*;

verus! {

/// Case-insensitive glob match: `?` matches exactly one character, `*` matches
/// any run of characters (possibly empty), anything else matches itself up to
/// ASCII case.
pub open spec fn glob_matches(p: Seq<char>, s: Seq<char>) -> bool
    decreases p.len() + s.len(),
{
    if p.len() == 0 {
        s.len() == 0
    } else if p[0] == '*' {
        glob_matches(p.skip(1), s) || (s.len() > 0 && glob_matches(p, s.skip(1)))
    } else {
        &&& s.len() > 0
        &&& (p[0] == '?' || lower_char(p[0]) == lower_char(s[0]))
        &&& glob_matches(p.skip(1), s.skip(1))
    }
}

fn glob_match_from(p: &str, s: &str, pi: usize, si: usize) -> (r: bool)
    requires
        pi <= p@.len(),
        si <= s@.len(),
    ensures
        r == glob_matches(p@.skip(pi as int), s@.skip(si as int)),
    decreases p@.len() - pi, s@.len() - si,
{
    let plen = p.unicode_len();
    let slen = s.unicode_len();
    if pi == plen {
        return si == slen;
    }
    let pc = p.get_char(pi);
    assert(p@.skip(pi as int)[0] == p@[pi as int]);
    if pc == '*' {
        assert(p@.skip(pi as int).skip(1) =~= p@.skip(pi + 1 as int));
        if glob_match_from(p, s, pi + 1, si) {
            return true;
        }
        if si < slen {
            assert(s@.skip(si as int).skip(1) =~= s@.skip(si + 1 as int));
            return glob_match_from(p, s, pi, si + 1);
        }
        false
    } else {
        if si == slen {
            return false;
        }
        let sc = s.get_char(si);
        assert(s@.skip(si as int)[0] == s@[si as int]);
        assert(p@.skip(pi as int).skip(1) =~= p@.skip(pi + 1 as int));
        assert(s@.skip(si as int).skip(1) =~= s@.skip(si + 1 as int));
        if pc == '?' || to_lower_char(pc) == to_lower_char(sc) {
            glob_match_from(p, s, pi + 1, si + 1)
        } else {
            false
        }
    }
}

/// Whether the pattern matches the whole host, case-insensitively.
pub fn glob_match(pattern: &str, host: &str) -> (r: bool)
    ensures
        r == glob_matches(pattern@, host@),
{
    let r = glob_match_from(pattern, host, 0, 0);
    assert(pattern@.skip(0) =~= pattern@);
    assert(host@.skip(0) =~= host@);
    r
}

/// The set of host patterns that must be tunneled blindly (never intercepted).
pub struct LocalExclusionStore {
    patterns: Vec<String>,
}

impl LocalExclusionStore {
    /// The patterns held, as character sequences.
    pub closed spec fn view(&self) -> Seq<Seq<char>> {
        self.patterns@.map_values(|p: String| p@)
    }

    /// Whether the host matches one of the held patterns.
    pub open spec fn spec_contains(&self, host: Seq<char>) -> bool {
        exists|i: int| 0 <= i < self.view().len() && glob_matches(self.view()[i], host)
    }

    pub fn new(patterns: Vec<String>) -> (r: Self)
        ensures
            r.view() == patterns@.map_values(|p: String| p@),
    {
        LocalExclusionStore { patterns }
    }

    /// Replaces the whole pattern set; readers never see a partial update.
    pub fn replace(&mut self, patterns: Vec<String>)
        ensures
            final(self).view() == patterns@.map_values(|p: String| p@),
    {
        self.patterns = patterns;
    }

    pub fn contains(&self, host: &str) -> (r: bool)
        ensures
            r == self.spec_contains(host@),
    {
        let mut i: usize = 0;
        while i < self.patterns.len()
            invariant
                0 <= i <= self.patterns.len(),
                forall|j: int| 0 <= j < i ==> !glob_matches(self.view()[j], host@),
            decreases self.patterns.len() - i,
        {
            if glob_match(self.patterns[i].as_str(), host) {
                assert(glob_matches(self.view()[i as int], host@));
                return true;
            }
            i = i + 1;
        }
        false
    }
}

} // verus!
