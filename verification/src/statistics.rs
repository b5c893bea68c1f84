//! Counters consumed by the data plane: totals for proxied, blocked and
//! modified responses, and per-key tallies for top clients and top blocked
//! paths. Increments saturate at the counter's maximum.

use vstd::prelude::*;

verus! {

/// One more than `n`, staying put at the maximum.
pub open spec fn sat_inc(n: u64) -> u64 {
    if n < u64::MAX {
        (n + 1) as u64
    } else {
        n
    }
}

/// The position of the first entry with the given key, if any.
pub open spec fn first_key_index(s: Seq<(String, u64)>, k: Seq<char>) -> Option<int>
    decreases s.len(),
{
    if s.len() == 0 {
        Option::None
    } else if s[0].0@ == k {
        Option::Some(0int)
    } else {
        match first_key_index(s.skip(1), k) {
            Option::Some(i) => Option::Some(i + 1),
            Option::None => Option::None,
        }
    }
}

proof fn lemma_first_key_index_found(s: Seq<(String, u64)>, k: Seq<char>, i: int)
    requires
        0 <= i < s.len(),
        s[i].0@ == k,
        forall|j: int| 0 <= j < i ==> s[j].0@ != k,
    ensures
        first_key_index(s, k) == Option::Some(i),
    decreases i,
{
    if i > 0 {
        lemma_first_key_index_found(s.skip(1), k, i - 1);
    }
}

proof fn lemma_first_key_index_missing(s: Seq<(String, u64)>, k: Seq<char>)
    requires
        forall|j: int| 0 <= j < s.len() ==> s[j].0@ != k,
    ensures
        first_key_index(s, k) is None,
    decreases s.len(),
{
    if s.len() > 0 {
        lemma_first_key_index_missing(s.skip(1), k);
    }
}

/// How a tally changes when a key is counted once: the first entry with the
/// key is bumped, a missing key is appended with count one.
pub open spec fn tops_incremented(
    before: Seq<(String, u64)>,
    after: Seq<(String, u64)>,
    key: Seq<char>,
) -> bool {
    match first_key_index(before, key) {
        Option::Some(i) => after =~= before.update(i, (before[i].0, sat_inc(before[i].1))),
        Option::None => {
            &&& after.len() == before.len() + 1
            &&& after.subrange(0, before.len() as int) =~= before
            &&& after.last().0@ == key
            &&& after.last().1 == 1u64
        },
    }
}

/// A tally per key: the first entry with the key is bumped, a missing key is
/// appended with count one.
pub struct TopCounts {
    entries: Vec<(String, u64)>,
}

impl TopCounts {
    pub closed spec fn view(&self) -> Seq<(String, u64)> {
        self.entries@
    }

    pub fn new() -> (r: Self)
        ensures
            r@ =~= Seq::<(String, u64)>::empty(),
    {
        TopCounts { entries: Vec::new() }
    }

    /// The entries, for reading out.
    pub fn entries(&self) -> (r: &Vec<(String, u64)>)
        ensures
            r@ == self@,
    {
        &self.entries
    }

    pub fn increment(&mut self, key: String)
        ensures
            match first_key_index(old(self)@, key@) {
                Option::Some(i) => final(self)@ =~= old(self)@.update(
                    i,
                    (old(self)@[i].0, sat_inc(old(self)@[i].1)),
                ),
                Option::None => final(self)@ =~= old(self)@.push((key, 1u64)),
            },
    {
        let mut i: usize = 0;
        while i < self.entries.len()
            invariant
                0 <= i <= self.entries.len(),
                self.entries@ == old(self).entries@,
                forall|j: int| 0 <= j < i ==> self.entries@[j].0@ != key@,
            decreases self.entries.len() - i,
        {
            if self.entries[i].0 == key {
                proof {
                    lemma_first_key_index_found(self.entries@, key@, i as int);
                }
                let n = self.entries[i].1;
                let bumped: u64 = if n < u64::MAX {
                    n + 1
                } else {
                    n
                };
                let k = self.entries[i].0.clone();
                self.entries.set(i, (k, bumped));
                return ;
            }
            i = i + 1;
        }
        proof {
            lemma_first_key_index_missing(self.entries@, key@);
        }
        self.entries.push((key, 1));
    }
}

/// The counters the data plane feeds.
pub struct Statistics {
    pub proxied_requests: u64,
    pub blocked_requests: u64,
    pub modified_responses: u64,
    pub top_clients: TopCounts,
    pub top_blocked_paths: TopCounts,
}

impl Statistics {
    pub fn new() -> (r: Self)
        ensures
            r.proxied_requests == 0,
            r.blocked_requests == 0,
            r.modified_responses == 0,
            r.top_clients@ =~= Seq::<(String, u64)>::empty(),
            r.top_blocked_paths@ =~= Seq::<(String, u64)>::empty(),
    {
        Statistics {
            proxied_requests: 0,
            blocked_requests: 0,
            modified_responses: 0,
            top_clients: TopCounts::new(),
            top_blocked_paths: TopCounts::new(),
        }
    }

    pub fn increment_proxied_requests(&mut self)
        ensures
            final(self).proxied_requests == sat_inc(old(self).proxied_requests),
            final(self).blocked_requests == old(self).blocked_requests,
            final(self).modified_responses == old(self).modified_responses,
            final(self).top_clients == old(self).top_clients,
            final(self).top_blocked_paths == old(self).top_blocked_paths,
    {
        if self.proxied_requests < u64::MAX {
            self.proxied_requests = self.proxied_requests + 1;
        }
    }

    pub fn increment_blocked_requests(&mut self)
        ensures
            final(self).blocked_requests == sat_inc(old(self).blocked_requests),
            final(self).proxied_requests == old(self).proxied_requests,
            final(self).modified_responses == old(self).modified_responses,
            final(self).top_clients == old(self).top_clients,
            final(self).top_blocked_paths == old(self).top_blocked_paths,
    {
        if self.blocked_requests < u64::MAX {
            self.blocked_requests = self.blocked_requests + 1;
        }
    }

    pub fn increment_modified_responses(&mut self)
        ensures
            final(self).modified_responses == sat_inc(old(self).modified_responses),
            final(self).proxied_requests == old(self).proxied_requests,
            final(self).blocked_requests == old(self).blocked_requests,
            final(self).top_clients == old(self).top_clients,
            final(self).top_blocked_paths == old(self).top_blocked_paths,
    {
        if self.modified_responses < u64::MAX {
            self.modified_responses = self.modified_responses + 1;
        }
    }

    pub fn increment_top_clients(&mut self, client: String)
        ensures
            tops_incremented(old(self).top_clients@, final(self).top_clients@, client@),
            final(self).proxied_requests == old(self).proxied_requests,
            final(self).blocked_requests == old(self).blocked_requests,
            final(self).modified_responses == old(self).modified_responses,
            final(self).top_blocked_paths == old(self).top_blocked_paths,
    {
        self.top_clients.increment(client);
    }

    pub fn increment_top_blocked_paths(&mut self, path: String)
        ensures
            tops_incremented(old(self).top_blocked_paths@, final(self).top_blocked_paths@, path@),
            final(self).proxied_requests == old(self).proxied_requests,
            final(self).blocked_requests == old(self).blocked_requests,
            final(self).modified_responses == old(self).modified_responses,
            final(self).top_clients == old(self).top_clients,
    {
        self.top_blocked_paths.increment(path);
    }
}

} // verus!
