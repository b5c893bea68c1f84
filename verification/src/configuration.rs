//! Configuration snapshots as the data plane consumes them: the CA's PEM
//! material, the filter rules, the exclusion patterns, and the master
//! blocking switch. Applying a snapshot rebuilds the blocking engine and
//! replaces the exclusion store wholesale; in-flight requests see either the
//! old state or the new one, never a mixture.

use crate::blocker::blocked_of;
use crate::blocker::cosmetic_exceptions_of;
use crate::blocker::filter_of;
use crate::blocker::has_injected_script_of;
use crate::blocker::hide_selectors_of;
use crate::blocker::hidden_extra_of;
use crate::blocker::redirect_of;
use crate::blocker::style_rules_of;
use crate::blocker::Blocker;
use crate::exclusions::glob_matches;
use crate::exclusions::LocalExclusionStore;
use vstd::prelude::*;

verus! {

/// One complete configuration snapshot.
pub struct Configuration {
    pub ca_certificate_pem: String,
    pub ca_private_key_pem: String,
    pub filter_rules: Vec<String>,
    pub exclusions: Vec<String>,
    pub blocking_disabled: bool,
}

fn clone_string_vec(v: &Vec<String>) -> (r: Vec<String>)
    ensures
        r.deep_view() == v.deep_view(),
        r@.map_values(|s: String| s@) == v@.map_values(|s: String| s@),
{
    let mut r: Vec<String> = Vec::new();
    let mut i: usize = 0;
    while i < v.len()
        invariant
            0 <= i <= v.len(),
            r@.len() == i,
            forall|j: int| 0 <= j < i ==> r@[j]@ == v@[j]@,
        decreases v.len() - i,
    {
        r.push(v[i].clone());
        i = i + 1;
    }
    proof {
        assert(r.deep_view() =~= v.deep_view());
        assert(r@.map_values(|s: String| s@) =~= v@.map_values(|s: String| s@));
    }
    r
}

/// Applies a snapshot: the blocker's engine is rebuilt from the snapshot's
/// filter rules and the exclusion store is replaced with its patterns. The
/// data plane keeps serving while this happens; requests enqueued during the
/// rebuild are served by the new engine.
pub fn apply_configuration(
    configuration: &Configuration,
    blocker: &mut Blocker,
    exclusions: &mut LocalExclusionStore,
)
    ensures
        final(blocker).rules() == configuration.filter_rules.deep_view(),
        final(exclusions).view() == configuration.exclusions@.map_values(|s: String| s@),
{
    blocker.replace_rules(&configuration.filter_rules);
    exclusions.replace(clone_string_vec(&configuration.exclusions));
}

/// Replacing the configuration with the same snapshot twice changes nothing a
/// verdict depends on: two blockers holding equal rules answer every network
/// and cosmetic query alike (the injected script's presence included; only
/// its byte order is process-local), and two stores holding equal patterns
/// match the same hosts.
pub proof fn lemma_configuration_replacement_idempotent(
    b1: Blocker,
    b2: Blocker,
    s1: LocalExclusionStore,
    s2: LocalExclusionStore,
    url: Seq<char>,
    referer: Seq<char>,
    ids: Set<Seq<char>>,
    classes: Set<Seq<char>>,
    host: Seq<char>,
)
    requires
        b1.rules() == b2.rules(),
        s1.view() == s2.view(),
    ensures
        blocked_of(b1.rules(), url, referer) == blocked_of(b2.rules(), url, referer),
        redirect_of(b1.rules(), url, referer) == redirect_of(b2.rules(), url, referer),
        filter_of(b1.rules(), url, referer) == filter_of(b2.rules(), url, referer),
        hide_selectors_of(b1.rules(), url) == hide_selectors_of(b2.rules(), url),
        style_rules_of(b1.rules(), url) == style_rules_of(b2.rules(), url),
        cosmetic_exceptions_of(b1.rules(), url) == cosmetic_exceptions_of(b2.rules(), url),
        has_injected_script_of(b1.rules(), url) == has_injected_script_of(b2.rules(), url),
        hidden_extra_of(b1.rules(), classes, ids, cosmetic_exceptions_of(b1.rules(), url))
            == hidden_extra_of(b2.rules(), classes, ids, cosmetic_exceptions_of(b2.rules(), url)),
        s1.spec_contains(host) == s2.spec_contains(host),
{
    assert forall|i: int| 0 <= i < s1.view().len() && glob_matches(s1.view()[i], host)
        implies s2.spec_contains(host) by {
        assert(glob_matches(s2.view()[i], host));
    }
    assert forall|i: int| 0 <= i < s2.view().len() && glob_matches(s2.view()[i], host)
        implies s1.spec_contains(host) by {
        assert(glob_matches(s1.view()[i], host));
    }
}

} // verus!
