//! The blocking engine and its bridge: network-URL verdicts, cosmetic-filter
//! queries, and rule replacement. The engine itself comes from the adblock
//! crate and is owned by a single worker; async callers reach it through a
//! request/reply queue whose per-message behaviour `handle_blocker_request`
//! decides. When the master "blocking disabled" flag is set, every network
//! query answers not-blocked with the empty verdict without consulting the
//! engine.

use crate::text::dedup_strings;
use vstd::prelude::*;
use vstd::string::StrSliceExecFns;

verus! {

#[verifier::external_type_specification]
#[verifier::external_body]
pub struct ExEngine(adblock::Engine);

/// The filter rules an engine was built from, one rule per line.
pub uninterp spec fn engine_rules(e: adblock::Engine) -> Seq<Seq<char>>;

/// Whether the engine blocks a network request for `url` with the given
/// referer.
pub uninterp spec fn blocked_of(rules: Seq<Seq<char>>, url: Seq<char>, referer: Seq<char>) -> bool;

/// The redirect resource the verdict carries, if any.
pub uninterp spec fn redirect_of(rules: Seq<Seq<char>>, url: Seq<char>, referer: Seq<char>) -> Option<Seq<char>>;

/// The matched filter's label, if any.
pub uninterp spec fn filter_of(rules: Seq<Seq<char>>, url: Seq<char>, referer: Seq<char>) -> Option<Seq<char>>;

/// The CSS selectors the engine hides on the page at `url`.
pub uninterp spec fn hide_selectors_of(rules: Seq<Seq<char>>, url: Seq<char>) -> Set<Seq<char>>;

/// The style rules for the page at `url`: selector to declarations.
pub uninterp spec fn style_rules_of(rules: Seq<Seq<char>>, url: Seq<char>) -> Map<Seq<char>, Seq<Seq<char>>>;

/// The class and id selectors exempted from generic hiding on the page.
pub uninterp spec fn cosmetic_exceptions_of(rules: Seq<Seq<char>>, url: Seq<char>) -> Set<Seq<char>>;

/// Whether any scriptlet is injected into the page at `url`.
pub uninterp spec fn has_injected_script_of(rules: Seq<Seq<char>>, url: Seq<char>) -> bool;

/// The selectors hidden on account of the page's classes and ids.
pub uninterp spec fn hidden_extra_of(
    rules: Seq<Seq<char>>,
    classes: Set<Seq<char>>,
    ids: Set<Seq<char>>,
    exceptions: Set<Seq<char>>,
) -> Set<Seq<char>>;

pub open spec fn opt_str_view(o: Option<String>) -> Option<Seq<char>> {
    match o {
        Option::Some(s) => Option::Some(s@),
        Option::None => Option::None,
    }
}

/// Relies on adblock::Engine::from_rules_debug: the engine holds exactly the
/// given rules, parsed with filter labels kept for reporting.
#[verifier::external_body]
fn engine_from_rules(rules: &Vec<String>) -> (e: adblock::Engine)
    ensures
        engine_rules(e) == rules.deep_view(),
{
    adblock::Engine::from_rules_debug(rules, adblock::lists::ParseOptions::default())
}

/// Relies on adblock::Engine::check_network_request and
/// adblock::request::Request::new: the verdict (blocked flag, redirect
/// resource, matched filter label) is a function of the engine's rules, the
/// URL and the referer alone; a URL the crate cannot parse yields the
/// not-blocked empty verdict.
#[verifier::external_body]
fn engine_check_network(e: &adblock::Engine, url: &String, referer: &String) -> (r: (
    bool,
    Option<String>,
    Option<String>,
))
    ensures
        r.0 == blocked_of(engine_rules(*e), url@, referer@),
        opt_str_view(r.1) == redirect_of(engine_rules(*e), url@, referer@),
        opt_str_view(r.2) == filter_of(engine_rules(*e), url@, referer@),
{
    match adblock::request::Request::new(url, referer, "other") {
        Ok(request) => {
            let result = e.check_network_request(&request);
            (result.matched, result.redirect, result.filter)
        },
        Err(_) => (false, None, None),
    }
}

/// How a vector of (selector, declarations) pairs lays out a style-rule map:
/// every pair is in the map, every key of the map is some pair's, and no key
/// repeats.
pub open spec fn spec_pairs_as_map(
    pairs: Seq<(String, Vec<String>)>,
    m: Map<Seq<char>, Seq<Seq<char>>>,
) -> bool {
    &&& forall|i: int|
        0 <= i < pairs.len() ==> m.contains_pair(
            (#[trigger] pairs[i]).0@,
            pairs[i].1.deep_view(),
        )
    &&& forall|k: Seq<char>|
        #[trigger] m.dom().contains(k) ==> exists|i: int|
            0 <= i < pairs.len() && (#[trigger] pairs[i]).0@ == k
    &&& forall|i: int, j: int|
        0 <= i < j < pairs.len() ==> (#[trigger] pairs[i]).0@ != (#[trigger] pairs[j]).0@
}

/// Relies on adblock::Engine::url_cosmetic_resources: the hidden-selector set,
/// the style-rule map, the exception set and the presence of an injected
/// script are functions of the engine's rules and the URL alone. The vectors
/// carry each set's elements in no promised order.
#[verifier::external_body]
fn engine_url_cosmetic(e: &adblock::Engine, url: &String) -> (r: (
    Vec<String>,
    Vec<(String, Vec<String>)>,
    Vec<String>,
    String,
))
    ensures
        r.0.deep_view().to_set() == hide_selectors_of(engine_rules(*e), url@),
        spec_pairs_as_map(r.1@, style_rules_of(engine_rules(*e), url@)),
        r.2.deep_view().to_set() == cosmetic_exceptions_of(engine_rules(*e), url@),
        (r.3@.len() > 0) == has_injected_script_of(engine_rules(*e), url@),
{
    let res = e.url_cosmetic_resources(url);
    let hide: Vec<String> = res.hide_selectors.into_iter().collect();
    let styles: Vec<(String, Vec<String>)> = res.style_selectors.into_iter().collect();
    let exceptions: Vec<String> = res.exceptions.into_iter().collect();
    (hide, styles, exceptions, res.injected_script)
}

/// Relies on adblock::Engine::hidden_class_id_selectors: the selectors owed to
/// the page's classes and ids are a function of the engine's rules and the
/// given class, id and exception sets alone.
#[verifier::external_body]
fn engine_hidden_class_id(
    e: &adblock::Engine,
    classes: &Vec<String>,
    ids: &Vec<String>,
    exceptions: &Vec<String>,
) -> (r: Vec<String>)
    ensures
        r.deep_view().to_set() == hidden_extra_of(
            engine_rules(*e),
            classes.deep_view().to_set(),
            ids.deep_view().to_set(),
            exceptions.deep_view().to_set(),
        ),
{
    let ex: std::collections::HashSet<String> = exceptions.iter().cloned().collect();
    e.hidden_class_id_selectors(classes, ids, &ex)
}

/// The network half of a verdict holds an optional replacement resource and the
/// label of the matching filter.
pub struct NetworkVerdict {
    pub redirect: Option<String>,
    pub filter: Option<String>,
}

/// The cosmetic half of a verdict holds selectors to hide, style rules, and a
/// script to inject, if any.
pub struct CosmeticVerdict {
    pub hidden_selectors: Vec<String>,
    pub style_selectors: Vec<(String, Vec<String>)>,
    pub injected_script: Option<String>,
}

/// The referer used for a query: the given one, or the URL itself when absent,
/// so that requests without one are not taken for third-party.
pub open spec fn spec_referer_or(url: Seq<char>, referer: Option<Seq<char>>) -> Seq<char> {
    match referer {
        Option::Some(r) => r,
        Option::None => url,
    }
}

/// The blocking engine, owned by the single worker that serves the queue.
pub struct Blocker {
    engine: adblock::Engine,
}

impl Blocker {
    /// The rules the engine currently holds.
    pub closed spec fn rules(&self) -> Seq<Seq<char>> {
        engine_rules(self.engine)
    }

    pub fn new(rules: &Vec<String>) -> (r: Self)
        ensures
            r.rules() == rules.deep_view(),
    {
        Blocker { engine: engine_from_rules(rules) }
    }

    /// Rebuilds the engine from a new rule set.
    pub fn replace_rules(&mut self, rules: &Vec<String>)
        ensures
            final(self).rules() == rules.deep_view(),
    {
        self.engine = engine_from_rules(rules);
    }

    /// Whether the URL is blocked, and with what verdict. With blocking
    /// disabled the answer is always not-blocked and empty; else it is the
    /// engine's, with the referer defaulting to the URL itself.
    pub fn is_network_url_blocked(
        &self,
        blocking_disabled: bool,
        url: &String,
        referer: &Option<String>,
    ) -> (r: (bool, NetworkVerdict))
        ensures
            blocking_disabled ==> {
                &&& !r.0
                &&& r.1.redirect is None
                &&& r.1.filter is None
            },
            !blocking_disabled ==> {
                &&& r.0 == blocked_of(
                    self.rules(),
                    url@,
                    spec_referer_or(url@, opt_str_view(*referer)),
                )
                &&& opt_str_view(r.1.redirect) == redirect_of(
                    self.rules(),
                    url@,
                    spec_referer_or(url@, opt_str_view(*referer)),
                )
                &&& opt_str_view(r.1.filter) == filter_of(
                    self.rules(),
                    url@,
                    spec_referer_or(url@, opt_str_view(*referer)),
                )
            },
    {
        if blocking_disabled {
            return (false, NetworkVerdict { redirect: Option::None, filter: Option::None });
        }
        let source = match referer {
            Option::Some(r) => r,
            Option::None => url,
        };
        let (blocked, redirect, filter) = engine_check_network(&self.engine, url, source);
        (blocked, NetworkVerdict { redirect, filter })
    }

    /// The cosmetic verdict for a page: the hidden selectors are the page's
    /// own and those owed to its classes and ids, each once; the style rules
    /// are the page's; the script is carried when one is injected.
    pub fn get_cosmetic_response(
        &self,
        url: &String,
        ids: &Vec<String>,
        classes: &Vec<String>,
    ) -> (r: CosmeticVerdict)
        ensures
            r.hidden_selectors.deep_view().to_set() == hide_selectors_of(
                self.rules(),
                url@,
            ).union(
                hidden_extra_of(
                    self.rules(),
                    classes.deep_view().to_set(),
                    ids.deep_view().to_set(),
                    cosmetic_exceptions_of(self.rules(), url@),
                ),
            ),
            r.hidden_selectors.deep_view().no_duplicates(),
            spec_pairs_as_map(r.style_selectors@, style_rules_of(self.rules(), url@)),
            (r.injected_script is Some) == has_injected_script_of(self.rules(), url@),
    {
        let (hide, styles, exceptions, script) = engine_url_cosmetic(&self.engine, url);
        let extra = engine_hidden_class_id(&self.engine, classes, ids, &exceptions);
        let ghost hide_dv = hide.deep_view();
        let mut combined = hide;
        let ghost extra_dv = extra.deep_view();
        let mut extra_mut = extra;
        combined.append(&mut extra_mut);
        proof {
            assert(combined.deep_view() =~= hide_dv + extra_dv);
            crate::text::lemma_concat_to_set(hide_dv, extra_dv);
        }
        let hidden_selectors = dedup_strings(combined);
        let injected_script = if script.as_str().is_empty() {
            Option::None
        } else {
            Option::Some(script)
        };
        CosmeticVerdict {
            hidden_selectors,
            style_selectors: styles,
            injected_script,
        }
    }
}

/// One message to the blocker worker.
pub enum BlockerRequest {
    /// Ask whether a network request is blocked.
    IsBlocked { url: String, referer: Option<String> },
    /// Ask for the cosmetic verdict of a page.
    Cosmetic { url: String, ids: Vec<String>, classes: Vec<String> },
    /// Replace the engine's rules with these.
    ReplaceRules { rules: Vec<String> },
}

/// The worker's answer to one message.
pub enum BlockerReply {
    Blocked(bool, NetworkVerdict),
    Cosmetic(CosmeticVerdict),
    Replaced,
}

/// One step of the blocker worker: answers a query against the current
/// engine, or rebuilds the engine from a new rule set. Messages are handled
/// strictly in arrival order by the single worker that owns the blocker.
pub fn handle_blocker_request(
    blocker: &mut Blocker,
    blocking_disabled: bool,
    request: BlockerRequest,
) -> (r: BlockerReply)
    ensures
        (request matches BlockerRequest::ReplaceRules { rules } ==> {
            &&& final(blocker).rules() == rules.deep_view()
            &&& r is Replaced
        }),
        !(request is ReplaceRules) ==> final(blocker).rules() == old(blocker).rules(),
        (request matches BlockerRequest::IsBlocked { url, referer } ==> {
            &&& r matches BlockerReply::Blocked(blocked, verdict)
            &&& blocking_disabled ==> !blocked && verdict.redirect is None && verdict.filter
                is None
            &&& !blocking_disabled ==> {
                let source = spec_referer_or(url@, opt_str_view(referer));
                &&& blocked == blocked_of(old(blocker).rules(), url@, source)
                &&& opt_str_view(verdict.redirect) == redirect_of(
                    old(blocker).rules(),
                    url@,
                    source,
                )
                &&& opt_str_view(verdict.filter) == filter_of(old(blocker).rules(), url@, source)
            }
        }),
        (request matches BlockerRequest::Cosmetic { url, ids, classes } ==> {
            &&& r matches BlockerReply::Cosmetic(verdict)
            &&& verdict.hidden_selectors.deep_view().to_set() == hide_selectors_of(
                old(blocker).rules(),
                url@,
            ).union(
                hidden_extra_of(
                    old(blocker).rules(),
                    classes.deep_view().to_set(),
                    ids.deep_view().to_set(),
                    cosmetic_exceptions_of(old(blocker).rules(), url@),
                ),
            )
            &&& verdict.hidden_selectors.deep_view().no_duplicates()
            &&& spec_pairs_as_map(
                verdict.style_selectors@,
                style_rules_of(old(blocker).rules(), url@),
            )
            &&& (verdict.injected_script is Some) == has_injected_script_of(
                old(blocker).rules(),
                url@,
            )
        }),
{
    match request {
        BlockerRequest::IsBlocked { url, referer } => {
            let (blocked, verdict) = blocker.is_network_url_blocked(
                blocking_disabled,
                &url,
                &referer,
            );
            BlockerReply::Blocked(blocked, verdict)
        },
        BlockerRequest::Cosmetic { url, ids, classes } => {
            BlockerReply::Cosmetic(blocker.get_cosmetic_response(&url, &ids, &classes))
        },
        BlockerRequest::ReplaceRules { rules } => {
            blocker.replace_rules(&rules);
            BlockerReply::Replaced
        },
    }
}

/// The answer dispatch falls back to when the blocker worker is unavailable:
/// not blocked, with the empty verdict, so browsing keeps working.
pub fn fail_open_verdict() -> (r: (bool, NetworkVerdict))
    ensures
        !r.0,
        r.1.redirect is None,
        r.1.filter is None,
{
    (false, NetworkVerdict { redirect: Option::None, filter: Option::None })
}

} // verus!
