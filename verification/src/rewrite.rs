//! The HTML rewriter: a first pass streams the body through an HTML parser
//! collecting every element's `id` and `class` attribute (the body itself is
//! forwarded verbatim); the cosmetic verdict for those identifiers is then
//! rendered as a generated block — a comment fence around a `<style>` element,
//! and a fenced `<script>` when a script is injected — appended to the body.
//! A parse failure forwards the original body unchanged.

use crate::blocker::opt_str_view;
use crate::blocker::CosmeticVerdict;
use crate::statistics::sat_inc;
use crate::statistics::Statistics;
use crate::text::dedup_strings;
use vstd::prelude::*;
use vstd::string::StrSliceExecFns;
use vstd::string::StringExecFns;
use vstd::utf8::encode_utf8;

verus! {

/// The white-space characters around which class lists split.
pub open spec fn spec_is_space(c: char) -> bool {
    ||| c == ' '
    ||| c == '\t'
    ||| c == '\n'
    ||| c == '\r'
    ||| (11 <= c as u32 && c as u32 <= 12)
    ||| c as u32 == 133
    ||| c as u32 == 160
    ||| c as u32 == 5760
    ||| (8192 <= c as u32 && c as u32 <= 8202)
    ||| c as u32 == 8232
    ||| c as u32 == 8233
    ||| c as u32 == 8239
    ||| c as u32 == 8287
    ||| c as u32 == 12288
}

fn is_space_char(c: char) -> (r: bool)
    ensures
        r == spec_is_space(c),
{
    let u = c as u32;
    u == 32 || u == 9 || u == 10 || u == 13 || (11 <= u && u <= 12) || u == 133 || u == 160 || u
        == 5760 || (8192 <= u && u <= 8202) || u == 8232 || u == 8233 || u == 8239 || u == 8287
        || u == 12288
}

/// `s[i..j]` is a maximal run of non-space characters.
pub open spec fn is_token_span(s: Seq<char>, i: int, j: int) -> bool {
    &&& 0 <= i < j <= s.len()
    &&& (forall|t: int| i <= t < j ==> !spec_is_space(#[trigger] s[t]))
    &&& (i == 0 || spec_is_space(s[i - 1]))
    &&& (j == s.len() || spec_is_space(s[j]))
}

/// The tokens of a class attribute: its maximal runs of non-space characters.
pub open spec fn spec_class_tokens(s: Seq<char>) -> Set<Seq<char>> {
    Set::new(
        |t: Seq<char>|
            exists|i: int, j: int| is_token_span(s, i, j) && t == #[trigger] s.subrange(i, j),
    )
}

/// The tokens whose span starts before position `p`.
spec fn class_tokens_before(s: Seq<char>, p: int) -> Set<Seq<char>> {
    Set::new(
        |t: Seq<char>|
            exists|i: int, j: int|
                is_token_span(s, i, j) && i < p && t == #[trigger] s.subrange(i, j),
    )
}

/// Splits a class attribute into its non-empty tokens; the set of texts is
/// exactly the attribute's tokens (repeats may remain).
pub fn split_class_tokens(attr: &str) -> (r: Vec<String>)
    ensures
        r.deep_view().to_set() == spec_class_tokens(attr@),
{
    let n = attr.unicode_len();
    let mut out: Vec<String> = Vec::new();
    let mut i: usize = 0;
    proof {
        assert(out.deep_view().to_set() =~= class_tokens_before(attr@, 0));
    }
    while i < n
        invariant
            0 <= i <= n,
            n == attr@.len(),
            i == n || i == 0 || spec_is_space(attr@[i - 1]) || spec_is_space(attr@[i as int]),
            out.deep_view().to_set() == class_tokens_before(attr@, i as int),
        decreases n - i,
    {
        if is_space_char(attr.get_char(i)) {
            proof {
                assert forall|t: Seq<char>| class_tokens_before(attr@, i + 1).contains(t)
                    implies class_tokens_before(attr@, i as int).contains(t) by {
                    let (a, b): (int, int) = choose|a: int, b: int|
                        is_token_span(attr@, a, b) && a < i + 1 && t == #[trigger] attr@.subrange(
                            a,
                            b,
                        );
                    assert(a != i);
                }
                assert(class_tokens_before(attr@, i + 1) =~= class_tokens_before(
                    attr@,
                    i as int,
                ));
            }
            i = i + 1;
        } else {
            let start = i;
            let mut j = i + 1;
            while j < n && !is_space_char(attr.get_char(j))
                invariant
                    start < j <= n,
                    forall|t: int| start <= t < j ==> !spec_is_space(#[trigger] attr@[t]),
                decreases n - j,
            {
                j = j + 1;
            }
            assert(is_token_span(attr@, start as int, j as int));
            let tok = attr.substring_char(start, j);
            let ghost pre_dv = out.deep_view();
            out.push(String::from_str(tok));
            proof {
                let ghost told = class_tokens_before(attr@, start as int);
                let ghost tk = attr@.subrange(start as int, j as int);
                assert(out.deep_view() =~= pre_dv.push(tk));
                Seq::lemma_push_to_set_commute(pre_dv, tk);
                assert(out.deep_view().to_set() == told.insert(tk));
                // Every token starting before `j` either started before
                // `start`, or is this very run: a start inside the run has a
                // non-space character before it, and a differing end hits a
                // space inside the run.
                assert forall|t: Seq<char>| class_tokens_before(attr@, j as int).contains(t)
                    implies told.insert(tk).contains(t) by {
                    let (a, b): (int, int) = choose|a: int, b: int|
                        is_token_span(attr@, a, b) && a < j && t == #[trigger] attr@.subrange(
                            a,
                            b,
                        );
                    if a >= start {
                        assert(a == start) by {
                            if a > start {
                                assert(!spec_is_space(attr@[a - 1]));
                            }
                        }
                        assert(b == j) by {
                            if b < j {
                                assert(!spec_is_space(attr@[b]));
                            }
                            if b > j {
                                assert(j < attr@.len() && !spec_is_space(attr@[j as int]));
                            }
                        }
                        assert(t == tk);
                    }
                }
                assert forall|t: Seq<char>| told.insert(tk).contains(t) implies class_tokens_before(
                    attr@,
                    j as int,
                ).contains(t) by {
                    if t == tk {
                        assert(is_token_span(attr@, start as int, j as int) && (start as int) < j
                            && t == attr@.subrange(start as int, j as int));
                    } else {
                        let (a, b): (int, int) = choose|a: int, b: int|
                            is_token_span(attr@, a, b) && a < start && t == #[trigger] attr@.subrange(
                                a,
                                b,
                            );
                        assert(a < j);
                    }
                }
                assert(out.deep_view().to_set() =~= class_tokens_before(attr@, j as int));
            }
            i = j;
        }
    }
    proof {
        assert forall|t: Seq<char>| spec_class_tokens(attr@).contains(t) implies class_tokens_before(
            attr@,
            n as int,
        ).contains(t) by {
            let (a, b): (int, int) = choose|a: int, b: int|
                is_token_span(attr@, a, b) && t == #[trigger] attr@.subrange(a, b);
            assert(a < n);
        }
        assert(out.deep_view().to_set() =~= spec_class_tokens(attr@));
    }
    out
}

/// Whether the first scanning pass succeeds on this body.
pub uninterp spec fn scan_ok_of(body: Seq<u8>) -> bool;

/// The `id` attribute values of the body's elements, in document order.
pub uninterp spec fn ids_of(body: Seq<u8>) -> Seq<Seq<char>>;

/// The `class` attribute values of the body's elements, in document order.
pub uninterp spec fn class_attrs_of(body: Seq<u8>) -> Seq<Seq<char>>;

/// Relies on lol_html's HtmlRewriter: the body is streamed through a rewriter
/// whose only handler reads each element's `id` and `class` attributes, in
/// document order; with no mutation the rewriter forwards the input verbatim,
/// so the body itself is left alone. `None` when the parser gives up.
#[verifier::external_body]
fn scan_html(body: &Vec<u8>) -> (r: Option<(Vec<String>, Vec<String>)>)
    ensures
        (r is Some) == scan_ok_of(body@),
        r matches Option::Some(p) ==> p.0.deep_view() == ids_of(body@) && p.1.deep_view()
            == class_attrs_of(body@),
{
    let mut ids: Vec<String> = Vec::new();
    let mut attrs: Vec<String> = Vec::new();
    let h = lol_html::ElementContentHandlers::default().element(|el: &mut lol_html::html_content::Element| {
        if let Some(v) = el.get_attribute("id") { ids.push(v); }
        if let Some(v) = el.get_attribute("class") { attrs.push(v); }
        Ok(())
    });
    let s = lol_html::Settings::new().append_element_content_handler((std::borrow::Cow::Owned("*".parse().ok()?), h));
    let mut rw = lol_html::HtmlRewriter::new(s, |_: &[u8]| {});
    rw.write(body).ok()?;
    rw.end().ok()?;
    Some((ids, attrs))
}

/// The class tokens of all the attributes taken together.
pub open spec fn spec_classes_of_attrs(attrs: Seq<Seq<char>>) -> Set<Seq<char>>
    decreases attrs.len(),
{
    if attrs.len() == 0 {
        Set::empty()
    } else {
        spec_classes_of_attrs(attrs.drop_last()).union(spec_class_tokens(attrs.last()))
    }
}

/// The set of class tokens on the page.
pub open spec fn spec_page_classes(body: Seq<u8>) -> Set<Seq<char>> {
    spec_classes_of_attrs(class_attrs_of(body))
}

/// The first rewriting pass: the ids and the class tokens of the body's
/// elements, each once; `None` when the body cannot be parsed (the caller
/// then forwards the body unchanged).
pub fn collect_page_identifiers(body: &Vec<u8>) -> (r: Option<(Vec<String>, Vec<String>)>)
    ensures
        (r is Some) == scan_ok_of(body@),
        r matches Option::Some(p) ==> {
            &&& p.0.deep_view().to_set() == ids_of(body@).to_set()
            &&& p.0.deep_view().no_duplicates()
            &&& p.1.deep_view().to_set() == spec_page_classes(body@)
            &&& p.1.deep_view().no_duplicates()
        },
{
    match scan_html(body) {
        Option::None => Option::None,
        Option::Some((raw_ids, raw_attrs)) => {
            let ids = dedup_strings(raw_ids);
            let mut classes: Vec<String> = Vec::new();
            let mut i: usize = 0;
            proof {
                assert(classes.deep_view().to_set() =~= spec_classes_of_attrs(
                    class_attrs_of(body@).take(0),
                ));
            }
            while i < raw_attrs.len()
                invariant
                    0 <= i <= raw_attrs.len(),
                    raw_attrs.deep_view() == class_attrs_of(body@),
                    classes.deep_view().to_set() == spec_classes_of_attrs(
                        class_attrs_of(body@).take(i as int),
                    ),
                decreases raw_attrs.len() - i,
            {
                let ghost pre = classes.deep_view();
                let mut toks = split_class_tokens(raw_attrs[i].as_str());
                let ghost toks_dv = toks.deep_view();
                classes.append(&mut toks);
                proof {
                    assert(classes.deep_view() =~= pre + toks_dv);
                    crate::text::lemma_concat_to_set(pre, toks_dv);
                    assert(class_attrs_of(body@).take(i + 1).drop_last() =~= class_attrs_of(
                        body@,
                    ).take(i as int));
                    assert(class_attrs_of(body@).take(i + 1).last() == class_attrs_of(
                        body@,
                    )[i as int]);
                    assert(raw_attrs.deep_view()[i as int] == raw_attrs@[i as int]@);
                    assert(classes.deep_view().to_set() =~= spec_classes_of_attrs(
                        class_attrs_of(body@).take(i + 1),
                    ));
                }
                i = i + 1;
            }
            proof {
                assert(class_attrs_of(body@).take(raw_attrs.deep_view().len() as int)
                    =~= class_attrs_of(body@));
            }
            let classes = dedup_strings(classes);
            Option::Some((ids, classes))
        },
    }
}

/// The hide block inside the generated `<style>`: one rule per hidden
/// selector.
pub open spec fn spec_hidden_block(selectors: Seq<Seq<char>>) -> Seq<char>
    decreases selectors.len(),
{
    if selectors.len() == 0 {
        Seq::empty()
    } else {
        spec_hidden_block(selectors.drop_last()) + "\n"@ + selectors.last()
            + "\n{\n    display: none !important;\n}"@
    }
}

/// Declarations joined with `;`.
pub open spec fn spec_join_semicolon(decls: Seq<Seq<char>>) -> Seq<char>
    decreases decls.len(),
{
    if decls.len() == 0 {
        Seq::empty()
    } else if decls.len() == 1 {
        decls.last()
    } else {
        spec_join_semicolon(decls.drop_last()) + ";"@ + decls.last()
    }
}

/// The style block inside the generated `<style>`: one rule per (selector,
/// declarations) pair.
pub open spec fn spec_style_block(rules: Seq<(String, Vec<String>)>) -> Seq<char>
    decreases rules.len(),
{
    if rules.len() == 0 {
        Seq::empty()
    } else {
        spec_style_block(rules.drop_last()) + rules.last().0@ + " { "@ + spec_join_semicolon(
            rules.last().1.deep_view(),
        ) + " }"@
    }
}

/// The whole generated block: a comment fence around the `<style>` element,
/// then, when a script is injected, a fence around the `<script>` element.
pub open spec fn spec_append_block(
    hidden: Seq<Seq<char>>,
    styles: Seq<(String, Vec<String>)>,
    script: Option<Seq<char>>,
) -> Seq<char> {
    "<!-- privaxy proxy --><style>"@ + spec_hidden_block(hidden) + "\n"@ + spec_style_block(styles)
        + "\n</style><!-- privaxy proxy -->"@ + (match script {
        Option::Some(s) => "<!-- privaxy proxy --><script type=\"application/javascript\">"@ + s
            + "</script><!-- privaxy proxy -->"@,
        Option::None => Seq::<char>::empty(),
    })
}

fn build_hidden_block(selectors: &Vec<String>) -> (r: String)
    ensures
        r@ == spec_hidden_block(selectors.deep_view()),
{
    let mut r = String::new();
    proof {
        assert(r@ =~= spec_hidden_block(selectors.deep_view().take(0)));
    }
    let mut i: usize = 0;
    while i < selectors.len()
        invariant
            0 <= i <= selectors.len(),
            r@ == spec_hidden_block(selectors.deep_view().take(i as int)),
        decreases selectors.len() - i,
    {
        let r2 = r.concat("\n").concat(selectors[i].as_str()).concat(
            "\n{\n    display: none !important;\n}",
        );
        proof {
            assert(selectors.deep_view().take(i + 1).drop_last() =~= selectors.deep_view().take(
                i as int,
            ));
            assert(selectors.deep_view().take(i + 1).last() == selectors.deep_view()[i as int]);
            assert(r2@ =~= spec_hidden_block(selectors.deep_view().take(i + 1)));
        }
        r = r2;
        i = i + 1;
    }
    proof {
        assert(selectors.deep_view().take(selectors.deep_view().len() as int)
            =~= selectors.deep_view());
    }
    r
}

fn join_semicolon(decls: &Vec<String>) -> (r: String)
    ensures
        r@ == spec_join_semicolon(decls.deep_view()),
{
    let mut r = String::new();
    proof {
        assert(r@ =~= spec_join_semicolon(decls.deep_view().take(0)));
    }
    let mut i: usize = 0;
    while i < decls.len()
        invariant
            0 <= i <= decls.len(),
            r@ == spec_join_semicolon(decls.deep_view().take(i as int)),
        decreases decls.len() - i,
    {
        let r2 = if i == 0 {
            String::from_str(decls[i].as_str())
        } else {
            r.concat(";").concat(decls[i].as_str())
        };
        proof {
            assert(decls.deep_view().take(i + 1).drop_last() =~= decls.deep_view().take(i as int));
            assert(decls.deep_view().take(i + 1).last() == decls.deep_view()[i as int]);
            assert(r2@ =~= spec_join_semicolon(decls.deep_view().take(i + 1)));
        }
        r = r2;
        i = i + 1;
    }
    proof {
        assert(decls.deep_view().take(decls.deep_view().len() as int) =~= decls.deep_view());
    }
    r
}

fn build_style_block(rules: &Vec<(String, Vec<String>)>) -> (r: String)
    ensures
        r@ == spec_style_block(rules@),
{
    let mut r = String::new();
    proof {
        assert(r@ =~= spec_style_block(rules@.take(0)));
    }
    let mut i: usize = 0;
    while i < rules.len()
        invariant
            0 <= i <= rules.len(),
            r@ == spec_style_block(rules@.take(i as int)),
        decreases rules.len() - i,
    {
        let joined = join_semicolon(&rules[i].1);
        let r2 = r.concat(rules[i].0.as_str()).concat(" { ").concat(joined.as_str()).concat(" }");
        proof {
            assert(rules@.take(i + 1).drop_last() =~= rules@.take(i as int));
            assert(rules@.take(i + 1).last() == rules@[i as int]);
            assert(r2@ =~= spec_style_block(rules@.take(i + 1)));
        }
        r = r2;
        i = i + 1;
    }
    proof {
        assert(rules@.take(rules@.len() as int) =~= rules@);
    }
    r
}

/// The generated block for a cosmetic verdict, as text.
pub fn build_append_block(verdict: &CosmeticVerdict) -> (r: String)
    ensures
        r@ == spec_append_block(
            verdict.hidden_selectors.deep_view(),
            verdict.style_selectors@,
            opt_str_view(verdict.injected_script),
        ),
{
    let hidden = build_hidden_block(&verdict.hidden_selectors);
    let styles = build_style_block(&verdict.style_selectors);
    let mut r = String::from_str("<!-- privaxy proxy --><style>").concat(hidden.as_str()).concat(
        "\n",
    ).concat(styles.as_str()).concat("\n</style><!-- privaxy proxy -->");
    match &verdict.injected_script {
        Option::Some(s) => {
            r = r.concat("<!-- privaxy proxy --><script type=\"application/javascript\">").concat(
                s.as_str(),
            ).concat("</script><!-- privaxy proxy -->");
        },
        Option::None => {},
    }
    proof {
        assert(r@ =~= spec_append_block(
            verdict.hidden_selectors.deep_view(),
            verdict.style_selectors@,
            opt_str_view(verdict.injected_script),
        ));
    }
    r
}

/// The second rewriting pass: the generated block is appended to the body.
/// `modified_responses` is bumped exactly when the verdict carries a style
/// rule or an injected script — hidden selectors alone leave it unchanged.
/// `None` stands for a failed first pass: the body goes back unchanged.
pub fn rewrite_html_body(
    stats: &mut Statistics,
    body: Vec<u8>,
    verdict: &Option<CosmeticVerdict>,
) -> (r: Vec<u8>)
    ensures
        verdict is None ==> r@ == body@ && *final(stats) == *old(stats),
        verdict matches Option::Some(v) ==> {
            &&& r@ == body@ + encode_utf8(
                spec_append_block(
                    v.hidden_selectors.deep_view(),
                    v.style_selectors@,
                    opt_str_view(v.injected_script),
                ),
            )
            &&& (v.style_selectors@.len() > 0 || v.injected_script is Some)
                ==> final(stats).modified_responses == sat_inc(old(stats).modified_responses)
            &&& (v.style_selectors@.len() == 0 && v.injected_script is None)
                ==> final(stats).modified_responses == old(stats).modified_responses
            &&& final(stats).proxied_requests == old(stats).proxied_requests
            &&& final(stats).blocked_requests == old(stats).blocked_requests
            &&& final(stats).top_clients == old(stats).top_clients
            &&& final(stats).top_blocked_paths == old(stats).top_blocked_paths
        },
{
    match verdict {
        Option::None => body,
        Option::Some(v) => {
            let block = build_append_block(v);
            if v.style_selectors.len() > 0 || v.injected_script.is_some() {
                stats.increment_modified_responses();
            }
            let mut out = body;
            let mut bytes = block.as_str().as_bytes_vec();
            out.append(&mut bytes);
            out
        },
    }
}

} // verus!
