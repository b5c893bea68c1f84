use privaxy::blocker::CosmeticVerdict;
use privaxy::rewrite::build_append_block;
use privaxy::rewrite::collect_page_identifiers;
use privaxy::rewrite::rewrite_html_body;
use privaxy::rewrite::split_class_tokens;
use privaxy::statistics::Statistics;

fn strings(v: &[&str]) -> Vec<String> {
    v.iter().map(|s| s.to_string()).collect()
}

#[test]
fn class_attribute_splits_on_whitespace_runs() {
    let toks = split_class_tokens("a  b \t c");
    assert_eq!(toks, strings(&["a", "b", "c"]));
    assert_eq!(split_class_tokens("   "), Vec::<String>::new());
    assert_eq!(split_class_tokens("one"), strings(&["one"]));
    assert_eq!(split_class_tokens("\na\r\nb\n"), strings(&["a", "b"]));
}

#[test]
fn first_pass_collects_ids_and_class_tokens() {
    let html = b"<html><body><div id=\"ad1\" class=\"a b\">x</div><p class=\"b  c\" id=\"p1\"></p></body></html>".to_vec();
    let (ids, classes) = collect_page_identifiers(&html).unwrap();
    let mut ids_sorted = ids.clone();
    ids_sorted.sort();
    assert_eq!(ids_sorted, strings(&["ad1", "p1"]));
    let mut classes_sorted = classes.clone();
    classes_sorted.sort();
    assert_eq!(classes_sorted, strings(&["a", "b", "c"]));
}

#[test]
fn repeated_identifiers_are_collected_once() {
    let html = b"<div class=\"a a\"></div><span class=\"a\"></span><i id=\"x\"></i><b id=\"x\"></b>".to_vec();
    let (ids, classes) = collect_page_identifiers(&html).unwrap();
    assert_eq!(ids, strings(&["x"]));
    assert_eq!(classes, strings(&["a"]));
}

#[test]
fn hidden_selectors_render_as_the_expected_block() {
    let verdict = CosmeticVerdict {
        hidden_selectors: strings(&["#ad1"]),
        style_selectors: Vec::new(),
        injected_script: None,
    };
    let block = build_append_block(&verdict);
    assert_eq!(
        block,
        "<!-- privaxy proxy --><style>\n#ad1\n{\n    display: none !important;\n}\n\n</style><!-- privaxy proxy -->"
    );
}

#[test]
fn style_rules_join_their_declarations_with_semicolons() {
    let verdict = CosmeticVerdict {
        hidden_selectors: Vec::new(),
        style_selectors: vec![(".box".to_string(), strings(&["color: red", "margin: 0"]))],
        injected_script: None,
    };
    let block = build_append_block(&verdict);
    assert_eq!(
        block,
        "<!-- privaxy proxy --><style>\n.box { color: red;margin: 0 }\n</style><!-- privaxy proxy -->"
    );
}

#[test]
fn injected_scripts_get_their_own_fence() {
    let verdict = CosmeticVerdict {
        hidden_selectors: Vec::new(),
        style_selectors: Vec::new(),
        injected_script: Some("console.log(1)".to_string()),
    };
    let block = build_append_block(&verdict);
    assert!(block.ends_with(
        "<!-- privaxy proxy --><script type=\"application/javascript\">console.log(1)</script><!-- privaxy proxy -->"
    ));
}

#[test]
fn hidden_only_verdicts_do_not_count_as_modified() {
    let mut stats = Statistics::new();
    let body = b"<html><body><div id=\"ad1\" class=\"a b\">x</div></body></html>".to_vec();
    let verdict = CosmeticVerdict {
        hidden_selectors: strings(&["#ad1"]),
        style_selectors: Vec::new(),
        injected_script: None,
    };
    let out = rewrite_html_body(&mut stats, body.clone(), &Some(verdict));
    let out_text = String::from_utf8(out).unwrap();
    assert!(out_text.starts_with("<html><body><div id=\"ad1\" class=\"a b\">x</div></body></html>"));
    assert!(out_text.ends_with(
        "<!-- privaxy proxy --><style>\n#ad1\n{\n    display: none !important;\n}\n\n</style><!-- privaxy proxy -->"
    ));
    assert_eq!(stats.modified_responses, 0);
}

#[test]
fn style_rules_count_as_modified() {
    let mut stats = Statistics::new();
    let verdict = CosmeticVerdict {
        hidden_selectors: Vec::new(),
        style_selectors: vec![(".x".to_string(), strings(&["color: red"]))],
        injected_script: None,
    };
    let _ = rewrite_html_body(&mut stats, b"<p></p>".to_vec(), &Some(verdict));
    assert_eq!(stats.modified_responses, 1);
}

#[test]
fn injected_scripts_count_as_modified() {
    let mut stats = Statistics::new();
    let verdict = CosmeticVerdict {
        hidden_selectors: strings(&["#a"]),
        style_selectors: Vec::new(),
        injected_script: Some("x()".to_string()),
    };
    let _ = rewrite_html_body(&mut stats, b"<p></p>".to_vec(), &Some(verdict));
    assert_eq!(stats.modified_responses, 1);
}

#[test]
fn a_failed_first_pass_forwards_the_body_unchanged() {
    let mut stats = Statistics::new();
    let body = b"<html><body>x</body></html>".to_vec();
    let out = rewrite_html_body(&mut stats, body.clone(), &None);
    assert_eq!(out, body);
    assert_eq!(stats.modified_responses, 0);
}
