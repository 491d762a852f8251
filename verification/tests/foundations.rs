//! Text, numbers, paths and orders.

use diagnostic_triage::json::{list_json, string_json, text_member};
use diagnostic_triage::model::Severity;
use diagnostic_triage::numeral::{push_decimal, push_hex, saturated};
use diagnostic_triage::order::{all_distinct, compare_texts, sort, Placement};
use diagnostic_triage::path::{
    components, is_bare_program_name, is_rooted, is_within, join_path, normalize_path, strip_base, Component,
};
use diagnostic_triage::sanitize::bounded::SanitizeError;
use diagnostic_triage::sanitize::{
    neutralize_external_text, sanitize_external_text, sanitize_external_text_counted, sanitize_repository_path_text,
};
use diagnostic_triage::text::{chars_of, trim, width_of};
use diagnostic_triage::time::{elapsed_ms, Duration};
use diagnostic_triage::utf8::{retain, text_from, utf8_prefix};

fn text(chars: &[char]) -> String {
    chars.iter().collect()
}

#[test]
fn invalid_bytes_end_a_text() {
    assert_eq!(text_from("zażółć".as_bytes()).unwrap(), "zażółć");
    let error = text_from(b"ab\xffcd").unwrap_err();
    assert_eq!(error.valid_up_to, 2);
    assert!(error.message.contains("invalid utf-8"));
    assert_eq!(utf8_prefix(b"ab\xffcd"), "ab");
    assert_eq!(retain("aż".as_bytes(), 2), "a");
    assert_eq!(retain("aż".as_bytes(), 3), "aż");
}

#[test]
fn strings_are_escaped_for_json() {
    assert_eq!(text(&string_json("a\"b\\c\n\u{7f}é")), "\"a\\\"b\\\\c\\n\u{7f}é\"");
    assert_eq!(
        text(&list_json(&vec![Severity::Error, Severity::Info])),
        "[\"ERROR\",\"INFO\"]"
    );
    assert_eq!(text_member(b"{\"a\":\"x\",\"b\":1}", "a").as_deref(), Some("x"));
    assert_eq!(text_member(b"{\"a\":\"x\",\"b\":1}", "b"), None);
    assert_eq!(text_member(b"[\"a\"]", "a"), None);
    assert_eq!(text_member(b"{", "a"), None);
}

#[test]
fn numbers_are_written_out() {
    let mut out = Vec::new();
    push_decimal(&mut out, 0);
    push_decimal(&mut out, 18_446_744_073_709_551_615);
    assert_eq!(text(&out), "018446744073709551615");
    let mut out = Vec::new();
    push_hex(&mut out, 0x2e, 4, true);
    push_hex(&mut out, 0xabcdef, 2, false);
    assert_eq!(text(&out), "002Eabcdef");
    assert_eq!(saturated(7), 7);
}

#[test]
fn texts_are_ordered_by_their_bytes() {
    assert_eq!(compare_texts("a", "b"), Placement::Before);
    assert_eq!(compare_texts("ab", "a"), Placement::After);
    assert_eq!(compare_texts("ä", "ä"), Placement::Same);
    let mut words: Vec<String> = ["b", "a", "ab", "a"].iter().map(|word| (*word).to_owned()).collect();
    assert!(!all_distinct(&words));
    sort(&mut words);
    assert_eq!(words, ["a", "a", "ab", "b"]);
    let mut reversed: Vec<String> = words.iter().rev().cloned().collect();
    sort(&mut reversed);
    assert_eq!(reversed, words);
}

#[test]
fn paths_have_components() {
    assert_eq!(
        components("/a/./b/../c//"),
        [
            Component::Root,
            Component::Name("a".to_owned()),
            Component::Name("b".to_owned()),
            Component::Parent,
            Component::Name("c".to_owned()),
        ]
    );
    assert_eq!(components("./a")[0], Component::Current);
    assert!(is_within("/repo/src", "/repo"));
    assert!(is_within("/repo", "/repo"));
    assert!(!is_within("/repository", "/repo"));
    assert!(is_rooted("/x") && !is_rooted("x"));
    assert!(is_bare_program_name("ruff"));
    assert!(!is_bare_program_name("./ruff"));
    assert!(!is_bare_program_name(".."));
    assert_eq!(strip_base("/repo/a/b", "/repo").as_deref(), Some("a/b"));
    assert_eq!(strip_base("/other", "/repo"), None);
    assert_eq!(join_path("/repo", "a/b"), "/repo/a/b");
}

#[test]
fn normalized_paths_stay_inside() {
    assert_eq!(normalize_path("/repo/src/./a.py", "/repo").as_deref(), Some("src/a.py"));
    assert_eq!(normalize_path("src/a.py", "/repo").as_deref(), Some("src/a.py"));
    assert_eq!(normalize_path("../a.py", "/repo"), None);
    assert_eq!(normalize_path("/etc/passwd", "/repo"), None);
}

#[test]
fn characters_have_widths() {
    for (c, width) in [('a', 1), ('é', 2), ('字', 3), ('😀', 4)] {
        assert_eq!(width_of(c), width);
        assert_eq!(c.len_utf8(), width);
    }
    assert_eq!(text(&trim(&chars_of(" \u{2003}a b\n"))), "a b");
}

#[test]
fn elapsed_time_never_exceeds_the_timeout() {
    assert_eq!(elapsed_ms(Duration::from_millis(7), 10), 7);
    assert_eq!(elapsed_ms(Duration::from_secs(7), 10), 10);
    assert_eq!(
        Duration::from_millis(3).saturating_sub(Duration::from_millis(5)),
        Duration::zero()
    );
}

#[test]
fn sanitized_text_is_sanitized_for_good() {
    let first = sanitize_external_text("token=abc /Users/me/x \u{202e} plain", 4096).unwrap();
    assert!(!first.as_str().contains("abc"));
    assert!(!first.as_str().contains("/Users/me"));
    let neutral = neutralize_external_text("a\u{202e}b\u{1}", 4096).unwrap();
    assert_eq!(neutral.as_str(), "a[BIDI-U+202E]b[CONTROL-U+0001]");
    let again = neutralize_external_text(neutral.as_str(), 4096).unwrap();
    assert_eq!(again.as_str(), neutral.as_str());
    assert!(again.markers.is_empty());
    let kept = sanitize_external_text("nothing to hide", 4096).unwrap();
    assert_eq!(kept.as_str(), "nothing to hide");
}

#[test]
fn a_limit_only_refuses() {
    let value = "plain text";
    assert_eq!(sanitize_external_text(value, value.len()).unwrap().as_str(), value);
    let error = sanitize_external_text(value, value.len() - 1).unwrap_err();
    assert_eq!(error, SanitizeError::OutputLimitExceeded { max_bytes: 9 });
    assert!(error.message().contains('9'));
}

#[test]
fn web_addresses_are_parsed_once_and_kept() {
    let value = "see https://example.com/a?b=c for more";
    let (kept, checks) = sanitize_external_text_counted(value, 4096).unwrap();
    assert_eq!(kept.as_str(), value);
    assert_eq!(checks, 1);
    let (kept, checks) = sanitize_external_text_counted("no address", 4096).unwrap();
    assert_eq!(kept.as_str(), "no address");
    assert_eq!(checks, 0);
    assert_eq!(sanitize_repository_path_text("src/a.py", 4096).unwrap().as_str(), "src/a.py");
}
