use send_core::model::Environment;
use send_core::resolve::resolve_value;
use send_core::store::has_duplicate;

fn env(vars: &[(&str, &str)]) -> Environment {
    Environment {
        name: "Test".to_string(),
        variables: vars.iter().map(|(k, v)| (k.to_string(), v.to_string())).collect(),
    }
}

#[test]
fn resolution_covers_every_variable() {
    let e = env(&[("base", "https://api.test"), ("id", "42")]);
    let out = resolve_value("{{base}}/users/{{id}}", Some(&e));
    assert_eq!(out, "https://api.test/users/42");
}

#[test]
fn unmatched_input_passes_through() {
    let e = env(&[("base", "https://api.test"), ("id", "42")]);
    assert_eq!(resolve_value("no placeholders here", Some(&e)), "no placeholders here");
    assert_eq!(resolve_value("", Some(&e)), "");
    assert_eq!(resolve_value("half {{open", Some(&e)), "half {{open");
}

#[test]
fn unknown_placeholder_stays_verbatim() {
    let e = env(&[("base", "https://api.test")]);
    assert_eq!(resolve_value("{{missing}}", Some(&e)), "{{missing}}");
    assert_eq!(resolve_value("{{missing}}", None), "{{missing}}");
}

#[test]
fn no_environment_means_no_substitution() {
    assert_eq!(resolve_value("{{base}}/x", None), "{{base}}/x");
}

#[test]
fn substitution_applies_in_environment_order() {
    // the earlier variable's replacement text is not re-scanned
    let e = env(&[("a", "{{b}}"), ("b", "two")]);
    assert_eq!(resolve_value("{{a}}", Some(&e)), "two");
    let e2 = env(&[("b", "two"), ("a", "{{b}}")]);
    assert_eq!(resolve_value("{{a}}", Some(&e2)), "{{b}}");
}

#[test]
fn repeated_placeholders_all_replaced() {
    let e = env(&[("x", "1")]);
    assert_eq!(resolve_value("{{x}}{{x}}-{{x}}", Some(&e)), "11-1");
}

#[test]
fn duplicate_keys_flagged_for_both_occurrences() {
    let vars = vec![
        ("token".to_string(), "a".to_string()),
        ("token ".to_string(), "b".to_string()),
        ("other".to_string(), "c".to_string()),
    ];
    assert!(has_duplicate("token", &vars, 0));
    assert!(has_duplicate("token ", &vars, 1));
    assert!(!has_duplicate("other", &vars, 2));
}

#[test]
fn blank_duplicate_keys_are_not_flagged() {
    let vars = vec![
        ("  ".to_string(), "a".to_string()),
        (" ".to_string(), "b".to_string()),
    ];
    assert!(!has_duplicate("  ", &vars, 0));
    assert!(!has_duplicate(" ", &vars, 1));
}
