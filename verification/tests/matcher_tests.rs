fn accepted(texts: &[&str]) -> Vec<String> {
    texts.iter().map(|t| t.to_string()).collect()
}

#[test]
fn case_insensitive_match() {
    assert!(askme::matcher::matches("Paris", &accepted(&["paris"]), false));
}

#[test]
fn case_sensitive_mismatch() {
    assert!(!askme::matcher::matches("Paris", &accepted(&["paris"]), true));
}

#[test]
fn case_sensitive_exact_match() {
    assert!(askme::matcher::matches("Paris", &accepted(&["Paris"]), true));
}

#[test]
fn submission_is_trimmed() {
    assert!(askme::matcher::matches("  Paris \n", &accepted(&["Paris"]), true));
}

#[test]
fn trimmed_and_lowercased_together() {
    assert!(askme::matcher::matches("  PARIS  ", &accepted(&["paris"]), false));
}

#[test]
fn any_accepted_member_matches() {
    assert!(askme::matcher::matches("london", &accepted(&["Paris", "London"]), false));
}

#[test]
fn no_member_matches() {
    assert!(!askme::matcher::matches("Rome", &accepted(&["Paris", "London"]), false));
}

#[test]
fn empty_accepted_list_never_matches() {
    assert!(!askme::matcher::matches("Paris", &accepted(&[]), false));
}

#[test]
fn blank_input_is_not_acceptable() {
    assert!(!askme::matcher::input_acceptable("  \t \n"));
    assert!(!askme::matcher::input_acceptable(""));
    assert!(askme::matcher::input_acceptable(" Paris "));
}
