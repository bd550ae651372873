use merge_pr_in_all::checks::{evaluate_checks, is_accepted_conclusion, CheckRun, Verdict};
use merge_pr_in_all::record::split_repository;
use merge_pr_in_all::text::{contains_string, find_char, same_text, slice_chars};

fn check(name: &str, id: u64, conclusion: Option<&str>) -> CheckRun {
    CheckRun { name: name.to_string(), id, conclusion: conclusion.map(|c| c.to_string()) }
}

#[test]
fn accepted_conclusions_are_success_skipped_and_neutral() {
    for accepted in ["success", "skipped", "neutral"] {
        assert!(is_accepted_conclusion(&accepted.to_string()));
        assert!(check("ci", 1, Some(accepted)).is_passing());
    }
    for refused in ["failure", "cancelled", "timed_out", "action_required", "stale", "", "Success", "success "] {
        assert!(!is_accepted_conclusion(&refused.to_string()));
        assert!(!check("ci", 1, Some(refused)).is_passing());
    }
    assert!(!check("ci", 1, None).is_passing());
}

#[test]
fn checks_that_all_pass_open_the_way() {
    let checks = vec![check("ci", 1, Some("success")), check("docs", 2, Some("skipped"))];
    assert_eq!(evaluate_checks(&checks), Verdict::Open);
    assert_eq!(evaluate_checks(&vec![check("ci", 1, Some("neutral"))]), Verdict::Open);
}

#[test]
fn no_check_at_all_is_not_configured() {
    assert_eq!(evaluate_checks(&vec![]), Verdict::NoChecksConfigured);
}

#[test]
fn the_first_check_that_does_not_pass_decides() {
    let checks = vec![
        check("ci", 1, Some("success")),
        check("e2e", 2, None),
        check("lint", 3, Some("failure")),
    ];
    assert_eq!(evaluate_checks(&checks), Verdict::CheckNotPassing(1));
    let checks = vec![check("lint", 3, Some("failure")), check("ci", 1, Some("success"))];
    assert_eq!(evaluate_checks(&checks), Verdict::CheckNotPassing(0));
    let checks = vec![check("ci", 1, Some("success")), check("lint", 3, Some("failure"))];
    assert_eq!(evaluate_checks(&checks), Verdict::CheckNotPassing(1));
}

#[test]
fn repository_identity_splits_at_its_first_slash() {
    assert_eq!(split_repository("acme/widgets"), Some(("acme".to_string(), "widgets".to_string())));
    assert_eq!(split_repository("a/b/c"), Some(("a".to_string(), "b/c".to_string())));
    assert_eq!(split_repository("/widgets"), Some(("".to_string(), "widgets".to_string())));
    assert_eq!(split_repository("acme/"), Some(("acme".to_string(), "".to_string())));
    assert_eq!(split_repository("/"), Some(("".to_string(), "".to_string())));
    assert_eq!(split_repository("widgets"), None);
    assert_eq!(split_repository(""), None);
    assert_eq!(split_repository("größe/дом"), Some(("größe".to_string(), "дом".to_string())));
}

#[test]
fn characters_are_found_and_sliced_by_position() {
    assert_eq!(find_char("acme/widgets", '/'), Some(4));
    assert_eq!(find_char("a/b/c", '/'), Some(1));
    assert_eq!(find_char("größe/x", '/'), Some(5));
    assert_eq!(find_char("none", '/'), None);
    assert_eq!(find_char("", '/'), None);
    assert_eq!(slice_chars("acme/widgets", 5, 12), "widgets");
    assert_eq!(slice_chars("größe/x", 2, 5), "öße");
    assert_eq!(slice_chars("abc", 1, 1), "");
    assert_eq!(slice_chars("abc", 0, 3), "abc");
}

#[test]
fn strings_are_looked_up_by_value() {
    let strings = vec!["acme".to_string(), "alice".to_string()];
    assert!(contains_string(&strings, &"alice".to_string()));
    assert!(!contains_string(&strings, &"Alice".to_string()));
    assert!(!contains_string(&vec![], &"alice".to_string()));
}

#[test]
fn texts_are_equal_only_character_by_character() {
    assert!(same_text("s3cret", "s3cret"));
    assert!(same_text("", ""));
    assert!(same_text("größe", "größe"));
    assert!(!same_text("s3cret", "s3creT"));
    assert!(!same_text("s3cret", "S3cret"));
    assert!(!same_text("s3cret", "s3cre"));
    assert!(!same_text("s3cre", "s3cret"));
    assert!(!same_text("", "x"));
    assert!(!same_text("x", ""));
}
