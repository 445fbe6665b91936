use flowbit::config::FilterConfig;
use flowbit::model::filter::Filter;
use flowbit::model::project_item::{ItemKind, ProjectItem, Timestamp};

fn item(title: &str, number: u64) -> ProjectItem {
    ProjectItem {
        id: "PVTI_1".to_string(),
        kind: ItemKind::Issue,
        repo: "acme/widgets".to_string(),
        number,
        title: title.to_string(),
        url: format!("https://github.com/acme/widgets/issues/{}", number),
        status: Some("In Progress".to_string()),
        assignees: vec!["Alice".to_string(), "bob".to_string()],
        labels: vec!["Bug".to_string()],
        created_at: Timestamp { secs: 1_700_000_000, nanos: 0 },
        updated_at: Timestamp { secs: 1_700_000_100, nanos: 0 },
    }
}

fn empty() -> Filter {
    Filter::default()
}

#[test]
fn parse_reads_every_key() {
    let f = Filter::parse("label:bug assignee:alice is:pr status:done fix login");
    assert_eq!(f.label.as_deref(), Some("bug"));
    assert_eq!(f.assignee.as_deref(), Some("alice"));
    assert_eq!(f.status.as_deref(), Some("done"));
    assert_eq!(f.kind, Some(ItemKind::PullRequest));
    assert_eq!(f.text.as_deref(), Some("fix login"));
}

#[test]
fn parse_kind_words_ignore_case() {
    assert_eq!(Filter::parse("is:Issue").kind, Some(ItemKind::Issue));
    assert_eq!(Filter::parse("is:PullRequest").kind, Some(ItemKind::PullRequest));
    assert_eq!(Filter::parse("is:PR").kind, Some(ItemKind::PullRequest));
}

#[test]
fn parse_unknown_kind_becomes_text() {
    let f = Filter::parse("is:draft  hello");
    assert_eq!(f.kind, None);
    assert_eq!(f.text.as_deref(), Some("is:draft hello"));
}

#[test]
fn parse_blank_query_is_empty() {
    assert!(Filter::parse("").is_empty());
    assert!(Filter::parse(" \t\n ").is_empty());
}

#[test]
fn parse_later_key_wins() {
    let f = Filter::parse("label:a label:b");
    assert_eq!(f.label.as_deref(), Some("b"));
    assert_eq!(f.text, None);
}

#[test]
fn parse_keeps_empty_values() {
    let f = Filter::parse("label:");
    assert_eq!(f.label.as_deref(), Some(""));
}

#[test]
fn parse_collapses_spacing() {
    let f = Filter::parse("  fix   login  ");
    assert_eq!(f.text.as_deref(), Some("fix login"));
}

#[test]
fn empty_filter_matches_everything() {
    assert!(empty().is_empty());
    assert!(empty().matches(&item("Anything", 1)));
}

#[test]
fn text_matches_title_ignoring_case() {
    let f = Filter::parse("LOGIN");
    assert!(f.matches(&item("Fix login page", 3)));
    assert!(!f.matches(&item("Fix signup page", 3)));
}

#[test]
fn text_matches_reference() {
    let f = Filter::parse("widgets#12");
    assert!(f.matches(&item("Unrelated", 12)));
    assert!(!f.matches(&item("Unrelated", 13)));
}

#[test]
fn text_matches_number() {
    let f = Filter::parse("#123");
    assert!(f.matches(&item("Title", 123)));
    assert!(!f.matches(&item("Title", 1234)));
    assert!(!f.matches(&item("Title", 9123)));
}

#[test]
fn hash_text_without_digits_searches_text() {
    // Not `#` followed by digits only: searched in the title and reference.
    let f = Filter::parse("#12a");
    assert!(f.matches(&item("Fix #12a crash", 5)));
    assert!(!f.matches(&item("Title", 12)));
    assert!(Filter::parse("s#12").matches(&item("Title", 12)));
}

#[test]
fn status_matches_exactly_ignoring_case() {
    assert!(Filter::parse("status:in").matches(&item("t", 1)) == false);
    let mut f = empty();
    f.status = Some("in progress".to_string());
    assert!(f.matches(&item("t", 1)));
    let mut no_status = item("t", 1);
    no_status.status = None;
    assert!(!f.matches(&no_status));
}

#[test]
fn assignee_and_label_match_any_entry() {
    assert!(Filter::parse("assignee:ALICE").matches(&item("t", 1)));
    assert!(Filter::parse("assignee:Bob").matches(&item("t", 1)));
    assert!(!Filter::parse("assignee:carol").matches(&item("t", 1)));
    assert!(Filter::parse("label:bug").matches(&item("t", 1)));
    assert!(!Filter::parse("label:bu").matches(&item("t", 1)));
}

#[test]
fn kind_must_equal() {
    assert!(Filter::parse("is:issue").matches(&item("t", 1)));
    assert!(!Filter::parse("is:pr").matches(&item("t", 1)));
}

#[test]
fn conditions_are_combined_with_and() {
    assert!(Filter::parse("label:bug assignee:alice fix").matches(&item("Fix it", 1)));
    assert!(!Filter::parse("label:bug assignee:carol fix").matches(&item("Fix it", 1)));
}

#[test]
fn summary_lists_conditions_in_order() {
    let f = Filter::parse("is:pr status:done assignee:alice label:bug fix login");
    assert_eq!(
        f.display_summary(),
        "\"fix login\" label:bug assignee:alice status:done is:pr"
    );
    assert_eq!(Filter::parse("is:issue").display_summary(), "is:issue");
    assert_eq!(empty().display_summary(), "");
}

#[test]
fn default_filter_from_config() {
    let config = FilterConfig {
        assignee: Some("alice".to_string()),
        labels: Some(vec!["bug".to_string(), "ui".to_string()]),
        kind: Some("PR".to_string()),
        status: Some("In Progress".to_string()),
    };
    let f = Filter::from(&config);
    assert_eq!(f.text, None);
    assert_eq!(f.assignee.as_deref(), Some("alice"));
    assert_eq!(f.label.as_deref(), Some("bug"));
    assert_eq!(f.kind, Some(ItemKind::PullRequest));
    assert_eq!(f.status.as_deref(), Some("In Progress"));
}

#[test]
fn default_filter_from_config_with_unknown_kind() {
    let config = FilterConfig {
        assignee: None,
        labels: Some(vec![]),
        kind: Some("epic".to_string()),
        status: None,
    };
    let f = Filter::from(&config);
    assert!(f.is_empty());
    let issue = Filter::from(&FilterConfig { assignee: None, labels: None, kind: Some("Issue".to_string()), status: None });
    assert_eq!(issue.kind, Some(ItemKind::Issue));
}

#[test]
fn kind_labels() {
    assert_eq!(ItemKind::Issue.label(), "Issue");
    assert_eq!(ItemKind::PullRequest.label(), "PR");
}

#[test]
fn summary_parses_back() {
    let f = Filter::parse("is:issue status:Done assignee:alice label:bug");
    let again = Filter::parse(&f.display_summary());
    assert_eq!(again.text, f.text);
    assert_eq!(again.label, f.label);
    assert_eq!(again.assignee, f.assignee);
    assert_eq!(again.status, f.status);
    assert_eq!(again.kind, f.kind);
    let pr = Filter::parse("is:pr");
    assert_eq!(Filter::parse(&pr.display_summary()).kind, Some(ItemKind::PullRequest));
}
