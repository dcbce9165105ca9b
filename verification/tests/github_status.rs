use branchless::github_status::{
    render_pull_request_status, roll_up_checks, CheckRollup, GithubStatusDescriptor, NodeObject,
    PullRequestInfo, StatusCheck,
};
use branchless::oid::NonZeroOid;
use cursive_core::theme::{BaseColor, Style};
use cursive_core::utils::markup::StyledString;

fn check(state: Option<&str>, status: Option<&str>, conclusion: Option<&str>) -> StatusCheck {
    StatusCheck {
        state: state.map(|s| s.to_owned()),
        status: status.map(|s| s.to_owned()),
        conclusion: conclusion.map(|s| s.to_owned()),
    }
}

fn oid(hex: &str) -> NonZeroOid {
    NonZeroOid::parse(hex).unwrap()
}

fn pull_request(number: usize, head: &str) -> PullRequestInfo {
    PullRequestInfo {
        number,
        head_ref_oid: oid(head),
        closed: false,
        is_draft: false,
        state: "OPEN".to_owned(),
        review_decision: String::new(),
        status_check_rollup: vec![],
    }
}

fn spans(text: &StyledString) -> Vec<(String, Style)> {
    text.spans()
        .map(|span| (span.content.to_owned(), *span.attr))
        .collect()
}

#[test]
fn test_roll_up_checks_empty() {
    assert_eq!(roll_up_checks(&[]), CheckRollup::NoChecks);
}

#[test]
fn test_roll_up_checks_commit_statuses() {
    assert_eq!(
        roll_up_checks(&[check(Some("SUCCESS"), None, None)]),
        CheckRollup::Passing
    );
    assert_eq!(
        roll_up_checks(&[
            check(Some("SUCCESS"), None, None),
            check(Some("FAILURE"), None, None),
        ]),
        CheckRollup::Failing
    );
    assert_eq!(
        roll_up_checks(&[
            check(Some("SUCCESS"), None, None),
            check(Some("PENDING"), None, None),
        ]),
        CheckRollup::Pending
    );
}

#[test]
fn test_roll_up_checks_check_runs() {
    assert_eq!(
        roll_up_checks(&[check(None, Some("COMPLETED"), Some("SUCCESS"))]),
        CheckRollup::Passing
    );
    assert_eq!(
        roll_up_checks(&[check(None, Some("IN_PROGRESS"), None)]),
        CheckRollup::Pending
    );
    assert_eq!(
        roll_up_checks(&[check(None, Some("COMPLETED"), Some("FAILURE"))]),
        CheckRollup::Failing
    );
    // A failure dominates a pending check.
    assert_eq!(
        roll_up_checks(&[
            check(None, Some("IN_PROGRESS"), None),
            check(None, Some("COMPLETED"), Some("FAILURE")),
        ]),
        CheckRollup::Failing
    );
}

#[test]
fn checks_ignore_case_and_prefer_the_conclusion() {
    assert_eq!(
        roll_up_checks(&[check(Some("failure"), Some("completed"), Some("Neutral"))]),
        CheckRollup::Passing
    );
    assert_eq!(
        roll_up_checks(&[check(Some("skipped"), None, None)]),
        CheckRollup::Passing
    );
    for state in ["expected", "Queued", "in_progress"] {
        assert_eq!(
            roll_up_checks(&[check(Some(state), None, None)]),
            CheckRollup::Pending
        );
    }
    for state in ["ERROR", "TIMED_OUT", "CANCELLED", "ACTION_REQUIRED", ""] {
        assert_eq!(
            roll_up_checks(&[check(Some(state), None, None)]),
            CheckRollup::Failing
        );
    }
    // A check without an outcome has not succeeded.
    for unclear in [
        check(None, None, None),
        check(None, Some("COMPLETED"), None),
    ] {
        assert_eq!(
            roll_up_checks(&[check(Some("SUCCESS"), None, None), unclear]),
            CheckRollup::Pending
        );
    }
    assert_eq!(
        roll_up_checks(&[check(None, None, None)]),
        CheckRollup::Pending
    );
    assert_eq!(
        roll_up_checks(&[check(None, None, None), check(Some("ERROR"), None, None)]),
        CheckRollup::Failing
    );
    // An unfinished check run is pending, whatever its conclusion.
    assert_eq!(
        roll_up_checks(&[check(None, Some("QUEUED"), Some("FAILURE"))]),
        CheckRollup::Pending
    );
}

#[test]
fn checks_roll_up_in_any_order() {
    let good = || check(Some("SUCCESS"), None, None);
    let open = || check(Some("PENDING"), None, None);
    let bad = || check(Some("ERROR"), None, None);
    assert_eq!(roll_up_checks(&[bad(), open(), good()]), CheckRollup::Failing);
    assert_eq!(roll_up_checks(&[good(), open(), bad()]), CheckRollup::Failing);
    assert_eq!(roll_up_checks(&[open(), good()]), CheckRollup::Pending);
    assert_eq!(roll_up_checks(&[good(), open()]), CheckRollup::Pending);
}

/// Each commit that is the head of a pull request is annotated with that pull
/// request's number, review decision, and CI status.
#[test]
fn test_supersmartlog_shows_pull_request_status() {
    let mut first = pull_request(1, "62fc20d");
    first.review_decision = "APPROVED".to_string();
    first.status_check_rollup = vec![StatusCheck {
        state: Some("SUCCESS".to_string()),
        status: None,
        conclusion: None,
    }];
    let mut second = pull_request(2, "96d1c37");
    second.review_decision = "CHANGES_REQUESTED".to_string();
    second.status_check_rollup = vec![StatusCheck {
        state: None,
        status: Some("COMPLETED".to_string()),
        conclusion: Some("FAILURE".to_string()),
    }];

    let (descriptor, warning) = GithubStatusDescriptor::new(true, Some(vec![first, second]));
    assert_eq!(warning, None);
    let annotate = |hex: &str| {
        descriptor
            .describe_node(&NodeObject::Commit { oid: oid(hex) })
            .map(|text| text.source().to_owned())
    };
    assert_eq!(annotate("f777ecc"), None);
    assert_eq!(
        annotate("62fc20d").as_deref(),
        Some("#1 Approved Checks passing")
    );
    assert_eq!(
        annotate("96d1c37").as_deref(),
        Some("#2 Changes requested Checks failing")
    );
    assert!(descriptor
        .describe_node(&NodeObject::GarbageCollected { oid: oid("62fc20d") })
        .is_none());
}

/// When the GitHub status descriptor is disabled via config, nothing is
/// annotated.
#[test]
fn test_supersmartlog_status_disabled_by_config() {
    let (descriptor, warning) =
        GithubStatusDescriptor::new(false, Some(vec![pull_request(1, "62fc20d")]));
    assert_eq!(warning, None);
    assert!(descriptor
        .describe_node(&NodeObject::Commit { oid: oid("62fc20d") })
        .is_none());
}

#[test]
fn a_failed_query_warns_and_annotates_nothing() {
    let (descriptor, warning) = GithubStatusDescriptor::new(true, None);
    assert_eq!(
        warning.unwrap(),
        "warning: could not query GitHub pull request status; \
         rendering smartlog without it.\n\
         hint: ensure the `gh` command-line tool is installed and \
         authenticated, and that this is a GitHub repository."
    );
    assert!(descriptor
        .describe_node(&NodeObject::Commit { oid: oid("62fc20d") })
        .is_none());
    let (_, warning) = GithubStatusDescriptor::new(false, None);
    assert_eq!(warning, None);
}

#[test]
fn the_last_pull_request_with_a_head_counts() {
    let (descriptor, _) = GithubStatusDescriptor::new(
        true,
        Some(vec![
            pull_request(3, "abc"),
            pull_request(4, "def"),
            pull_request(5, "abc"),
        ]),
    );
    let text = descriptor
        .describe_node(&NodeObject::Commit { oid: oid("ABC") })
        .unwrap();
    assert_eq!(text.source(), "#5");
}

#[test]
fn pull_requests_are_rendered_in_color() {
    let mut info = pull_request(178, "abc");
    info.review_decision = "approved".to_owned();
    info.status_check_rollup = vec![check(Some("SUCCESS"), None, None)];
    let text = render_pull_request_status(&info);
    assert_eq!(text.source(), "#178 Approved Checks passing");
    assert_eq!(
        spans(&text),
        vec![
            ("#178".to_owned(), Style::none()),
            (" ".to_owned(), Style::none()),
            ("Approved".to_owned(), BaseColor::Green.light().into()),
            (" ".to_owned(), Style::none()),
            ("Checks passing".to_owned(), BaseColor::Green.light().into()),
        ]
    );

    info.status_check_rollup.push(check(None, Some("COMPLETED"), None));
    assert_eq!(
        render_pull_request_status(&info).source(),
        "#178 Approved Checks pending"
    );

    info.is_draft = true;
    info.review_decision = "REVIEW_REQUIRED".to_owned();
    info.status_check_rollup = vec![check(Some("PENDING"), None, None)];
    assert_eq!(
        spans(&render_pull_request_status(&info)),
        vec![
            ("#178".to_owned(), Style::none()),
            (" ".to_owned(), Style::none()),
            ("Draft".to_owned(), BaseColor::White.dark().into()),
            (" ".to_owned(), Style::none()),
            ("Review required".to_owned(), BaseColor::Yellow.light().into()),
            (" ".to_owned(), Style::none()),
            ("Checks pending".to_owned(), BaseColor::Yellow.light().into()),
        ]
    );
}

#[test]
fn only_open_pull_requests_show_reviews_and_checks() {
    let mut info = pull_request(7, "abc");
    info.review_decision = "APPROVED".to_owned();
    info.status_check_rollup = vec![check(Some("ERROR"), None, None)];
    let render = |info: &PullRequestInfo| render_pull_request_status(info).source().to_owned();
    assert_eq!(render(&info), "#7 Approved Checks failing");

    info.state = "merged".to_owned();
    assert_eq!(render(&info), "#7 Merged");
    assert_eq!(
        spans(&render_pull_request_status(&info))[2],
        ("Merged".to_owned(), BaseColor::Magenta.light().into())
    );
    info.state = "CLOSED".to_owned();
    assert_eq!(render(&info), "#7 Closed");
    assert_eq!(
        spans(&render_pull_request_status(&info))[2],
        ("Closed".to_owned(), BaseColor::Red.light().into())
    );

    // Without a state, only whether it is closed counts.
    info.state = String::new();
    assert_eq!(render(&info), "#7 Approved Checks failing");
    info.closed = true;
    assert_eq!(render(&info), "#7 Closed");

    // A state that is not known is neither open nor closed.
    info.state = "LOCKED".to_owned();
    assert_eq!(render(&info), "#7");
    info.is_draft = true;
    assert_eq!(render(&info), "#7 Draft");
}
