//! The status of pull requests, as a supersmartlog annotates commits with it.

use cursive_core::utils::markup::StyledString;
use vstd::hash_map::StringHashMap;
use vstd::prelude::*;

use crate::oid::NonZeroOid;
use crate::style::{
    dark, light, plain, styled_spans, word, BaseColor, Shade, Span, StyledStringBuilder, TextColor,
};
use crate::text::{
    ascii_uppercase, decimal, eq_ignore_ascii_case, same_text, to_ascii_uppercase, to_decimal,
};

verus! {

/// One check of a pull request. GitHub gives either a legacy commit status, which
/// has a `state`, or a check run, which has a `status` and a `conclusion`.
#[derive(Debug)]
pub struct StatusCheck {
    pub state: Option<String>,
    pub status: Option<String>,
    pub conclusion: Option<String>,
}

/// What GitHub says of a pull request.
#[derive(Debug)]
pub struct PullRequestInfo {
    /// The number of the pull request.
    pub number: usize,
    /// The commit that the pull request asks to merge.
    pub head_ref_oid: NonZeroOid,
    /// Whether the pull request is closed.
    pub closed: bool,
    /// Whether the pull request is a draft.
    pub is_draft: bool,
    /// `OPEN`, `CLOSED` or `MERGED`; empty where GitHub did not say.
    pub state: String,
    /// `APPROVED`, `CHANGES_REQUESTED`, `REVIEW_REQUIRED` or something else.
    pub review_decision: String,
    /// The checks of the pull request.
    pub status_check_rollup: Vec<StatusCheck>,
}

/// The rolled-up status of a pull request's CI checks.
#[derive(Clone, Copy, Debug, Eq, PartialEq, Structural)]
pub enum CheckRollup {
    /// At least one check failed.
    Failing,
    /// No checks failed, but at least one is still running or queued, or has not
    /// said what came out of it.
    Pending,
    /// All checks succeeded (and there was at least one).
    Passing,
    /// There were no checks.
    NoChecks,
}

/// Whether two texts are equal but for the case of ASCII letters.
pub open spec fn same_word(left: Seq<char>, right: Seq<char>) -> bool {
    ascii_uppercase(left) == ascii_uppercase(right)
}

/// Whether a check is a check run that has not completed.
pub open spec fn is_unfinished(check: StatusCheck) -> bool {
    check.status matches Some(status) && !same_word(status@, "COMPLETED"@)
}

/// What came out of a check: its conclusion or else its state.
pub open spec fn check_outcome(check: StatusCheck) -> Option<Seq<char>> {
    match (check.conclusion, check.state) {
        (Some(conclusion), _) => Some(conclusion@),
        (None, Some(state)) => Some(state@),
        (None, None) => None,
    }
}

/// Whether an outcome is that of a check that did not fail.
pub open spec fn is_good_outcome(outcome: Seq<char>) -> bool {
    same_word(outcome, "SUCCESS"@) || same_word(outcome, "NEUTRAL"@) || same_word(
        outcome,
        "SKIPPED"@,
    )
}

/// Whether an outcome is that of a check which has none yet.
pub open spec fn is_open_outcome(outcome: Seq<char>) -> bool {
    same_word(outcome, "PENDING"@) || same_word(outcome, "EXPECTED"@) || same_word(
        outcome,
        "QUEUED"@,
    ) || same_word(outcome, "IN_PROGRESS"@)
}

/// Whether a check is still to come to an end. A check without an outcome has not
/// come to one, whatever its status.
pub open spec fn is_pending(check: StatusCheck) -> bool {
    is_unfinished(check) || match check_outcome(check) {
        Some(outcome) => is_open_outcome(outcome) && !is_good_outcome(outcome),
        None => true,
    }
}

/// Whether a check has come to a bad end.
pub open spec fn is_failing(check: StatusCheck) -> bool {
    !is_unfinished(check) && (check_outcome(check) matches Some(outcome) && !is_good_outcome(
        outcome,
    ) && !is_open_outcome(outcome))
}

/// The status that checks roll up into.
pub open spec fn rolled_up(checks: Seq<StatusCheck>) -> CheckRollup {
    if checks.len() == 0 {
        CheckRollup::NoChecks
    } else if exists|i: int| 0 <= i < checks.len() && is_failing(#[trigger] checks[i]) {
        CheckRollup::Failing
    } else if exists|i: int| 0 <= i < checks.len() && is_pending(#[trigger] checks[i]) {
        CheckRollup::Pending
    } else {
        CheckRollup::Passing
    }
}

/// Roll up the individual CI checks into a single status.
pub fn roll_up_checks(checks: &[StatusCheck]) -> (rollup: CheckRollup)
    ensures
        rollup == rolled_up(checks@),
{
    let mut failing = false;
    let mut pending = false;
    let mut i: usize = 0;
    while i < checks.len()
        invariant
            i <= checks@.len(),
            failing == exists|j: int| 0 <= j < i && is_failing(#[trigger] checks@[j]),
            pending == exists|j: int| 0 <= j < i && is_pending(#[trigger] checks@[j]),
        decreases checks.len() - i,
    {
        let check = &checks[i];
        let unfinished = match &check.status {
            Some(status) => !eq_ignore_ascii_case(status.as_str(), "COMPLETED"),
            None => false,
        };
        if unfinished {
            pending = true;
            assert(is_pending(checks@[i as int]));
        } else {
            let outcome = match &check.conclusion {
                Some(conclusion) => Some(conclusion.as_str()),
                None => match &check.state {
                    Some(state) => Some(state.as_str()),
                    None => None,
                },
            };
            if let Some(outcome) = outcome {
                assert(check_outcome(checks@[i as int]) == Some(outcome@));
                if eq_ignore_ascii_case(outcome, "SUCCESS") || eq_ignore_ascii_case(
                    outcome,
                    "NEUTRAL",
                ) || eq_ignore_ascii_case(outcome, "SKIPPED") {
                } else if eq_ignore_ascii_case(outcome, "PENDING") || eq_ignore_ascii_case(
                    outcome,
                    "EXPECTED",
                ) || eq_ignore_ascii_case(outcome, "QUEUED") || eq_ignore_ascii_case(
                    outcome,
                    "IN_PROGRESS",
                ) {
                    pending = true;
                    assert(is_pending(checks@[i as int]));
                } else {
                    failing = true;
                    assert(is_failing(checks@[i as int]));
                }
            } else {
                pending = true;
                assert(is_pending(checks@[i as int]));
            }
        }
        i = i + 1;
    }
    if checks.len() == 0 {
        CheckRollup::NoChecks
    } else if failing {
        CheckRollup::Failing
    } else if pending {
        CheckRollup::Pending
    } else {
        CheckRollup::Passing
    }
}

/// Whether a pull request is open: it says so or, where it says nothing, it is
/// not closed.
pub open spec fn is_open(info: PullRequestInfo) -> bool {
    let state = ascii_uppercase(info.state@);
    if state.len() == 0 {
        !info.closed
    } else {
        state == "OPEN"@
    }
}

/// How far a pull request has come.
pub open spec fn progress_spans(info: PullRequestInfo) -> Seq<Span> {
    let state = ascii_uppercase(info.state@);
    if state == "MERGED"@ {
        word("Merged"@, light(BaseColor::Magenta))
    } else if state == "CLOSED"@ || (state.len() == 0 && info.closed) {
        word("Closed"@, light(BaseColor::Red))
    } else if info.is_draft {
        word("Draft"@, dark(BaseColor::White))
    } else {
        seq![]
    }
}

/// What was decided on the changes.
pub open spec fn review_spans(review_decision: Seq<char>) -> Seq<Span> {
    let decision = ascii_uppercase(review_decision);
    if decision == "APPROVED"@ {
        word("Approved"@, light(BaseColor::Green))
    } else if decision == "CHANGES_REQUESTED"@ {
        word("Changes requested"@, light(BaseColor::Red))
    } else if decision == "REVIEW_REQUIRED"@ {
        word("Review required"@, light(BaseColor::Yellow))
    } else {
        seq![]
    }
}

/// How the checks are doing.
pub open spec fn rollup_spans(rollup: CheckRollup) -> Seq<Span> {
    match rollup {
        CheckRollup::Passing => word("Checks passing"@, light(BaseColor::Green)),
        CheckRollup::Failing => word("Checks failing"@, light(BaseColor::Red)),
        CheckRollup::Pending => word("Checks pending"@, light(BaseColor::Yellow)),
        CheckRollup::NoChecks => seq![],
    }
}

/// A pull request's status as it appears inline: its number and its progress
/// and, while it is open, the review decision and the checks.
pub open spec fn status_spans(info: PullRequestInfo) -> Seq<Span> {
    seq![plain("#"@ + decimal(info.number as nat))] + progress_spans(info) + if is_open(info) {
        review_spans(info.review_decision@) + rollup_spans(rolled_up(info.status_check_rollup@))
    } else {
        seq![]
    }
}

/// Render a single pull request's status as it appears inline in the
/// supersmartlog, e.g. `#178 Approved Checks passing`.
pub fn render_pull_request_status(info: &PullRequestInfo) -> (text: StyledString)
    ensures
        styled_spans(text) == status_spans(*info),
{
    let mut builder = StyledStringBuilder::new();
    let mut number = "#".to_owned();
    number.append(to_decimal(info.number as u64).as_str());
    builder.append_plain(number.as_str());
    assert(builder@ =~= seq![plain("#"@ + decimal(info.number as nat))]);

    let state = to_ascii_uppercase(info.state.as_str());
    let is_open = if state.as_str().is_empty() {
        !info.closed
    } else {
        same_text(state.as_str(), "OPEN")
    };
    let ghost before = builder@;
    if same_text(state.as_str(), "MERGED") {
        builder.append_light_word("Merged", BaseColor::Magenta);
    } else if same_text(state.as_str(), "CLOSED") || (state.as_str().is_empty() && info.closed) {
        builder.append_light_word("Closed", BaseColor::Red);
    } else if info.is_draft {
        builder.append_dark_word("Draft", BaseColor::White);
    }
    assert(builder@ =~= before + progress_spans(*info));

    // Review decision and CI status are only meaningful for open pull requests.
    if is_open {
        let ghost before = builder@;
        let decision = to_ascii_uppercase(info.review_decision.as_str());
        if same_text(decision.as_str(), "APPROVED") {
            builder.append_light_word("Approved", BaseColor::Green);
        } else if same_text(decision.as_str(), "CHANGES_REQUESTED") {
            builder.append_light_word("Changes requested", BaseColor::Red);
        } else if same_text(decision.as_str(), "REVIEW_REQUIRED") {
            builder.append_light_word("Review required", BaseColor::Yellow);
        }
        assert(builder@ =~= before + review_spans(info.review_decision@));
        match roll_up_checks(info.status_check_rollup.as_slice()) {
            CheckRollup::Passing => builder.append_light_word("Checks passing", BaseColor::Green),
            CheckRollup::Failing => builder.append_light_word("Checks failing", BaseColor::Red),
            CheckRollup::Pending => builder.append_light_word("Checks pending", BaseColor::Yellow),
            CheckRollup::NoChecks => {},
        }
    }
    assert(builder@ =~= status_spans(*info));
    builder.build()
}

/// Something that a log displays.
#[derive(Debug)]
pub enum NodeObject {
    /// A commit that is still there.
    Commit { oid: NonZeroOid },
    /// A commit that was garbage-collected.
    GarbageCollected { oid: NonZeroOid },
}

/// The pull requests by the digits of their head commits. Where several have the
/// same head, the last of them counts.
pub open spec fn by_head(infos: Seq<PullRequestInfo>) -> Map<Seq<char>, PullRequestInfo>
    decreases infos.len(),
{
    if infos.len() == 0 {
        Map::empty()
    } else {
        by_head(infos.drop_last()).insert(infos.last().head_ref_oid@, infos.last())
    }
}

/// What is told where GitHub could not be asked.
pub open spec fn query_warning() -> Seq<char> {
    "warning: could not query GitHub pull request status; rendering smartlog without it.\nhint: ensure the `gh` command-line tool is installed and authenticated, and that this is a GitHub repository."@
}

/// Displays the GitHub pull-request status for each commit in the supersmartlog.
pub struct GithubStatusDescriptor {
    is_enabled: bool,
    pull_requests_by_oid: StringHashMap<PullRequestInfo>,
}

impl GithubStatusDescriptor {
    /// Whether commits are annotated at all.
    pub closed spec fn enabled(&self) -> bool {
        self.is_enabled
    }

    /// The pull requests that commits are annotated with, by head commit.
    pub closed spec fn pull_requests(&self) -> Map<Seq<char>, PullRequestInfo> {
        self.pull_requests_by_oid@
    }

    /// Constructor, for whether annotations are configured and what GitHub
    /// answered; `None` where it could not be asked. The second result is a
    /// warning to print, if there is one: without an answer the descriptor renders
    /// nothing, rather than aborting the command.
    pub fn new(is_configured: bool, answer: Option<Vec<PullRequestInfo>>) -> (result: (
        GithubStatusDescriptor,
        Option<String>,
    ))
        ensures
            result.0.enabled() == (is_configured && answer is Some),
            result.0.pull_requests() == (match answer {
                Some(infos) if is_configured => by_head(infos@),
                _ => Map::empty(),
            }),
            result.1 is Some <==> is_configured && answer is None,
            result.1 matches Some(warning) ==> warning@ == query_warning(),
    {
        let mut pull_requests_by_oid: StringHashMap<PullRequestInfo> = StringHashMap::new();
        if !is_configured {
            return (GithubStatusDescriptor { is_enabled: false, pull_requests_by_oid }, None);
        }
        match answer {
            Some(infos) => {
                let ghost all = infos@;
                for info in it: infos
                    invariant
                        it.seq() == all,
                        pull_requests_by_oid@ == by_head(all.take(it.index() as int)),
                {
                    assert(all.take(it.index() + 1).drop_last() =~= all.take(it.index() as int));
                    pull_requests_by_oid.insert(info.head_ref_oid.as_str().to_owned(), info);
                }
                assert(all.take(all.len() as int) =~= all);
                (GithubStatusDescriptor { is_enabled: true, pull_requests_by_oid }, None)
            },
            None => {
                let warning = "warning: could not query GitHub pull request status; rendering smartlog without it.\nhint: ensure the `gh` command-line tool is installed and authenticated, and that this is a GitHub repository.".to_owned();
                (GithubStatusDescriptor { is_enabled: false, pull_requests_by_oid }, Some(warning))
            },
        }
    }

    /// The annotation of an object, if it has one: that of the pull request whose
    /// head the commit is.
    pub fn describe_node(&self, object: &NodeObject) -> (text: Option<StyledString>)
        ensures
            match text {
                Some(text) => {
                    &&& self.enabled()
                    &&& object matches NodeObject::Commit { oid }
                    &&& self.pull_requests().contains_key(oid@)
                    &&& styled_spans(text) == status_spans(self.pull_requests()[oid@])
                },
                None => !self.enabled() || (object matches NodeObject::Commit { oid }
                    ==> !self.pull_requests().contains_key(oid@)),
            },
    {
        if !self.is_enabled {
            return None;
        }
        match object {
            NodeObject::Commit { oid } => match self.pull_requests_by_oid.get(oid.as_str()) {
                Some(info) => Some(render_pull_request_status(info)),
                None => None,
            },
            NodeObject::GarbageCollected { oid: _ } => None,
        }
    }
}

/// The worse of two statuses: failing before pending before passing before none.
pub open spec fn worse(left: CheckRollup, right: CheckRollup) -> CheckRollup {
    if left is Failing || right is Failing {
        CheckRollup::Failing
    } else if left is Pending || right is Pending {
        CheckRollup::Pending
    } else if left is Passing || right is Passing {
        CheckRollup::Passing
    } else {
        CheckRollup::NoChecks
    }
}

/// Checks that are rolled up together are as bad as the worse part of them.
pub proof fn checks_roll_up_by_parts(left: Seq<StatusCheck>, right: Seq<StatusCheck>)
    ensures
        rolled_up(left + right) == worse(rolled_up(left), rolled_up(right)),
{
    let all = left + right;
    assert forall|i: int| 0 <= i < left.len() implies #[trigger] left[i] == all[i] by {}
    assert forall|i: int| 0 <= i < right.len() implies #[trigger] right[i] == all[left.len()
        + i] by {}
    assert forall|i: int| 0 <= i < all.len() implies (#[trigger] all[i] == if i < left.len() {
        left[i]
    } else {
        right[i - left.len()]
    }) by {}
}

/// The order of the checks does not matter.
pub proof fn checks_roll_up_in_any_order(left: Seq<StatusCheck>, right: Seq<StatusCheck>)
    requires
        left.to_multiset() == right.to_multiset(),
    ensures
        rolled_up(left) == rolled_up(right),
{
    broadcast use vstd::seq_lib::group_to_multiset_ensures;

    assert(left.len() == left.to_multiset().len() && right.len() == right.to_multiset().len());
    assert forall|check: StatusCheck| left.contains(check) == right.contains(check) by {
        assert(left.contains(check) <==> left.to_multiset().count(check) > 0);
        assert(right.contains(check) <==> right.to_multiset().count(check) > 0);
    }
    lemma_rolled_up_by_content(left, right);
    lemma_rolled_up_by_content(right, left);
}

/// What some check of the left is, some check of the right is.
proof fn lemma_rolled_up_by_content(left: Seq<StatusCheck>, right: Seq<StatusCheck>)
    requires
        forall|check: StatusCheck| left.contains(check) ==> right.contains(check),
    ensures
        (exists|i: int| 0 <= i < left.len() && is_failing(#[trigger] left[i])) ==> (exists|i: int|
            0 <= i < right.len() && is_failing(#[trigger] right[i])),
        (exists|i: int| 0 <= i < left.len() && is_pending(#[trigger] left[i])) ==> (exists|i: int|
            0 <= i < right.len() && is_pending(#[trigger] right[i])),
{
    assert forall|i: int| 0 <= i < left.len() implies right.contains(#[trigger] left[i]) by {
        assert(left.contains(left[i]));
    }
}

/// A failure dominates: whatever the other checks are, in whatever order.
pub proof fn failure_dominates(checks: Seq<StatusCheck>, i: int)
    requires
        0 <= i < checks.len(),
        is_failing(checks[i]),
    ensures
        rolled_up(checks) is Failing,
{
}

/// Where the checks are passing, every one of them has ended, and ended well.
pub proof fn passing_means_success(checks: Seq<StatusCheck>, i: int)
    requires
        rolled_up(checks) is Passing,
        0 <= i < checks.len(),
    ensures
        !is_unfinished(checks[i]),
        check_outcome(checks[i]) matches Some(outcome) && is_good_outcome(outcome),
{
    assert(!is_failing(checks[i]) && !is_pending(checks[i]));
}

/// No check is both failing and pending.
pub proof fn failing_checks_have_ended(check: StatusCheck)
    ensures
        !(is_failing(check) && is_pending(check)),
{
}

/// Of a pull request that is not open, neither reviews nor checks are shown.
pub proof fn only_open_pull_requests_show_checks(info: PullRequestInfo)
    requires
        !is_open(info),
    ensures
        status_spans(info) == seq![plain("#"@ + decimal(info.number as nat))] + progress_spans(
            info,
        ),
{
    assert(status_spans(info) =~= seq![plain("#"@ + decimal(info.number as nat))]
        + progress_spans(info));
}

/// An open pull request is shown neither as merged nor as closed.
pub proof fn open_pull_requests_are_not_shown_as_ended(info: PullRequestInfo)
    requires
        is_open(info),
    ensures
        progress_spans(info) == (if info.is_draft {
            word("Draft"@, dark(BaseColor::White))
        } else {
            seq![]
        }),
{
    lemma_states_differ();
}

/// A commit has a pull request where one has it as its head, and nowhere else;
/// and the pull request it has is one of those.
pub proof fn pull_requests_are_found_at_their_heads(infos: Seq<PullRequestInfo>, oid: Seq<char>)
    ensures
        by_head(infos).contains_key(oid) <==> exists|i: int|
            0 <= i < infos.len() && (#[trigger] infos[i]).head_ref_oid@ == oid,
        by_head(infos).contains_key(oid) ==> by_head(infos)[oid].head_ref_oid@ == oid
            && infos.contains(by_head(infos)[oid]),
    decreases infos.len(),
{
    if infos.len() > 0 {
        let before = infos.drop_last();
        pull_requests_are_found_at_their_heads(before, oid);
        assert forall|i: int| 0 <= i < before.len() implies #[trigger] before[i] == infos[i] by {}
        assert(infos[infos.len() - 1] == infos.last());
        if infos.last().head_ref_oid@ != oid {
            if by_head(infos).contains_key(oid) {
                let i = choose|i: int|
                    0 <= i < before.len() && (#[trigger] before[i]).head_ref_oid@ == oid;
                assert(infos[i].head_ref_oid@ == oid);
                let j = choose|j: int| 0 <= j < before.len() && before[j] == by_head(before)[oid];
                assert(infos[j] == by_head(infos)[oid]);
            }
            if exists|i: int| 0 <= i < infos.len() && (#[trigger] infos[i]).head_ref_oid@ == oid {
                let i = choose|i: int|
                    0 <= i < infos.len() && (#[trigger] infos[i]).head_ref_oid@ == oid;
                assert(before[i].head_ref_oid@ == oid);
            }
        }
    }
}

/// A single check rolls up to pending while it has a status other than completed,
/// whatever came out of it. Else its conclusion decides or, without one, its state:
/// a success, a neutral and a skipped check pass; one that is pending, expected,
/// queued or in progress is pending, and so is one without an outcome; any other
/// has failed. Case does not matter.
pub proof fn one_check_rolls_up_by_its_outcome(check: StatusCheck)
    ensures
        rolled_up(seq![]) is NoChecks,
        check.status matches Some(status) && ascii_uppercase(status@) != ascii_uppercase(
            "COMPLETED"@,
        ) ==> rolled_up(seq![check]) is Pending,
        !(check.status matches Some(status) && ascii_uppercase(status@) != ascii_uppercase(
            "COMPLETED"@,
        )) ==> {
            let outcome = match check.conclusion {
                Some(conclusion) => Some(ascii_uppercase(conclusion@)),
                None => match check.state {
                    Some(state) => Some(ascii_uppercase(state@)),
                    None => None,
                },
            };
            match outcome {
                None => rolled_up(seq![check]) is Pending,
                Some(outcome) => {
                    let is_good = outcome == ascii_uppercase("SUCCESS"@) || outcome
                        == ascii_uppercase("NEUTRAL"@) || outcome == ascii_uppercase("SKIPPED"@);
                    let is_open = outcome == ascii_uppercase("PENDING"@) || outcome
                        == ascii_uppercase("EXPECTED"@) || outcome == ascii_uppercase("QUEUED"@)
                        || outcome == ascii_uppercase("IN_PROGRESS"@);
                    &&& is_good ==> rolled_up(seq![check]) is Passing
                    &&& is_open ==> rolled_up(seq![check]) is Pending
                    &&& !is_good && !is_open ==> rolled_up(seq![check]) is Failing
                },
            }
        },
{
    let checks = seq![check];
    lemma_outcomes_differ();
    assert(checks[0] == check);
    if let Some(outcome) = check_outcome(check) {
        assert(is_open_outcome(outcome) ==> !is_good_outcome(outcome));
    }
    assert(is_failing(check) ==> rolled_up(checks) is Failing) by {
        assert(is_failing(check) ==> is_failing(checks[0]));
    }
    assert(is_pending(check) ==> rolled_up(checks) is Pending) by {
        assert(is_pending(check) ==> is_pending(checks[0]));
    }
}

/// No outcome is both a good and an open one.
proof fn lemma_outcomes_differ()
    ensures
        forall|outcome: Seq<char>| #[trigger] is_open_outcome(outcome) ==> !is_good_outcome(outcome),
{
    reveal_strlit("SUCCESS");
    reveal_strlit("NEUTRAL");
    reveal_strlit("SKIPPED");
    reveal_strlit("PENDING");
    reveal_strlit("EXPECTED");
    reveal_strlit("QUEUED");
    reveal_strlit("IN_PROGRESS");
    assert(ascii_uppercase("SUCCESS"@)[0] == 'S');
    assert(ascii_uppercase("NEUTRAL"@)[0] == 'N');
    assert(ascii_uppercase("SKIPPED"@)[0] == 'S');
    assert(ascii_uppercase("PENDING"@)[0] == 'P');
    assert(ascii_uppercase("EXPECTED"@)[0] == 'E');
    assert(ascii_uppercase("QUEUED"@)[0] == 'Q');
    assert(ascii_uppercase("IN_PROGRESS"@)[0] == 'I');
}

/// One more check can only make things worse: it fails what did not fail, keeps
/// pending what did not fail, and leaves a status that is as bad as its own.
pub proof fn one_more_check_makes_nothing_better(checks: Seq<StatusCheck>, check: StatusCheck)
    ensures
        ({
            let before = rolled_up(checks);
            let own = rolled_up(seq![check]);
            let after = rolled_up(checks.push(check));
            &&& after is Failing <==> before is Failing || own is Failing
            &&& after is Pending <==> !(before is Failing || own is Failing) && (before is Pending
                || own is Pending)
            &&& after is Passing <==> (before is Passing || before is NoChecks) && own is Passing
            &&& !(after is NoChecks)
        }),
{
    checks_roll_up_by_parts(checks, seq![check]);
    assert(checks + seq![check] =~= checks.push(check));
    assert(seq![check].len() == 1);
}

/// A pull request is open where its state says so in any case or, where it has no
/// state, where it is not closed.
pub proof fn open_pull_requests_say_so(info: PullRequestInfo)
    ensures
        info.state@.len() > 0 ==> (is_open(info) <==> ascii_uppercase(info.state@) == "OPEN"@),
        info.state@.len() == 0 ==> (is_open(info) <==> !info.closed),
{
}

/// What is rendered starts with `#` and the number. A merged pull request is then
/// shown as merged in light magenta and a closed one as closed in light red, and
/// nothing follows. Any other that is a draft is shown as a draft in dark white,
/// and nothing follows unless it is open.
pub proof fn progress_follows_the_number(info: PullRequestInfo)
    ensures
        ({
            let spans = status_spans(info);
            let state = ascii_uppercase(info.state@);
            let space = Span { content: " "@, color: None };
            let is_merged = state == "MERGED"@;
            let is_closed = state == "CLOSED"@ || (state.len() == 0 && info.closed);
            &&& spans.len() >= 1
            &&& spans[0] == (Span { content: "#"@ + decimal(info.number as nat), color: None })
            &&& is_merged ==> spans.len() == 3 && spans[1] == space && spans[2] == (Span {
                content: "Merged"@,
                color: Some(TextColor { base: BaseColor::Magenta, shade: Shade::Light }),
            })
            &&& is_closed && !is_merged ==> spans.len() == 3 && spans[1] == space && spans[2] == (
            Span {
                content: "Closed"@,
                color: Some(TextColor { base: BaseColor::Red, shade: Shade::Light }),
            })
            &&& !is_merged && !is_closed && info.is_draft ==> spans.len() >= 3 && spans[1] == space
                && spans[2] == (Span {
                content: "Draft"@,
                color: Some(TextColor { base: BaseColor::White, shade: Shade::Dark }),
            })
            &&& !is_open(info) && !is_merged && !is_closed ==> spans.len() == if info.is_draft {
                3int
            } else {
                1int
            }
        }),
{
    lemma_states_differ();
}

proof fn lemma_states_differ()
    ensures
        "OPEN"@.len() == 4,
        "MERGED"@.len() == 6,
        "CLOSED"@.len() == 6,
        "MERGED"@ != "CLOSED"@,
{
    reveal_strlit("OPEN");
    reveal_strlit("MERGED");
    reveal_strlit("CLOSED");
    assert("MERGED"@[0] != "CLOSED"@[0]);
}

/// Of every open pull request with a check, the last span tells how the checks roll
/// up, whatever the review decision is and whether or not it is a draft; a space
/// stands before it.
pub proof fn checks_are_shown_last(info: PullRequestInfo)
    requires
        is_open(info),
        info.status_check_rollup@.len() > 0,
    ensures
        ({
            let spans = status_spans(info);
            let last = spans[spans.len() - 1];
            &&& spans.len() >= 3
            &&& spans[spans.len() - 2] == (Span { content: " "@, color: None })
            &&& match rolled_up(info.status_check_rollup@) {
                CheckRollup::Failing => last == (Span {
                    content: "Checks failing"@,
                    color: Some(TextColor { base: BaseColor::Red, shade: Shade::Light }),
                }),
                CheckRollup::Pending => last == (Span {
                    content: "Checks pending"@,
                    color: Some(TextColor { base: BaseColor::Yellow, shade: Shade::Light }),
                }),
                CheckRollup::Passing => last == (Span {
                    content: "Checks passing"@,
                    color: Some(TextColor { base: BaseColor::Green, shade: Shade::Light }),
                }),
                CheckRollup::NoChecks => false,
            }
        }),
{
}

/// The review decision of an open pull request, where it is one of the three that
/// are known, is shown behind the number or the mark of a draft, whatever the checks
/// are. The checks add two spans where there are any, and nothing else is shown.
pub proof fn review_decisions_are_shown_first(info: PullRequestInfo)
    requires
        is_open(info),
    ensures
        ({
            let spans = status_spans(info);
            let decision = ascii_uppercase(info.review_decision@);
            let start: int = if info.is_draft {
                3
            } else {
                1
            };
            let checks: int = if info.status_check_rollup@.len() > 0 {
                2
            } else {
                0
            };
            let space = Span { content: " "@, color: None };
            &&& decision == "APPROVED"@ ==> spans.len() == start + 2 + checks && spans[start]
                == space && spans[start + 1] == (Span {
                content: "Approved"@,
                color: Some(TextColor { base: BaseColor::Green, shade: Shade::Light }),
            })
            &&& decision == "CHANGES_REQUESTED"@ ==> spans.len() == start + 2 + checks
                && spans[start] == space && spans[start + 1] == (Span {
                content: "Changes requested"@,
                color: Some(TextColor { base: BaseColor::Red, shade: Shade::Light }),
            })
            &&& decision == "REVIEW_REQUIRED"@ ==> spans.len() == start + 2 + checks && spans[start]
                == space && spans[start + 1] == (Span {
                content: "Review required"@,
                color: Some(TextColor { base: BaseColor::Yellow, shade: Shade::Light }),
            })
            &&& decision != "APPROVED"@ && decision != "CHANGES_REQUESTED"@ && decision
                != "REVIEW_REQUIRED"@ ==> spans.len() == start + checks
        }),
{
    lemma_states_differ();
    reveal_strlit("APPROVED");
    reveal_strlit("CHANGES_REQUESTED");
    reveal_strlit("REVIEW_REQUIRED");
    assert("APPROVED"@.len() == 8 && "CHANGES_REQUESTED"@.len() == 17);
    assert("REVIEW_REQUIRED"@.len() == 15);
}

/// The head of a pull request does not show in what is rendered of it, and neither
/// do the checks of one that is not open.
pub proof fn rendering_depends_on_what_is_shown(left: PullRequestInfo, right: PullRequestInfo)
    requires
        left.number == right.number,
        left.closed == right.closed,
        left.is_draft == right.is_draft,
        left.state@ == right.state@,
        is_open(left) ==> {
            &&& ascii_uppercase(left.review_decision@) == ascii_uppercase(right.review_decision@)
            &&& rolled_up(left.status_check_rollup@) == rolled_up(right.status_check_rollup@)
        },
    ensures
        status_spans(left) == status_spans(right),
{
}

/// A commit has the last pull request that it is the head of.
pub proof fn the_last_pull_request_with_a_head_counts(infos: Seq<PullRequestInfo>, i: int)
    requires
        0 <= i < infos.len(),
        forall|j: int|
            i < j < infos.len() ==> (#[trigger] infos[j]).head_ref_oid@ != infos[i].head_ref_oid@,
    ensures
        by_head(infos).contains_key(infos[i].head_ref_oid@),
        by_head(infos)[infos[i].head_ref_oid@] == infos[i],
    decreases infos.len(),
{
    if i < infos.len() - 1 {
        let before = infos.drop_last();
        assert(infos[infos.len() - 1].head_ref_oid@ != infos[i].head_ref_oid@);
        assert(before[i] == infos[i]);
        assert forall|j: int| i < j < before.len() implies (#[trigger] before[j]).head_ref_oid@
            != before[i].head_ref_oid@ by {
            assert(before[j] == infos[j]);
        }
        the_last_pull_request_with_a_head_counts(before, i);
    }
}

} // verus!
