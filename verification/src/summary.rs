//! How worktrees are shown in a list.

use cursive_core::utils::markup::StyledString;
use vstd::prelude::*;

use crate::reference::branch_short_name;
use crate::style::{
    colored, dark, light, plain, styled_spans, word, BaseColor, Shade, Span, StyledStringBuilder,
    TextColor,
};
use crate::text::{chars_of, shown_text, string_of};
use crate::worktree::{display_name, EntryModel, WorktreeEntry, WorktreeSnapshot};

verus! {

/// What is shown of a commit.
#[derive(Debug)]
pub struct CommitSummary {
    /// The object ID, abbreviated.
    pub short_oid: String,
    /// How long ago the commit was made.
    pub age: String,
    /// The first line of the commit message.
    pub summary: String,
}

/// What is shown of the commit that a worktree has checked out. A worktree
/// without a commit has none to show, and a commit may be unavailable.
pub open spec fn head_spans(head_oid: Option<Seq<char>>, commit: Option<CommitSummary>) -> Seq<
    Span,
> {
    match (head_oid, commit) {
        (Some(_), Some(commit)) => word(commit.short_oid@, dark(BaseColor::Yellow)) + word(
            commit.age@,
            dark(BaseColor::Green),
        ) + seq![plain(" "@), plain(commit.summary@)],
        (Some(oid), None) => word(oid.take(8), dark(BaseColor::Yellow)) + word(
            "<unborn or unavailable>"@,
            light(BaseColor::Yellow),
        ),
        (None, _) => word("<unborn or unavailable>"@, light(BaseColor::Yellow)),
    }
}

/// The line that describes a worktree: a mark, its name, its branch and its
/// commit.
pub open spec fn summary_spans(entry: EntryModel, commit: Option<CommitSummary>) -> Seq<Span> {
    seq![
        colored(
            if entry.is_current {
                "ᐅ"@
            } else {
                "⎇"@
            },
            light(BaseColor::Blue),
        ),
    ] + word(display_name(entry.path), light(BaseColor::Blue)) + match entry.branch_name {
        Some(branch_name) => word(branch_short_name(branch_name), light(BaseColor::Green)),
        None => seq![],
    } + head_spans(entry.head_oid, commit)
}

/// The line that describes a worktree, given the commit that its OID names, if
/// that was found.
pub fn describe_worktree_summary(entry: &WorktreeEntry, commit: &Option<CommitSummary>) -> (text:
    StyledString)
    ensures
        styled_spans(text) == summary_spans(entry@, *commit),
{
    let mut builder = StyledStringBuilder::new();
    let icon = if entry.is_current { "ᐅ" } else { "⎇" };
    builder.append_styled(icon, TextColor { base: BaseColor::Blue, shade: Shade::Light });
    builder.append_light_word(entry.display_name().as_str(), BaseColor::Blue);
    if let Some(branch_name) = &entry.branch_name {
        builder.append_light_word(branch_name.short_name().as_str(), BaseColor::Green);
    }
    let ghost before = builder@;
    match (&entry.head_oid, commit) {
        (Some(_), Some(commit)) => {
            builder.append_dark_word(commit.short_oid.as_str(), BaseColor::Yellow);
            builder.append_dark_word(commit.age.as_str(), BaseColor::Green);
            builder.append_plain(" ");
            builder.append_plain(commit.summary.as_str());
        },
        (Some(oid), None) => {
            let digits = chars_of(oid.as_str());
            let short_oid = string_of(&digits, 0, 8);
            assert(short_oid@ =~= oid@.take(8));
            builder.append_dark_word(short_oid.as_str(), BaseColor::Yellow);
            builder.append_light_word("<unborn or unavailable>", BaseColor::Yellow);
        },
        (None, _) => {
            builder.append_light_word("<unborn or unavailable>", BaseColor::Yellow);
        },
    }
    assert(builder@ =~= before + head_spans(entry@.head_oid, *commit));
    assert(builder@ =~= summary_spans(entry@, *commit));
    builder.build()
}

/// The line that says where a worktree is.
pub open spec fn path_spans(path: Seq<u8>) -> Seq<Span> {
    seq![plain("  "@), colored(shown_text(path), light(BaseColor::Black))]
}

/// The commit of the worktree at position `i`, if it was found.
pub open spec fn commit_at(commits: Seq<Option<CommitSummary>>, i: int) -> Option<CommitSummary> {
    if 0 <= i < commits.len() {
        commits[i]
    } else {
        None
    }
}

/// The lines that list the first `count` worktrees: two for each, and an empty
/// one between two worktrees.
pub open spec fn list_lines(
    entries: Seq<EntryModel>,
    commits: Seq<Option<CommitSummary>>,
    count: nat,
) -> Seq<Seq<Span>>
    decreases count,
{
    if count == 0 {
        seq![]
    } else {
        let i = count - 1;
        list_lines(entries, commits, i as nat) + if i > 0 {
            seq![Seq::<Span>::empty()]
        } else {
            seq![]
        } + seq![
            summary_spans(entries[i], commit_at(commits, i)),
            path_spans(entries[i].path),
        ]
    }
}

/// The spans of styled strings, in turn.
pub open spec fn spans_of_lines(lines: Seq<StyledString>) -> Seq<Seq<Span>> {
    lines.map_values(|line: StyledString| styled_spans(line))
}

fn push_line(lines: &mut Vec<StyledString>, line: StyledString)
    ensures
        spans_of_lines(final(lines)@) == spans_of_lines(old(lines)@).push(styled_spans(line)),
{
    lines.push(line);
    assert(spans_of_lines(lines@) =~= spans_of_lines(old(lines)@).push(styled_spans(line)));
}

/// The lines that list the worktrees. `commits` holds, for each worktree, the
/// commit that its OID names, if that was found.
pub fn list_worktrees(snapshot: &WorktreeSnapshot, commits: &Vec<Option<CommitSummary>>) -> (lines:
    Vec<StyledString>)
    ensures
        spans_of_lines(lines@) == list_lines(snapshot@, commits@, snapshot@.len()),
{
    let mut lines: Vec<StyledString> = Vec::new();
    let nothing: Option<CommitSummary> = None;
    let mut i: usize = 0;
    assert(spans_of_lines(lines@) =~= list_lines(snapshot@, commits@, 0));
    while i < snapshot.entries.len()
        invariant
            nothing is None,
            i <= snapshot.entries.len(),
            spans_of_lines(lines@) == list_lines(snapshot@, commits@, i as nat),
        decreases snapshot.entries.len() - i,
    {
        let entry = &snapshot.entries[i];
        if i > 0 {
            push_line(&mut lines, StyledStringBuilder::new().build());
        }
        let commit = if i < commits.len() { &commits[i] } else { &nothing };
        assert(*commit == commit_at(commits@, i as int));
        push_line(&mut lines, describe_worktree_summary(entry, commit));
        let mut path = StyledStringBuilder::new();
        path.append_plain("  ");
        path.append_styled(
            entry.path.to_text_lossy().as_str(),
            TextColor { base: BaseColor::Black, shade: Shade::Light },
        );
        assert(path@ =~= path_spans(entry@.path));
        push_line(&mut lines, path.build());
        assert(spans_of_lines(lines@) =~= list_lines(snapshot@, commits@, (i + 1) as nat));
        i = i + 1;
    }
    lines
}

/// Every worktree is listed, in order: with a line that describes it, a line that
/// says where it is and, unless it is the last, an empty line behind them.
pub proof fn every_worktree_is_listed(
    entries: Seq<EntryModel>,
    commits: Seq<Option<CommitSummary>>,
    count: nat,
    i: int,
)
    requires
        0 <= i < count <= entries.len(),
    ensures
        list_lines(entries, commits, count).len() == 3 * count - 1,
        list_lines(entries, commits, count)[3 * i] == summary_spans(
            entries[i],
            commit_at(commits, i),
        ),
        list_lines(entries, commits, count)[3 * i + 1] == path_spans(entries[i].path),
        i + 1 < count ==> list_lines(entries, commits, count)[3 * i + 2] == Seq::<Span>::empty(),
    decreases count,
{
    let before = (count - 1) as nat;
    let last = seq![
        summary_spans(entries[count - 1], commit_at(commits, count - 1)),
        path_spans(entries[count - 1].path),
    ];
    if before == 0 {
        assert(list_lines(entries, commits, before).len() == 0);
        assert(list_lines(entries, commits, count) =~= last);
    } else {
        let earlier = list_lines(entries, commits, before);
        assert(list_lines(entries, commits, count) =~= earlier + seq![Seq::<Span>::empty()] + last);
        every_worktree_is_listed(
            entries,
            commits,
            before,
            if i < before {
                i
            } else {
                0
            },
        );
    }
}

/// The line of a worktree starts with its mark, which tells whether it is current,
/// a space and its name, both in light blue. Where it is on a branch, current or
/// not, a space and the short name of the branch in light green follow.
pub proof fn summaries_show_name_and_branch(entry: EntryModel, commit: Option<CommitSummary>)
    ensures
        ({
            let spans = summary_spans(entry, commit);
            let blue = Some(TextColor { base: BaseColor::Blue, shade: Shade::Light });
            &&& spans.len() >= 3
            &&& spans[0].color == blue
            &&& entry.is_current ==> spans[0].content == "ᐅ"@
            &&& !entry.is_current ==> spans[0].content == "⎇"@
            &&& spans[1] == (Span { content: " "@, color: None })
            &&& spans[2] == (Span { content: display_name(entry.path), color: blue })
            &&& entry.branch_name matches Some(branch_name) ==> {
                &&& spans.len() >= 5
                &&& spans[3] == (Span { content: " "@, color: None })
                &&& spans[4] == (Span {
                    content: branch_short_name(branch_name),
                    color: Some(TextColor { base: BaseColor::Green, shade: Shade::Light }),
                })
            }
        }),
{
}

/// Behind name and branch, the line of a worktree shows its commit: its short ID in
/// dark yellow, its age in dark green and its summary. A commit that is not
/// available is shown by the first eight digits of its ID, and one that is missing
/// not at all, with a note in light yellow. Nothing else follows.
pub proof fn summaries_show_the_commit(entry: EntryModel, commit: Option<CommitSummary>)
    ensures
        ({
            let spans = summary_spans(entry, commit);
            let start: int = if entry.branch_name is Some {
                5
            } else {
                3
            };
            let space = Span { content: " "@, color: None };
            let yellow = Some(TextColor { base: BaseColor::Yellow, shade: Shade::Dark });
            let green = Some(TextColor { base: BaseColor::Green, shade: Shade::Dark });
            let note = Span {
                content: "<unborn or unavailable>"@,
                color: Some(TextColor { base: BaseColor::Yellow, shade: Shade::Light }),
            };
            match (entry.head_oid, commit) {
                (Some(_), Some(commit)) => {
                    &&& spans.len() == start + 6
                    &&& spans[start] == space
                    &&& spans[start + 1] == (Span { content: commit.short_oid@, color: yellow })
                    &&& spans[start + 2] == space
                    &&& spans[start + 3] == (Span { content: commit.age@, color: green })
                    &&& spans[start + 4] == space
                    &&& spans[start + 5] == (Span { content: commit.summary@, color: None })
                },
                (Some(oid), None) => {
                    &&& spans.len() == start + 4
                    &&& spans[start] == space
                    &&& spans[start + 1] == (Span { content: oid.take(8), color: yellow })
                    &&& spans[start + 2] == space
                    &&& spans[start + 3] == note
                },
                (None, _) => {
                    &&& spans.len() == start + 2
                    &&& spans[start] == space
                    &&& spans[start + 1] == note
                },
            }
        }),
{
}

/// Whether a worktree is current shows in the first span of its line alone, and
/// whether it is the main one does not show at all.
pub proof fn only_the_mark_tells_the_current_worktree(
    left: EntryModel,
    right: EntryModel,
    commit: Option<CommitSummary>,
)
    requires
        left.path == right.path,
        left.head_oid == right.head_oid,
        left.branch_name == right.branch_name,
    ensures
        summary_spans(left, commit).skip(1) == summary_spans(right, commit).skip(1),
        left.is_current == right.is_current ==> summary_spans(left, commit) == summary_spans(
            right,
            commit,
        ),
        left.is_current != right.is_current ==> summary_spans(left, commit)[0] != summary_spans(
            right,
            commit,
        )[0],
{
    reveal_strlit("ᐅ");
    reveal_strlit("⎇");
    assert("ᐅ"@[0] != "⎇"@[0]);
    assert(summary_spans(left, commit).skip(1) =~= summary_spans(right, commit).skip(1));
    if left.is_current == right.is_current {
        assert(summary_spans(left, commit) =~= summary_spans(right, commit));
    }
}

/// A path is shown behind two spaces in light black, and each worktree is shown with
/// the commit that was found for it.
pub proof fn paths_are_indented(path: Seq<u8>, commits: Seq<Option<CommitSummary>>, i: int)
    ensures
        path_spans(path).len() == 2,
        path_spans(path)[0] == (Span { content: "  "@, color: None }),
        path_spans(path)[1] == (Span {
            content: shown_text(path),
            color: Some(TextColor { base: BaseColor::Black, shade: Shade::Light }),
        }),
        0 <= i < commits.len() ==> commit_at(commits, i) == commits[i],
        !(0 <= i < commits.len()) ==> commit_at(commits, i) is None,
{
}

/// Where there are no worktrees, nothing is listed; and each worktree that is added
/// to a list leaves the lines before it as they are.
pub proof fn lists_grow_at_their_end(
    entries: Seq<EntryModel>,
    commits: Seq<Option<CommitSummary>>,
    count: nat,
)
    ensures
        list_lines(entries, commits, 0).len() == 0,
        list_lines(entries, commits, count).is_prefix_of(list_lines(entries, commits, count + 1)),
{
    let lines = list_lines(entries, commits, count);
    assert(lines =~= list_lines(entries, commits, count + 1).take(lines.len() as int));
}

} // verus!
