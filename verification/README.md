# branchless

Linked Git worktrees and pull-request status for branchless commands, with a
library verified by Verus.

- `src/` is the library. It reads the output of `git worktree list --porcelain`
  (`listing`), answers questions about worktrees (`worktree`), chooses where a
  new worktree goes (`naming`), decides what `worktree add`, `rm` and `list` do
  (`addition`, `hook`, `target`, `removal`, `summary`), and renders the status of
  pull requests (`github_status`). It performs no input or output. Paths,
  object IDs, reference names, texts and styled texts have modules of their own.
  Paths are Unix paths.
- `app/` runs Git, the hook and `gh`, and hands the library what they answered.
- `tests/` runs the library on concrete values.

Adding a worktree alternates questions and decisions, so it is a machine: the
program performs the action that the library asks for and hands back the answer.
What is said of the machine in `addition` holds of every run of it.

Styled strings come from `cursive_core`. What the library takes for granted of
them is stated in `style`, and of the standard library in `text`.
