//! Properties of reading and rendering that hold for every report.

use crate::render::{branch_label, count_segment, prompt, prompt_text};
use crate::scan::{count_value, lines_of, starts_with, tokens_of};
use crate::status::{
    apply_ab, apply_line, apply_lines, apply_record, empty_model, index_code, parse_model, worktree_code,
    RepoStatus, StatusModel,
};
use vstd::prelude::*;

verus! {

/// A report without any line names no branch and counts nothing: its
/// segment text is the label `DETACHED` alone.
pub proof fn lemma_empty_report(text: Seq<char>)
    requires
        lines_of(text).len() == 0,
    ensures
        parse_model(text) == empty_model(),
        prompt_text(parse_model(text)) == " "@ + "DETACHED"@,
{
    let m = parse_model(text);
    assert(count_segment(" ↑"@, m.ahead, ""@) =~= Seq::<char>::empty());
    assert(prompt_text(m) =~= " "@ + "DETACHED"@);
}

/// Rendering depends on the status alone: the same status always renders
/// to the same text.
pub proof fn lemma_render_deterministic(a: RepoStatus, b: RepoStatus)
    requires
        a@ == b@,
    ensures
        prompt(a@) == prompt(b@),
{
}

/// A record line of fewer than two tokens never counts a staged or an
/// unstaged change; unless it is an untracked entry, it changes nothing.
pub proof fn lemma_short_record(m: StatusModel, line: Seq<char>)
    requires
        tokens_of(line).len() < 2,
    ensures
        apply_record(m, line).staged == m.staged,
        apply_record(m, line).unstaged == m.unstaged,
        !starts_with(line, "? "@) ==> apply_record(m, line) == m,
{
    assert(index_code(line) == '.');
    assert(worktree_code(line) == '.');
}

/// Where no branch name is usable, the label is the first seven
/// characters of the commit hash.
pub proof fn lemma_label_from_oid(m: StatusModel, o: Seq<char>)
    requires
        m.head is None || m.head == Some("(detached)"@),
        m.oid == Some(o),
        o.len() >= 7,
    ensures
        branch_label(m) == o.take(7),
{
}

/// The staged, unstaged and untracked counts never decrease while a report
/// is read.
pub proof fn lemma_counts_monotone(m: StatusModel, lines: Seq<Seq<char>>)
    ensures
        m.staged <= apply_lines(m, lines).staged,
        m.unstaged <= apply_lines(m, lines).unstaged,
        m.untracked <= apply_lines(m, lines).untracked,
    decreases lines.len(),
{
    if lines.len() > 0 {
        let n = apply_line(m, lines[0]);
        lemma_line_counts_monotone(m, lines[0]);
        lemma_counts_monotone(n, lines.drop_first());
    }
}

/// One line never lowers the staged, unstaged or untracked count.
pub proof fn lemma_line_counts_monotone(m: StatusModel, line: Seq<char>)
    ensures
        m.staged <= apply_line(m, line).staged,
        m.unstaged <= apply_line(m, line).unstaged,
        m.untracked <= apply_line(m, line).untracked,
{
    if starts_with(line, "# "@) {
        lemma_ab_keeps_counts(m, tokens_of(line.skip(2)).drop_first());
    }
}

proof fn lemma_ab_keeps_counts(m: StatusModel, toks: Seq<Seq<char>>)
    ensures
        apply_ab(m, toks).staged == m.staged,
        apply_ab(m, toks).unstaged == m.unstaged,
        apply_ab(m, toks).untracked == m.untracked,
    decreases toks.len(),
{
    if toks.len() > 0 {
        let t = toks[0];
        let next = if t.len() > 0 && t[0] == '+' {
            StatusModel { ahead: count_value(t.drop_first()), ..m }
        } else if t.len() > 0 && t[0] == '-' {
            StatusModel { behind: count_value(t.drop_first()), ..m }
        } else {
            m
        };
        lemma_ab_keeps_counts(next, toks.drop_first());
    }
}

} // verus!
