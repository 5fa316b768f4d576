//! The status accumulator: what a report says of the branch and of the
//! working tree, filled line by line.

use crate::scan::{
    count_value, has_prefix, lines_of, parse_count, split_lines, split_whitespace, starts_with,
    str_eq, tokens_of,
};
use vstd::prelude::*;

verus! {

/// What a report has said so far, as plain values.
pub struct StatusModel {
    pub head: Option<Seq<char>>,
    pub oid: Option<Seq<char>>,
    pub ahead: nat,
    pub behind: nat,
    pub staged: nat,
    pub unstaged: nat,
    pub untracked: nat,
}

/// The status before any line is read.
pub open spec fn empty_model() -> StatusModel {
    StatusModel {
        head: None,
        oid: None,
        ahead: 0,
        behind: 0,
        staged: 0,
        unstaged: 0,
        untracked: 0,
    }
}

/// One more, held at the largest `u32`.
pub open spec fn bump(n: nat) -> nat {
    if n < u32::MAX {
        n + 1
    } else {
        n
    }
}

/// Whether a status-code character reports a change on its side.
pub open spec fn is_change(c: char) -> bool {
    c != '.' && c != ' '
}

/// The ahead/behind tokens of a `branch.ab` header, read in order.
pub open spec fn apply_ab(m: StatusModel, toks: Seq<Seq<char>>) -> StatusModel
    decreases toks.len(),
{
    if toks.len() == 0 {
        m
    } else {
        let t = toks[0];
        let next = if t.len() > 0 && t[0] == '+' {
            StatusModel { ahead: count_value(t.drop_first()), ..m }
        } else if t.len() > 0 && t[0] == '-' {
            StatusModel { behind: count_value(t.drop_first()), ..m }
        } else {
            m
        };
        apply_ab(next, toks.drop_first())
    }
}

/// The status after the header line `line` (which starts with `"# "`).
pub open spec fn apply_header(m: StatusModel, line: Seq<char>) -> StatusModel {
    let toks = tokens_of(line.skip(2));
    if toks.len() == 0 {
        m
    } else if toks[0] == "branch.oid"@ {
        if toks.len() >= 2 {
            StatusModel { oid: Some(toks[1]), ..m }
        } else {
            m
        }
    } else if toks[0] == "branch.head"@ {
        if toks.len() >= 2 {
            StatusModel { head: Some(toks[1]), ..m }
        } else {
            m
        }
    } else if toks[0] == "branch.ab"@ {
        apply_ab(m, toks.drop_first())
    } else {
        m
    }
}

/// The index-side character of a change record's status code.
pub open spec fn index_code(line: Seq<char>) -> char {
    let toks = tokens_of(line);
    if toks.len() >= 2 && toks[1].len() >= 1 {
        toks[1][0]
    } else {
        '.'
    }
}

/// The worktree-side character of a change record's status code.
pub open spec fn worktree_code(line: Seq<char>) -> char {
    let toks = tokens_of(line);
    if toks.len() >= 2 && toks[1].len() >= 2 {
        toks[1][1]
    } else {
        '.'
    }
}

/// The status after the record line `line`.
pub open spec fn apply_record(m: StatusModel, line: Seq<char>) -> StatusModel {
    if starts_with(line, "? "@) {
        StatusModel { untracked: bump(m.untracked), ..m }
    } else if starts_with(line, "! "@) {
        m
    } else {
        StatusModel {
            staged: if is_change(index_code(line)) {
                bump(m.staged)
            } else {
                m.staged
            },
            unstaged: if is_change(worktree_code(line)) {
                bump(m.unstaged)
            } else {
                m.unstaged
            },
            ..m
        }
    }
}

/// The status after `line`: a header line where it starts with `"# "`,
/// else a record line.
pub open spec fn apply_line(m: StatusModel, line: Seq<char>) -> StatusModel {
    if starts_with(line, "# "@) {
        apply_header(m, line)
    } else {
        apply_record(m, line)
    }
}

/// The status after `lines`, read in order.
pub open spec fn apply_lines(m: StatusModel, lines: Seq<Seq<char>>) -> StatusModel
    decreases lines.len(),
{
    if lines.len() == 0 {
        m
    } else {
        apply_lines(apply_line(m, lines[0]), lines.drop_first())
    }
}

/// The status that the report `text` gives.
pub open spec fn parse_model(text: Seq<char>) -> StatusModel {
    apply_lines(empty_model(), lines_of(text))
}

/// The branch, divergence and change counts that a status report gives.
pub struct RepoStatus {
    /// The current branch, or `(detached)`.
    pub branch_head: Option<String>,
    /// The full commit hash of HEAD.
    pub branch_oid: Option<String>,
    /// Commits ahead of the upstream branch.
    pub ahead: u32,
    /// Commits behind the upstream branch.
    pub behind: u32,
    /// Entries with a change in the index.
    pub staged: u32,
    /// Entries with a change in the worktree.
    pub unstaged: u32,
    /// Untracked entries.
    pub untracked: u32,
}

/// The characters of an optional string.
pub open spec fn opt_view(o: Option<String>) -> Option<Seq<char>> {
    match o {
        Some(s) => Some(s@),
        None => None,
    }
}

impl View for RepoStatus {
    type V = StatusModel;

    open spec fn view(&self) -> StatusModel {
        StatusModel {
            head: opt_view(self.branch_head),
            oid: opt_view(self.branch_oid),
            ahead: self.ahead as nat,
            behind: self.behind as nat,
            staged: self.staged as nat,
            unstaged: self.unstaged as nat,
            untracked: self.untracked as nat,
        }
    }
}

impl Default for RepoStatus {
    fn default() -> (r: RepoStatus)
        ensures
            r@ == empty_model(),
    {
        RepoStatus::new()
    }
}

fn bumped(n: u32) -> (r: u32)
    ensures
        r == bump(n as nat),
{
    if n < u32::MAX {
        n + 1
    } else {
        n
    }
}

impl RepoStatus {
    /// A status with no branch information and all counts zero.
    pub fn new() -> (r: RepoStatus)
        ensures
            r@ == empty_model(),
    {
        RepoStatus {
            branch_head: None,
            branch_oid: None,
            ahead: 0,
            behind: 0,
            staged: 0,
            unstaged: 0,
            untracked: 0,
        }
    }

    /// Reads one line of a report.
    pub fn apply_line(&mut self, line: &str)
        ensures
            final(self)@ == apply_line(old(self)@, line@),
    {
        if has_prefix(line, "# ") {
            self.parse_header_line(line);
        } else {
            self.parse_record_line(line);
        }
    }

    /// Reads a whole report, line by line.
    pub fn parse(text: &str) -> (r: RepoStatus)
        ensures
            r@ == parse_model(text@),
    {
        let lines = split_lines(text);
        let ghost lv = lines@.map_values(|t: String| t@);
        let mut r = RepoStatus::new();
        let mut i: usize = 0;
        assert(lv.skip(0) =~= lv);
        while i < lines.len()
            invariant
                i <= lines.len(),
                lv == lines@.map_values(|t: String| t@),
                lv == lines_of(text@),
                apply_lines(r@, lv.skip(i as int)) == parse_model(text@),
            decreases lines.len() - i,
        {
            assert(lines[i as int]@ == lv[i as int]);
            assert(lv.skip(i as int).drop_first() =~= lv.skip(i + 1));
            r.apply_line(lines[i].as_str());
            i = i + 1;
        }
        assert(lv.skip(i as int) =~= Seq::<Seq<char>>::empty());
        r
    }

    /// Reads a header line: `branch.oid`, `branch.head` or `branch.ab`;
    /// other kinds, and values that are missing, change nothing.
    pub fn parse_header_line(&mut self, line: &str)
        requires
            starts_with(line@, "# "@),
        ensures
            final(self)@ == apply_header(old(self)@, line@),
    {
        proof {
            reveal_strlit("# ");
        }
        let rest = line.substring_char(2, line.unicode_len());
        assert(rest@ =~= line@.skip(2));
        let toks = split_whitespace(rest);
        let ghost tv = toks@.map_values(|t: String| t@);
        if toks.len() == 0 {
            return;
        }
        assert(toks[0]@ == tv[0]);
        if str_eq(toks[0].as_str(), "branch.oid") {
            if toks.len() >= 2 {
                assert(toks[1]@ == tv[1]);
                self.branch_oid = Some(toks[1].clone());
            }
        } else if str_eq(toks[0].as_str(), "branch.head") {
            if toks.len() >= 2 {
                assert(toks[1]@ == tv[1]);
                self.branch_head = Some(toks[1].clone());
            }
        } else if str_eq(toks[0].as_str(), "branch.ab") {
            let mut i: usize = 1;
            assert(tv.skip(1) =~= tv.drop_first());
            while i < toks.len()
                invariant
                    1 <= i <= toks.len(),
                    tv == toks@.map_values(|t: String| t@),
                    apply_ab(self@, tv.skip(i as int)) == apply_ab(old(self)@, tv.drop_first()),
                decreases toks.len() - i,
            {
                let t = toks[i].as_str();
                assert(t@ == tv[i as int]);
                assert(tv.skip(i as int).drop_first() =~= tv.skip(i + 1));
                let n = t.unicode_len();
                if n > 0 && t.get_char(0) == '+' {
                    let rest = t.substring_char(1, n);
                    assert(rest@ =~= t@.drop_first());
                    self.ahead = parse_count(rest);
                } else if n > 0 && t.get_char(0) == '-' {
                    let rest = t.substring_char(1, n);
                    assert(rest@ =~= t@.drop_first());
                    self.behind = parse_count(rest);
                }
                i = i + 1;
            }
            assert(tv.skip(i as int) =~= Seq::<Seq<char>>::empty());
        }
    }

    /// Reads a record line: an untracked entry, an ignored entry, or a
    /// change record whose two-character status code is counted side by side.
    pub fn parse_record_line(&mut self, line: &str)
        ensures
            final(self)@ == apply_record(old(self)@, line@),
    {
        if has_prefix(line, "? ") {
            self.untracked = bumped(self.untracked);
            return;
        }
        if has_prefix(line, "! ") {
            return;
        }
        let toks = split_whitespace(line);
        let ghost tv = toks@.map_values(|t: String| t@);
        let mut x = '.';
        let mut y = '.';
        if toks.len() >= 2 {
            let xy = toks[1].as_str();
            assert(xy@ == tv[1]);
            let n = xy.unicode_len();
            if n >= 1 {
                x = xy.get_char(0);
            }
            if n >= 2 {
                y = xy.get_char(1);
            }
        }
        if x != '.' && x != ' ' {
            self.staged = bumped(self.staged);
        }
        if y != '.' && y != ' ' {
            self.unstaged = bumped(self.unstaged);
        }
    }
}

} // verus!
