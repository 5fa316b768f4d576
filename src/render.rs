//! The prompt segment: a branch label, then the non-zero counts, in a
//! 24-bit colour escape.

use crate::scan::{decimal, push_decimal, str_eq};
use crate::status::{RepoStatus, StatusModel};
use vstd::prelude::*;

verus! {

/// What names the branch: the branch name, else the first seven
/// characters of the commit hash, else `DETACHED`.
pub open spec fn branch_label(m: StatusModel) -> Seq<char> {
    match m.head {
        Some(h) if h != "(detached)"@ => h,
        _ => match m.oid {
            Some(o) => if o.len() < 7 {
                o
            } else {
                o.take(7)
            },
            None => "DETACHED"@,
        },
    }
}

/// `open`, the decimal count and `close`, where the count is not zero.
pub open spec fn count_segment(open: Seq<char>, n: nat, close: Seq<char>) -> Seq<char> {
    if n > 0 {
        open + decimal(n) + close
    } else {
        Seq::empty()
    }
}

/// The text of the segment, before colouring.
pub open spec fn prompt_text(m: StatusModel) -> Seq<char> {
    " "@ + branch_label(m) + count_segment(" ↑"@, m.ahead, ""@) + count_segment(
        " ↓"@,
        m.behind,
        ""@,
    ) + count_segment(" [!"@, m.staged, "]"@) + count_segment(" [+"@, m.unstaged, "]"@)
        + count_segment(" [?"@, m.untracked, "]"@)
}

/// The coloured segment: white on teal, padded by a space on each side,
/// then a reset.
pub open spec fn prompt(m: StatusModel) -> Seq<char> {
    "\x1b[38;2;255;255;255;48;2;6;150;154m "@ + prompt_text(m) + " \x1b[0m"@
}

fn push_count(out: &mut String, open: &str, n: u32, close: &str)
    ensures
        final(out)@ == old(out)@ + count_segment(open@, n as nat, close@),
{
    if n > 0 {
        out.append(open);
        push_decimal(out, n);
        out.append(close);
        assert(out@ =~= old(out)@ + count_segment(open@, n as nat, close@));
    } else {
        assert(out@ =~= old(out)@ + count_segment(open@, n as nat, close@));
    }
}

impl RepoStatus {
    /// Appends the branch label to `out`.
    fn push_label(&self, out: &mut String)
        ensures
            final(out)@ == old(out)@ + branch_label(self@),
    {
        let use_head = match &self.branch_head {
            Some(h) => !str_eq(h.as_str(), "(detached)"),
            None => false,
        };
        if use_head {
            match &self.branch_head {
                Some(h) => out.append(h.as_str()),
                None => {},
            }
        } else {
            match &self.branch_oid {
                Some(o) => {
                    let n = o.as_str().unicode_len();
                    let k = if n < 7 {
                        n
                    } else {
                        7
                    };
                    let short = o.as_str().substring_char(0, k);
                    assert(n < 7 ==> short@ =~= o@);
                    out.append(short);
                },
                None => out.append("DETACHED"),
            }
        }
    }

    /// The coloured prompt segment for this status.
    pub fn render_prompt(&self) -> (r: String)
        ensures
            r@ == prompt(self@),
    {
        let mut text = String::from_str(" ");
        self.push_label(&mut text);
        push_count(&mut text, " ↑", self.ahead, "");
        push_count(&mut text, " ↓", self.behind, "");
        push_count(&mut text, " [!", self.staged, "]");
        push_count(&mut text, " [+", self.unstaged, "]");
        push_count(&mut text, " [?", self.untracked, "]");
        let mut out = String::from_str("\x1b[38;2;255;255;255;48;2;6;150;154m ");
        out.append(text.as_str());
        out.append(" \x1b[0m");
        assert(out@ =~= prompt(self@));
        out
    }
}

} // verus!
