use git_info::scan::{parse_count, split_lines, split_whitespace};
use git_info::status::RepoStatus;

const OPEN: &str = "\x1b[38;2;255;255;255;48;2;6;150;154m ";
const CLOSE: &str = " \x1b[0m";

fn wrapped(text: &str) -> String {
    format!("{}{}{}", OPEN, text, CLOSE)
}

#[test]
fn empty_report_is_detached() {
    let r = RepoStatus::parse("");
    assert_eq!(r.render_prompt(), wrapped(" DETACHED"));
    assert_eq!(r.ahead + r.behind + r.staged + r.unstaged + r.untracked, 0);
    assert!(r.branch_head.is_none());
    assert!(r.branch_oid.is_none());
}

#[test]
fn branch_head_alone() {
    let r = RepoStatus::parse("# branch.head main\n");
    assert_eq!(r.branch_head.as_deref(), Some("main"));
    assert_eq!(r.render_prompt(), wrapped(" main"));
}

#[test]
fn ahead_and_behind() {
    let r = RepoStatus::parse("# branch.ab +3 -2\n");
    assert_eq!(r.ahead, 3);
    assert_eq!(r.behind, 2);
    assert_eq!(r.render_prompt(), wrapped(" DETACHED ↑3 ↓2"));
}

#[test]
fn staged_only_record() {
    let mut r = RepoStatus::new();
    r.parse_record_line("1 M. N... 100644 100644 100644 abc def path");
    assert_eq!(r.staged, 1);
    assert_eq!(r.unstaged, 0);
}

#[test]
fn unstaged_only_record() {
    let mut r = RepoStatus::new();
    r.parse_record_line("1 .M N... 100644 100644 100644 abc def path");
    assert_eq!(r.staged, 0);
    assert_eq!(r.unstaged, 1);
}

#[test]
fn both_sides_record() {
    let r = RepoStatus::parse("2 MM N... 100644 100644 100644 a b R100 new\told\nu UU N... 1 2 3 4 a b c p\n");
    assert_eq!(r.staged, 2);
    assert_eq!(r.unstaged, 2);
    assert_eq!(r.render_prompt(), wrapped(" DETACHED [!2] [+2]"));
}

#[test]
fn ten_untracked() {
    let mut text = String::new();
    for _ in 0..10 {
        text.push_str("? path\n");
    }
    let r = RepoStatus::parse(&text);
    assert_eq!(r.untracked, 10);
    assert!(r.render_prompt().contains(" [?10]"));
    assert_eq!(r.render_prompt(), wrapped(" DETACHED [?10]"));
}

#[test]
fn rendering_twice_is_identical() {
    let r = RepoStatus::parse("# branch.head dev\n# branch.ab +1 -0\n1 A. N... 1 2 3 a b f\n? x\n");
    let a = r.render_prompt();
    let b = r.render_prompt();
    assert_eq!(a, b);
    assert_eq!(a, wrapped(" dev ↑1 [!1] [?1]"));
}

#[test]
fn short_record_lines_count_nothing() {
    let mut r = RepoStatus::new();
    r.parse_record_line("");
    r.parse_record_line("1");
    r.parse_record_line("   u   ");
    assert_eq!(r.staged, 0);
    assert_eq!(r.unstaged, 0);
    assert_eq!(r.untracked, 0);
}

#[test]
fn untracked_marker_alone_still_counts() {
    let mut r = RepoStatus::new();
    r.parse_record_line("? ");
    assert_eq!(r.untracked, 1);
}

#[test]
fn ignored_entries_count_nothing() {
    let r = RepoStatus::parse("! target/\n! a b\n");
    assert_eq!(r.staged + r.unstaged + r.untracked, 0);
}

#[test]
fn oid_truncated_to_seven() {
    let oid = "0123456789abcdef0123456789abcdef01234567";
    let r = RepoStatus::parse(&format!("# branch.oid {}\n# branch.head (detached)\n", oid));
    assert_eq!(r.branch_oid.as_deref(), Some(oid));
    assert_eq!(r.render_prompt(), wrapped(" 0123456"));
    let r = RepoStatus::parse(&format!("# branch.oid {}\n", oid));
    assert_eq!(r.render_prompt(), wrapped(" 0123456"));
}

#[test]
fn short_oid_shown_whole() {
    let r = RepoStatus::parse("# branch.oid abc\n");
    assert_eq!(r.render_prompt(), wrapped(" abc"));
}

#[test]
fn branch_name_beats_oid() {
    let r = RepoStatus::parse("# branch.oid 0123456789abcdef0123456789abcdef01234567\n# branch.head feature/x\n");
    assert_eq!(r.render_prompt(), wrapped(" feature/x"));
}

#[test]
fn headers_without_value_change_nothing() {
    let r = RepoStatus::parse("# branch.oid\n# branch.head\n# branch.ab\n# branch.upstream origin/main\n#\n");
    assert!(r.branch_head.is_none());
    assert!(r.branch_oid.is_none());
    assert_eq!(r.ahead + r.behind, 0);
    assert_eq!(r.staged + r.unstaged + r.untracked, 0);
}

#[test]
fn later_header_wins() {
    let r = RepoStatus::parse("# branch.head a\n# branch.head b\n# branch.ab +1 -1\n# branch.ab +5 -7\n");
    assert_eq!(r.branch_head.as_deref(), Some("b"));
    assert_eq!((r.ahead, r.behind), (5, 7));
}

#[test]
fn bad_ahead_behind_numbers_read_as_zero() {
    let r = RepoStatus::parse("# branch.ab +x -4294967296\n");
    assert_eq!((r.ahead, r.behind), (0, 0));
    let r = RepoStatus::parse("# branch.ab ++4 -4294967295 ?9\n");
    assert_eq!((r.ahead, r.behind), (4, 4294967295));
}

#[test]
fn crlf_lines() {
    let r = RepoStatus::parse("# branch.head main\r\n? a\r\n? b");
    assert_eq!(r.branch_head.as_deref(), Some("main"));
    assert_eq!(r.untracked, 2);
}

#[test]
fn counts_from_a_full_report() {
    let text = "# branch.oid 1111111111111111111111111111111111111111\n\
                # branch.head main\n\
                # branch.upstream origin/main\n\
                # branch.ab +12 -0\n\
                1 M. N... 100644 100644 100644 a b x\n\
                1 .D N... 100644 100644 000000 a b y\n\
                ? new\n\
                ! ignored\n";
    let r = RepoStatus::parse(text);
    assert_eq!(r.render_prompt(), wrapped(" main ↑12 [!1] [+1] [?1]"));
}

#[test]
fn apply_line_dispatches() {
    let mut r = RepoStatus::new();
    r.apply_line("# branch.head x");
    r.apply_line("1 A. N... a");
    assert_eq!(r.branch_head.as_deref(), Some("x"));
    assert_eq!(r.staged, 1);
}

#[test]
fn number_reading() {
    assert_eq!(parse_count("0"), 0);
    assert_eq!(parse_count("+17"), 17);
    assert_eq!(parse_count("007"), 7);
    assert_eq!(parse_count(""), 0);
    assert_eq!(parse_count("+"), 0);
    assert_eq!(parse_count("-3"), 0);
    assert_eq!(parse_count("12a"), 0);
    assert_eq!(parse_count("4294967295"), 4294967295);
    assert_eq!(parse_count("4294967296"), 0);
    assert_eq!(parse_count("99999999999999999999"), 0);
}

#[test]
fn whitespace_splitting() {
    assert_eq!(split_whitespace("  a\tbb \u{3000}c\n"), vec!["a", "bb", "c"]);
    assert!(split_whitespace(" \t ").is_empty());
    assert_eq!(split_lines("a\r\nb\n\nc\r"), vec!["a", "b", "", "c\r"]);
    assert_eq!(split_lines("x\n"), vec!["x"]);
    assert!(split_lines("").is_empty());
}

#[test]
fn large_counts_render_in_decimal() {
    let mut r = RepoStatus::new();
    r.branch_head = Some(String::from("m"));
    r.staged = 4294967295;
    r.unstaged = 10;
    r.untracked = 105;
    assert_eq!(r.render_prompt(), wrapped(" m [!4294967295] [+10] [?105]"));
}

#[test]
fn counts_hold_at_the_largest_value() {
    let mut r = RepoStatus::new();
    r.untracked = u32::MAX;
    r.parse_record_line("? a");
    assert_eq!(r.untracked, u32::MAX);
}

#[test]
fn default_is_empty() {
    let r = RepoStatus::default();
    assert!(r.branch_head.is_none() && r.branch_oid.is_none());
    assert_eq!((r.ahead, r.behind, r.staged, r.unstaged, r.untracked), (0, 0, 0, 0, 0));
}
