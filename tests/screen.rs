use buildtop::display::{after_cycle, fit_line, fit_screen, join_lines, Next};
use buildtop::frame::{
    count_field_chars, per_output_infos, print_screen, total_processes, with_path, ProcessGroup,
};
use buildtop::sampler::get_processes;

fn s(x: &str) -> String {
    x.to_string()
}

fn group(user: &str, path: &str, pids: Vec<i32>) -> ProcessGroup {
    ProcessGroup { user: s(user), path: s(path), pids }
}

#[test]
fn empty_frame() {
    let lines = print_screen(&vec![], &vec![]);
    assert_eq!(lines, vec![s("Nix build summary (0 processes)"), s(""), s(" * * * "), s("")]);
}

#[test]
fn frame_with_groups() {
    let groups = vec![group("nixbld1", "/nix/store/a", vec![1, 2, 3]), group("nixbld2", "(unknown)", vec![9])];
    let tables = vec![s("  UID   PID\n30001     1\n"), s("")];
    let lines = print_screen(&groups, &tables);
    assert_eq!(
        lines,
        vec![
            s("Nix build summary (4 processes)"),
            s("       3 → /nix/store/a"),
            s("       1 → (unknown)"),
            s(""),
            s(" * * * "),
            s(""),
            s(":: (nixbld1) → /nix/store/a"),
            s("  UID   PID"),
            s("30001     1"),
            s(":: (nixbld2) → (unknown)"),
        ]
    );
}

#[test]
fn count_field_widths() {
    let f = |n: usize| count_field_chars(n).into_iter().collect::<String>();
    assert_eq!(f(0), "   0");
    assert_eq!(f(42), "  42");
    assert_eq!(f(9999), "9999");
    assert_eq!(f(123456), "123456");
}

#[test]
fn totals() {
    let groups = vec![group("a", "/p", vec![1, 2]), group("b", "/q", vec![3, 4, 5])];
    assert_eq!(total_processes(&groups), Some(5));
    assert_eq!(total_processes(&vec![]), Some(0));
}

#[test]
fn header_and_table() {
    let (h, t) = per_output_infos(&group("nixbld4", "/out", vec![5]), "a\nb");
    assert_eq!(h, ":: (nixbld4) → /out");
    assert_eq!(t, vec![s("a"), s("b")]);
}

#[test]
fn padding_clips_to_terminal() {
    let frame = vec![s("short"), s("exactly10!"), s("this one is long"), s(""), s("x")];
    let out = fit_screen(&frame, 10, 2);
    assert_eq!(out, vec![s("short     "), s("exactly10!")]);
    for line in &out {
        assert_eq!(line.chars().count(), 10);
    }
    let all = fit_screen(&frame, 4, 9);
    assert_eq!(all, vec![s("shor"), s("exac"), s("this"), s("    "), s("x   ")]);
}

#[test]
fn fit_counts_characters() {
    assert_eq!(fit_line("a → b", 3), "a →");
    assert_eq!(fit_line("", 2), "  ");
    assert_eq!(fit_line("abc", 0), "");
}

#[test]
fn lines_joined() {
    assert_eq!(join_lines(&vec![s("a"), s("bc"), s("")]), "a\nbc\n");
    assert_eq!(join_lines(&vec![]), "");
    assert_eq!(join_lines(&vec![s("one")]), "one");
}

#[test]
fn once_runs_one_cycle() {
    assert!(matches!(after_cycle(true), Next::Exit));
    assert!(matches!(after_cycle(false), Next::SleepThenRepeat));
}

#[test]
fn path_attached_from_first_pid() {
    let groups = get_processes("nixbld7 70\nnixbld7 71\n");
    assert_eq!(groups[0].representative(), 70);
    let g = with_path(groups.into_iter().next().unwrap(), s("/nix/store/p"));
    assert_eq!(g.user, "nixbld7");
    assert_eq!(g.pids, vec![70, 71]);
    assert_eq!(g.path, "/nix/store/p");
}

#[test]
fn table_crlf_lines() {
    let (_, t) = per_output_infos(&group("u", "/o", vec![1]), "UID PID\r\n1 2\r\n");
    assert_eq!(t, vec![s("UID PID"), s("1 2")]);
}
