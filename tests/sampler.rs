use buildtop::sampler::{
    build_users, get_processes, group_by_owner, parse_pid, parse_user_pids, ps_user_arg,
};

fn s(x: &str) -> String {
    x.to_string()
}

fn chars(x: &str) -> Vec<char> {
    x.chars().collect()
}

#[test]
fn members_each_once() {
    let members = vec![s("nixbld1"), s("nixbld2"), s("nixbld3")];
    assert_eq!(build_users(Some(members.clone())), members);
    let dup = vec![s("nixbld2"), s("nixbld1"), s("nixbld2"), s("nixbld1")];
    assert_eq!(build_users(Some(dup)), vec![s("nixbld2"), s("nixbld1")]);
}

#[test]
fn missing_group_has_no_members() {
    assert_eq!(build_users(None), Vec::<String>::new());
    assert_eq!(build_users(Some(vec![])), Vec::<String>::new());
}

#[test]
fn no_accounts_no_query() {
    assert_eq!(ps_user_arg(&vec![]), None);
    assert_eq!(ps_user_arg(&vec![s("a")]), Some(s("a")));
    assert_eq!(ps_user_arg(&vec![s("nixbld1"), s("nixbld2"), s("x")]), Some(s("nixbld1,nixbld2,x")));
}

#[test]
fn pids_parse() {
    assert_eq!(parse_pid(&chars("1234")), Some(1234));
    assert_eq!(parse_pid(&chars("+7")), Some(7));
    assert_eq!(parse_pid(&chars("-7")), Some(-7));
    assert_eq!(parse_pid(&chars("2147483647")), Some(i32::MAX));
    assert_eq!(parse_pid(&chars("-2147483648")), Some(i32::MIN));
    assert_eq!(parse_pid(&chars("2147483648")), None);
    assert_eq!(parse_pid(&chars("99999999999999999999")), None);
    assert_eq!(parse_pid(&chars("")), None);
    assert_eq!(parse_pid(&chars("-")), None);
    assert_eq!(parse_pid(&chars("12a")), None);
    assert_eq!(parse_pid(&chars("PID")), None);
}

#[test]
fn listing_lines_parse() {
    let listing = "nixbld1    101\n  nixbld2 202 extra\nbroken\nnixbld1\tabc\n\nnixbld3 303\n";
    assert_eq!(
        parse_user_pids(listing),
        vec![(s("nixbld1"), 101), (s("nixbld2"), 202), (s("nixbld3"), 303)]
    );
    assert_eq!(parse_user_pids(""), vec![]);
}

#[test]
fn pids_grouped_in_order() {
    let pairs = vec![(s("b"), 1), (s("a"), 2), (s("b"), 3), (s("c"), 4), (s("a"), 5)];
    let groups = group_by_owner(&pairs);
    let got: Vec<(String, Vec<i32>)> = groups.into_iter().map(|g| (g.user, g.pids)).collect();
    assert_eq!(got, vec![(s("b"), vec![1, 3]), (s("a"), vec![2, 5]), (s("c"), vec![4])]);
}

#[test]
fn no_group_without_pids() {
    let listing = "nixbld1 10\nnixbld2 x\nnixbld1 11\nnixbld3\n";
    let groups = get_processes(listing);
    assert_eq!(groups.len(), 1);
    assert_eq!(groups[0].user, "nixbld1");
    assert_eq!(groups[0].pids, vec![10, 11]);
    for g in &groups {
        assert!(!g.pids.is_empty());
    }
    assert!(get_processes("").is_empty());
}
