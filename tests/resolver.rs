use buildtop::resolver::{
    get_build_dir, get_out_from_env_vars, out_from_environ, resolve_step, Lookup,
};

fn s(x: &str) -> String {
    x.to_string()
}

fn found(l: &Lookup) -> Option<String> {
    l.found().cloned()
}

#[test]
fn environ_out_is_read() {
    assert_eq!(out_from_environ("HOME=/x\0out=/foo\0PATH=/bin"), Some(s("/foo")));
    assert_eq!(out_from_environ("HOME=/x\0PATH=/bin"), None);
    assert_eq!(out_from_environ(""), None);
    assert_eq!(out_from_environ("output=/a\0out=/b"), Some(s("/b")));
}

#[test]
fn environ_first_out_only() {
    assert_eq!(out_from_environ("out=\0out=/later"), None);
    assert_eq!(out_from_environ("out=/first\0out=/later"), Some(s("/first")));
}

#[test]
fn build_dir_is_last_line() {
    assert_eq!(get_build_dir("100:/tmp/a\n200:/tmp/nix-build-x\n"), Some(s("/tmp/nix-build-x")));
    assert_eq!(get_build_dir("1700000000:/tmp/nix-build-hello-1.drv-0"), Some(s("/tmp/nix-build-hello-1.drv-0")));
    assert_eq!(get_build_dir(""), None);
    assert_eq!(get_build_dir("123:\n"), None);
}

#[test]
fn env_vars_out_is_read() {
    let text = "declare -x foo=\"1\"\ndeclare -x out=\"/bar\"\ndeclare -x out=\"/baz\"\n";
    assert_eq!(get_out_from_env_vars(text), Some(s("/bar")));
    assert_eq!(get_out_from_env_vars("declare -x out=/plain\n"), None);
    assert_eq!(get_out_from_env_vars("declare -x other=\"/x\"\n"), None);
    assert_eq!(get_out_from_env_vars("declare -x out=\"/open"), Some(s("/open")));
}

#[test]
fn tier_environ_wins() {
    let st = resolve_step(Lookup::start(), Some(s("A=1\0out=/foo\0")));
    assert_eq!(found(&st), Some(s("/foo")));
}

#[test]
fn tier_env_vars_file() {
    let st = resolve_step(Lookup::start(), None);
    assert!(matches!(st, Lookup::BuildDir));
    let st = resolve_step(st, Some(s("1700000000:/tmp/nix-build-bar-0\n")));
    match &st {
        Lookup::EnvVars { dir } => assert_eq!(dir, "/tmp/nix-build-bar-0"),
        _ => panic!("expected the env-vars stage"),
    }
    let st = resolve_step(st, Some(s("declare -x out=\"/bar\"\n")));
    assert_eq!(found(&st), Some(s("/bar")));
}

#[test]
fn tier_build_dir_itself() {
    let st = resolve_step(Lookup::start(), Some(s("PATH=/bin\0")));
    assert!(matches!(st, Lookup::BuildDir));
    let st = resolve_step(st, Some(s("5:/tmp/nix-build-q\n")));
    let st = resolve_step(st, Some(s("declare -x name=\"q\"\n")));
    assert_eq!(found(&st), Some(s("/tmp/nix-build-q")));
    let st = resolve_step(resolve_step(Lookup::BuildDir, Some(s("5:/tmp/d\n"))), None);
    assert_eq!(found(&st), Some(s("/tmp/d")));
}

#[test]
fn tier_empty_env_vars_value_falls_back() {
    let st = resolve_step(Lookup::EnvVars { dir: s("/tmp/d") }, Some(s("declare -x out=\"\"\n")));
    assert_eq!(found(&st), Some(s("/tmp/d")));
}

#[test]
fn tier_no_dir_gives_placeholder() {
    let st = resolve_step(Lookup::BuildDir, Some(s("")));
    assert_eq!(found(&st), Some(s("(unknown)")));
    let st = resolve_step(Lookup::BuildDir, None);
    assert_eq!(found(&st), Some(s("(unknown)")));
}

#[test]
fn found_stays_found() {
    let st = resolve_step(Lookup::Found { path: s("/p") }, Some(s("out=/other")));
    assert_eq!(found(&st), Some(s("/p")));
    assert_eq!(found(&Lookup::start()), None);
}

#[test]
fn build_dir_keeps_colons_in_path() {
    assert_eq!(get_build_dir("1:/tmp/a:b\n"), Some(s("/tmp/a:b")));
    assert_eq!(get_build_dir("5:/tmp/x\n1700000000:/tmp/nix:build:2\n"), Some(s("/tmp/nix:build:2")));
    assert_eq!(get_build_dir("no colon here\n"), None);
    let st = resolve_step(Lookup::BuildDir, Some(s("9:/tmp/c:d\n")));
    let st = resolve_step(st, None);
    assert_eq!(found(&st), Some(s("/tmp/c:d")));
}

#[test]
fn env_vars_crlf_lines() {
    assert_eq!(get_out_from_env_vars("declare -x a=\"1\"\r\ndeclare -x out=\"/crlf\"\r\n"), Some(s("/crlf")));
    assert_eq!(get_build_dir("3:/tmp/w\r\n"), Some(s("/tmp/w")));
}
