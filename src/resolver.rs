//! Finding the output path of the build that an account runs, from three
//! sources tried in turn: the environment of one of its processes, the
//! newest temporary directory it owns, and the `env-vars` file in it.
use vstd::prelude::*;

use crate::text::{
    after_first, after_first_char, chars_of, find_with_prefix, first_with_prefix, lines, lines_of, opt_view, skip_chars,
    split_by, split_chars, string_of, views,
};

verus! {

/// The path reported when no build directory could be found.
pub open spec fn unknown_path() -> Seq<char> {
    "(unknown)"@
}

/// The value of the first `out=` entry of a NUL-separated environment block,
/// when that value is not empty.
pub open spec fn environ_out(environ: Seq<char>) -> Option<Seq<char>> {
    match first_with_prefix(split_by(environ, Some('\0')), "out="@) {
        Some(var) => {
            let value = var.skip("out="@.len() as int);
            if value.len() > 0 {
                Some(value)
            } else {
                None
            }
        },
        None => None,
    }
}

/// The path named by the last line of a directory listing whose lines read
/// `<change time>:<path>`: all the text after the first colon (the change
/// time holds none), when not empty.
pub open spec fn newest_dir(listing: Seq<char>) -> Option<Seq<char>> {
    let ls = lines_of(listing);
    let last = if ls.len() > 0 {
        ls.last()
    } else {
        Seq::empty()
    };
    let path = after_first(last, ':');
    if path.len() > 0 {
        Some(path)
    } else {
        None
    }
}

/// The quoted value of the first line of a build environment file that
/// begins with `declare -x out=`: the text between its first two quotes.
pub open spec fn env_vars_out(text: Seq<char>) -> Option<Seq<char>> {
    match first_with_prefix(lines_of(text), "declare -x out="@) {
        Some(line) => {
            let parts = split_by(line, Some('"'));
            if parts.len() > 1 {
                Some(parts[1])
            } else {
                None
            }
        },
        None => None,
    }
}

/// Reads the output path from the environment of a build process.
pub fn out_from_environ(environ: &str) -> (r: Option<String>)
    ensures
        opt_view(r) == environ_out(environ@),
{
    let vars = split_chars(&chars_of(environ), Some('\0'));
    let prefix = chars_of("out=");
    match find_with_prefix(&vars, &prefix) {
        Some(k) => {
            let value = skip_chars(&vars[k], prefix.len());
            if value.len() > 0 {
                Some(string_of(&value))
            } else {
                None
            }
        },
        None => None,
    }
}

/// Picks the build directory out of the listing of the temporary directories
/// that an account owns, newest last.
pub fn get_build_dir(listing: &str) -> (r: Option<String>)
    ensures
        opt_view(r) == newest_dir(listing@),
{
    let ls = lines(&chars_of(listing));
    let last: Vec<char> = if ls.len() > 0 {
        ls[ls.len() - 1].clone()
    } else {
        Vec::new()
    };
    proof {
        if ls.len() > 0 {
            assert(last@ == views(ls@)[ls.len() - 1]);
        }
    }
    let path = after_first_char(&last, ':');
    if path.len() > 0 {
        Some(string_of(&path))
    } else {
        None
    }
}

/// Reads the output path declared in a build environment file.
pub fn get_out_from_env_vars(text: &str) -> (r: Option<String>)
    ensures
        opt_view(r) == env_vars_out(text@),
{
    let ls = lines(&chars_of(text));
    let prefix = chars_of("declare -x out=");
    match find_with_prefix(&ls, &prefix) {
        Some(k) => {
            let parts = split_chars(&ls[k], Some('"'));
            if parts.len() > 1 {
                proof {
                    assert(parts[1]@ == views(parts@)[1]);
                }
                Some(string_of(&parts[1]))
            } else {
                None
            }
        },
        None => None,
    }
}

} // verus!

verus! {

/// What the resolution of an output path waits for next, or its result.
pub enum Lookup {
    /// The environment of the representative process.
    Environ,
    /// The listing of the temporary directories the account owns.
    BuildDir,
    /// The `env-vars` file inside `dir`.
    EnvVars { dir: String },
    /// Resolution is over.
    Found { path: String },
}

/// The abstract state of a [`Lookup`].
pub enum Stage {
    Environ,
    BuildDir,
    EnvVars(Seq<char>),
    Found(Seq<char>),
}

impl View for Lookup {
    type V = Stage;

    open spec fn view(&self) -> Stage {
        match self {
            Lookup::Environ => Stage::Environ,
            Lookup::BuildDir => Stage::BuildDir,
            Lookup::EnvVars { dir } => Stage::EnvVars(dir@),
            Lookup::Found { path } => Stage::Found(path@),
        }
    }
}

/// A stage whose paths are not empty.
pub open spec fn stage_ok(s: Stage) -> bool {
    match s {
        Stage::EnvVars(dir) => dir.len() > 0,
        Stage::Found(path) => path.len() > 0,
        _ => true,
    }
}

/// The stage that follows `s` once the source it waits for gave `reply`
/// (`None` when that source could not be read).
pub open spec fn next_stage(s: Stage, reply: Option<Seq<char>>) -> Stage {
    match s {
        Stage::Environ => match reply {
            Some(e) => match environ_out(e) {
                Some(p) => Stage::Found(p),
                None => Stage::BuildDir,
            },
            None => Stage::BuildDir,
        },
        Stage::BuildDir => match reply {
            Some(listing) => match newest_dir(listing) {
                Some(dir) => Stage::EnvVars(dir),
                None => Stage::Found(unknown_path()),
            },
            None => Stage::Found(unknown_path()),
        },
        Stage::EnvVars(dir) => match reply {
            Some(text) => match env_vars_out(text) {
                Some(v) => if v.len() > 0 {
                    Stage::Found(v)
                } else {
                    Stage::Found(dir)
                },
                None => Stage::Found(dir),
            },
            None => Stage::Found(dir),
        },
        Stage::Found(p) => Stage::Found(p),
    }
}

impl Lookup {
    /// The first step of a resolution.
    pub fn start() -> (r: Lookup)
        ensures
            r@ == Stage::Environ,
    {
        Lookup::Environ
    }

    /// The path found, once resolution is over.
    pub fn found(&self) -> (r: Option<&String>)
        ensures
            match self@ {
                Stage::Found(p) => r is Some && r->0@ == p,
                _ => r is None,
            },
    {
        match self {
            Lookup::Found { path } => Some(path),
            _ => None,
        }
    }
}

/// Advances a resolution with what the source it waited for gave.
pub fn resolve_step(state: Lookup, reply: Option<String>) -> (r: Lookup)
    ensures
        r@ == next_stage(state@, opt_view(reply)),
{
    match state {
        Lookup::Environ => match reply {
            Some(e) => match out_from_environ(e.as_str()) {
                Some(p) => Lookup::Found { path: p },
                None => Lookup::BuildDir,
            },
            None => Lookup::BuildDir,
        },
        Lookup::BuildDir => match reply {
            Some(listing) => match get_build_dir(listing.as_str()) {
                Some(dir) => Lookup::EnvVars { dir },
                None => Lookup::Found { path: String::from_str("(unknown)") },
            },
            None => Lookup::Found { path: String::from_str("(unknown)") },
        },
        Lookup::EnvVars { dir } => match reply {
            Some(text) => match get_out_from_env_vars(text.as_str()) {
                Some(v) => if !v.as_str().is_empty() {
                    Lookup::Found { path: v }
                } else {
                    Lookup::Found { path: dir }
                },
                None => Lookup::Found { path: dir },
            },
            None => Lookup::Found { path: dir },
        },
        Lookup::Found { path } => Lookup::Found { path },
    }
}

/// A resolution never produces an empty path: every step from a stage whose
/// paths are not empty leads to another such stage.
pub proof fn lemma_path_never_empty(s: Stage, reply: Option<Seq<char>>)
    requires
        stage_ok(s),
    ensures
        stage_ok(next_stage(s, reply)),
{
    reveal_strlit("(unknown)");
}

/// The sources are tried in order, each only when those before it gave no
/// usable path: the environment first, then the newest temporary directory,
/// then the build environment file in it; a resolution that finds no
/// directory ends with the placeholder path.
pub proof fn lemma_tiers_in_order(s: Stage, reply: Option<Seq<char>>)
    ensures
        s == Stage::Environ ==> (next_stage(s, reply) == Stage::BuildDir <==> (reply is None
            || environ_out(reply->0) is None)),
        s == Stage::Environ && reply is Some && environ_out(reply->0) is Some ==> next_stage(
            s,
            reply,
        ) == Stage::Found(environ_out(reply->0)->0),
        s == Stage::BuildDir ==> (next_stage(s, reply) is EnvVars <==> (reply is Some
            && newest_dir(reply->0) is Some)),
        s == Stage::BuildDir && !(next_stage(s, reply) is EnvVars) ==> next_stage(s, reply)
            == Stage::Found(unknown_path()),
        s is EnvVars ==> next_stage(s, reply) is Found,
{
}

} // verus!
