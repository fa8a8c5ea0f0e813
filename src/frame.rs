//! The text of one screen: a summary of the build processes of each
//! account, then the process table of each.
use vstd::prelude::*;

use crate::sampler::{strs, PidGroup};
use crate::text::{chars_of, decimal, lines, lines_of, push_decimal, string_of, views};

verus! {

/// The processes of one build account and the output path of its build.
pub struct ProcessGroup {
    pub user: String,
    pub path: String,
    pub pids: Vec<i32>,
}

/// The processes of one account with the output path resolved for it from
/// its first pid, `g.pids[0]` (see [`PidGroup::representative`]).
pub fn with_path(g: PidGroup, path: String) -> (r: ProcessGroup)
    requires
        g.pids.len() > 0,
    ensures
        r.user == g.user,
        r.pids == g.pids,
        r.path == path,
        r.pids[0] == g.pids[0],
{
    ProcessGroup { user: g.user, path, pids: g.pids }
}

/// The number of processes over all groups.
pub open spec fn total(gs: Seq<ProcessGroup>) -> nat
    decreases gs.len(),
{
    if gs.len() == 0 {
        0
    } else {
        total(gs.drop_last()) + gs.last().pids.len() as nat
    }
}

/// `n` spaces.
pub open spec fn spaces(n: nat) -> Seq<char> {
    Seq::new(n, |i: int| ' ')
}

/// `n` in decimal, right-aligned in a field of four characters.
pub open spec fn count_field(n: nat) -> Seq<char> {
    let d = decimal(n);
    if d.len() < 4 {
        spaces((4 - d.len()) as nat) + d
    } else {
        d
    }
}

/// The first line of a screen.
pub open spec fn summary_line(n: nat) -> Seq<char> {
    "Nix build summary ("@ + decimal(n) + " processes)"@
}

/// The summary line of one account: its number of processes and its path.
pub open spec fn count_line(g: ProcessGroup) -> Seq<char> {
    "    "@ + count_field(g.pids.len() as nat) + " → "@ + g.path@
}

/// The line that opens the process table of one account.
pub open spec fn header_line(g: ProcessGroup) -> Seq<char> {
    ":: ("@ + g.user@ + ") → "@ + g.path@
}

/// The summary lines of all accounts.
pub open spec fn count_lines(gs: Seq<ProcessGroup>) -> Seq<Seq<char>>
    decreases gs.len(),
{
    if gs.len() == 0 {
        Seq::empty()
    } else {
        count_lines(gs.drop_last()).push(count_line(gs.last()))
    }
}

/// For each account, its header line and then the lines of its process table.
pub open spec fn detail_lines(gs: Seq<ProcessGroup>, ds: Seq<Seq<char>>) -> Seq<Seq<char>>
    decreases gs.len(),
{
    if gs.len() == 0 || ds.len() == 0 {
        Seq::empty()
    } else {
        detail_lines(gs.drop_last(), ds.drop_last()) + seq![header_line(gs.last())] + lines_of(
            ds.last(),
        )
    }
}

/// The lines that part the summary from the process tables.
pub open spec fn divider() -> Seq<Seq<char>> {
    seq![Seq::empty(), " * * * "@, Seq::empty()]
}

/// A whole screen, from the groups and the process table text of each.
pub open spec fn frame(gs: Seq<ProcessGroup>, ds: Seq<Seq<char>>) -> Seq<Seq<char>> {
    seq![summary_line(total(gs))] + count_lines(gs) + divider() + detail_lines(gs, ds)
}

/// The number of processes over all groups, when it fits in a `usize`.
pub fn total_processes(groups: &Vec<ProcessGroup>) -> (r: Option<usize>)
    ensures
        r is Some <==> total(groups@) <= usize::MAX,
        r is Some ==> r->0 == total(groups@),
{
    let mut n: usize = 0;
    let mut i: usize = 0;
    assert(groups@.take(0) =~= Seq::<ProcessGroup>::empty());
    while i < groups.len()
        invariant
            i <= groups.len(),
            n == total(groups@.take(i as int)),
        decreases groups.len() - i,
    {
        assert(groups@.take(i + 1).drop_last() =~= groups@.take(i as int));
        let m = groups[i].pids.len();
        if n > usize::MAX - m {
            proof {
                lemma_total_grows(groups@, i + 1, groups.len() as int);
            }
            assert(groups@.take(groups.len() as int) =~= groups@);
            return None;
        }
        n = n + m;
        i += 1;
    }
    assert(groups@.take(groups.len() as int) =~= groups@);
    Some(n)
}

proof fn lemma_total_grows(gs: Seq<ProcessGroup>, a: int, b: int)
    requires
        0 <= a <= b <= gs.len(),
    ensures
        total(gs.take(a)) <= total(gs.take(b)),
    decreases b - a,
{
    if a < b {
        lemma_total_grows(gs, a, b - 1);
        assert(gs.take(b).drop_last() =~= gs.take(b - 1));
    }
}

} // verus!

verus! {

/// `n` in decimal, right-aligned in a field of four characters.
pub fn count_field_chars(n: usize) -> (r: Vec<char>)
    ensures
        r@ == count_field(n as nat),
{
    let mut d: Vec<char> = Vec::new();
    push_decimal(&mut d, n);
    assert(d@ =~= decimal(n as nat));
    if d.len() < 4 {
        let mut r: Vec<char> = Vec::new();
        let pad: usize = 4 - d.len();
        while r.len() < pad
            invariant
                r.len() <= pad,
                r@ == spaces(r.len() as nat),
            decreases pad - r.len(),
        {
            r.push(' ');
            assert(r@ =~= spaces(r.len() as nat));
        }
        let mut i: usize = 0;
        while i < d.len()
            invariant
                i <= d.len(),
                r@ == spaces(pad as nat) + d@.take(i as int),
            decreases d.len() - i,
        {
            r.push(d[i]);
            assert(d@.take(i + 1) =~= d@.take(i as int).push(d[i as int]));
            i += 1;
        }
        assert(d@.take(d.len() as int) =~= d@);
        r
    } else {
        d
    }
}

/// The first line of a screen.
pub fn summary_text(n: usize) -> (r: String)
    ensures
        r@ == summary_line(n as nat),
{
    let mut d: Vec<char> = Vec::new();
    push_decimal(&mut d, n);
    assert(d@ =~= decimal(n as nat));
    let mut s = String::from_str("Nix build summary (");
    s.append(string_of(&d).as_str());
    s.append(" processes)");
    s
}

/// The summary line of one account.
pub fn count_text(g: &ProcessGroup) -> (r: String)
    ensures
        r@ == count_line(*g),
{
    let mut s = String::from_str("    ");
    s.append(string_of(&count_field_chars(g.pids.len())).as_str());
    s.append(" → ");
    s.append(g.path.as_str());
    s
}

/// The lines of `text`.
pub fn line_strings(text: &str) -> (r: Vec<String>)
    ensures
        strs(r@) == lines_of(text@),
{
    let ls = lines(&chars_of(text));
    let mut r: Vec<String> = Vec::new();
    let mut i: usize = 0;
    while i < ls.len()
        invariant
            i <= ls.len(),
            views(ls@) == lines_of(text@),
            strs(r@) == lines_of(text@).take(i as int),
        decreases ls.len() - i,
    {
        assert(views(ls@)[i as int] == ls[i as int]@);
        let ghost prev = strs(r@);
        r.push(string_of(&ls[i]));
        assert(strs(r@) =~= prev.push(ls[i as int]@));
        assert(strs(r@) =~= lines_of(text@).take(i + 1));
        i += 1;
    }
    assert(lines_of(text@).take(ls.len() as int) =~= lines_of(text@));
    r
}

/// The header line of the process table of one account, and the lines of
/// that table.
pub fn per_output_infos(g: &ProcessGroup, table: &str) -> (r: (String, Vec<String>))
    ensures
        r.0@ == header_line(*g),
        strs(r.1@) == lines_of(table@),
{
    let mut s = String::from_str(":: (");
    s.append(g.user.as_str());
    s.append(") → ");
    s.append(g.path.as_str());
    (s, line_strings(table))
}

/// Builds one screen from the process groups and, for each of them, the text
/// of its process table (empty when it could not be had).
pub fn print_screen(groups: &Vec<ProcessGroup>, tables: &Vec<String>) -> (r: Vec<String>)
    requires
        tables.len() == groups.len(),
        total(groups@) <= usize::MAX,
    ensures
        strs(r@) == frame(groups@, strs(tables@)),
{
    let n = match total_processes(groups) {
        Some(n) => n,
        None => 0,
    };
    let mut out: Vec<String> = Vec::new();
    out.push(summary_text(n));
    let ghost head = seq![summary_line(total(groups@))];
    assert(strs(out@) =~= head);
    assert(groups@.take(0) =~= Seq::<ProcessGroup>::empty());
    let mut i: usize = 0;
    while i < groups.len()
        invariant
            i <= groups.len(),
            head == seq![summary_line(total(groups@))],
            strs(out@) == head + count_lines(groups@.take(i as int)),
        decreases groups.len() - i,
    {
        assert(groups@.take(i + 1).drop_last() =~= groups@.take(i as int));
        let ghost prev = strs(out@);
        out.push(count_text(&groups[i]));
        assert(strs(out@) =~= prev.push(count_line(groups[i as int])));
        assert(strs(out@) =~= head + count_lines(groups@.take(i + 1)));
        i += 1;
    }
    assert(groups@.take(groups.len() as int) =~= groups@);
    out.push(String::new());
    out.push(String::from_str(" * * * "));
    out.push(String::new());
    let ghost mid = head + count_lines(groups@) + divider();
    assert(strs(out@) =~= mid);
    let ghost ts = strs(tables@);
    assert(ts.take(0) =~= Seq::<Seq<char>>::empty());
    let mut i: usize = 0;
    while i < groups.len()
        invariant
            i <= groups.len(),
            tables.len() == groups.len(),
            ts == strs(tables@),
            strs(out@) == mid + detail_lines(groups@.take(i as int), ts.take(i as int)),
        decreases groups.len() - i,
    {
        assert(groups@.take(i + 1).drop_last() =~= groups@.take(i as int));
        assert(ts.take(i + 1).drop_last() =~= ts.take(i as int));
        let (header, table) = per_output_infos(&groups[i], tables[i].as_str());
        let ghost at_start = strs(out@);
        out.push(header);
        assert(strs(out@) =~= at_start + seq![header_line(groups[i as int])]);
        let mut j: usize = 0;
        let ghost with_header = strs(out@);
        while j < table.len()
            invariant
                j <= table.len(),
                strs(out@) == with_header + strs(table@).take(j as int),
            decreases table.len() - j,
        {
            let ghost prev = strs(out@);
            out.push(table[j].clone());
            assert(strs(out@) =~= prev.push(strs(table@)[j as int]));
            assert(strs(out@) =~= with_header + strs(table@).take(j + 1));
            j += 1;
        }
        assert(strs(table@).take(table.len() as int) =~= strs(table@));
        assert(strs(out@) =~= mid + detail_lines(groups@.take(i + 1), ts.take(i + 1)));
        i += 1;
    }
    assert(ts.take(groups.len() as int) =~= ts);
    assert(strs(out@) =~= frame(groups@, ts));
    out
}

/// A screen without processes holds the summary line and the divider, and
/// nothing else.
pub proof fn lemma_empty_frame()
    ensures
        frame(Seq::empty(), Seq::empty()) == seq![summary_line(0)] + divider(),
{
    assert(frame(Seq::empty(), Seq::empty()) =~= seq![summary_line(0)] + divider());
}

} // verus!
