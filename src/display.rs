//! Fitting a screen to the terminal, and the refresh cadence.
use vstd::prelude::*;

use crate::frame::spaces;
use crate::sampler::{joined, strs};
use crate::text::{chars_of, string_of};

verus! {

/// `line` cut or padded with spaces to exactly `w` characters.
pub open spec fn fit(line: Seq<char>, w: nat) -> Seq<char> {
    if line.len() >= w {
        line.take(w as int)
    } else {
        line + spaces((w - line.len()) as nat)
    }
}

/// The first `h` lines of `frame` (all of them when there are fewer), each
/// fitted to `w` characters.
pub open spec fn fitted(frame: Seq<Seq<char>>, w: nat, h: nat) -> Seq<Seq<char>> {
    let n = if frame.len() < h {
        frame.len()
    } else {
        h
    };
    Seq::new(n, |i: int| fit(frame[i], w))
}

/// Cuts or pads `line` to exactly `width` characters.
pub fn fit_line(line: &str, width: usize) -> (r: String)
    ensures
        r@ == fit(line@, width as nat),
{
    let cs = chars_of(line);
    let mut out: Vec<char> = Vec::new();
    let keep: usize = if cs.len() < width { cs.len() } else { width };
    while out.len() < keep
        invariant
            out.len() <= keep <= cs.len(),
            keep <= width,
            out@ == cs@.take(out.len() as int),
        decreases keep - out.len(),
    {
        let k = out.len();
        out.push(cs[k]);
        assert(cs@.take(k + 1) =~= cs@.take(k as int).push(cs[k as int]));
    }
    let ghost kept = out@;
    while out.len() < width
        invariant
            keep <= out.len() <= width,
            out@ == kept + spaces((out.len() - keep) as nat),
        decreases width - out.len(),
    {
        out.push(' ');
        assert(out@ =~= kept + spaces((out.len() - keep) as nat));
    }
    assert(out@ =~= fit(line@, width as nat));
    string_of(&out)
}

/// The lines of `frame` that fit a terminal of `width` columns and `height`
/// rows, each exactly `width` characters long.
pub fn fit_screen(frame: &Vec<String>, width: usize, height: usize) -> (r: Vec<String>)
    ensures
        strs(r@) == fitted(strs(frame@), width as nat, height as nat),
{
    let n: usize = if frame.len() < height { frame.len() } else { height };
    let mut r: Vec<String> = Vec::new();
    while r.len() < n
        invariant
            r.len() <= n,
            n <= frame.len(),
            n == (if frame.len() < height { frame.len() } else { height }),
            forall|k: int| 0 <= k < r.len() ==> #[trigger] r[k]@ == fit(frame[k]@, width as nat),
        decreases n - r.len(),
    {
        let k = r.len();
        r.push(fit_line(frame[k].as_str(), width));
    }
    assert(strs(r@) =~= fitted(strs(frame@), width as nat, height as nat));
    r
}

/// The lines joined by newlines.
pub fn join_lines(lines: &Vec<String>) -> (r: String)
    ensures
        r@ == joined(strs(lines@), '\n'),
{
    let mut out = String::new();
    let mut i: usize = 0;
    while i < lines.len()
        invariant
            i <= lines.len(),
            out@ == joined(strs(lines@).take(i as int), '\n'),
        decreases lines.len() - i,
    {
        let ghost prev = strs(lines@).take(i as int);
        assert(strs(lines@).take(i + 1).drop_last() =~= prev);
        if i > 0 {
            out.append("\n");
            proof {
                reveal_strlit("\n");
            }
        }
        out.append(lines[i].as_str());
        assert(out@ =~= joined(strs(lines@).take(i + 1), '\n'));
        i += 1;
    }
    assert(strs(lines@).take(lines.len() as int) =~= strs(lines@));
    out
}

/// A frame taller than the terminal is cut to exactly its height, and every
/// line shown is exactly as wide as the terminal.
pub proof fn lemma_screen_fills_terminal(frame: Seq<Seq<char>>, w: nat, h: nat)
    requires
        frame.len() > h,
    ensures
        fitted(frame, w, h).len() == h,
        forall|i: int| 0 <= i < h ==> #[trigger] fitted(frame, w, h)[i].len() == w,
{
}

/// What the display does once a screen has been shown.
pub enum Next {
    /// Stop: the screen was asked for once.
    Exit,
    /// Sleep for the delay, then show the next screen.
    SleepThenRepeat,
}

/// The display runs one cycle and stops when asked for a single screen, and
/// goes on cycle after cycle otherwise.
pub fn after_cycle(once: bool) -> (r: Next)
    ensures
        once <==> r is Exit,
        !once <==> r is SleepThenRepeat,
{
    if once {
        Next::Exit
    } else {
        Next::SleepThenRepeat
    }
}

} // verus!
