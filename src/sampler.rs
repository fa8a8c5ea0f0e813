//! Which build accounts exist, and which processes each of them runs.
use vstd::prelude::*;

use crate::text::{
    chars_of, lines, lines_of, non_empty, split_by, split_chars, string_of, views,
};

verus! {

/// The character sequences held by `v`.
pub open spec fn strs(v: Seq<String>) -> Seq<Seq<char>> {
    v.map_values(|x: String| x@)
}

/// The elements of `s` in order of first appearance, each once.
pub open spec fn distinct(s: Seq<Seq<char>>) -> Seq<Seq<char>>
    decreases s.len(),
{
    if s.len() == 0 {
        s
    } else {
        let r = distinct(s.drop_last());
        if r.contains(s.last()) {
            r
        } else {
            r.push(s.last())
        }
    }
}

/// `distinct(s)` holds each element of `s` exactly once.
pub proof fn lemma_distinct(s: Seq<Seq<char>>)
    ensures
        distinct(s).no_duplicates(),
        forall|x: Seq<char>| distinct(s).contains(x) <==> s.contains(x),
    decreases s.len(),
{
    if s.len() > 0 {
        lemma_distinct(s.drop_last());
        assert forall|x: Seq<char>| s.contains(x) <==> (s.drop_last().contains(x) || x == s.last()) by {
            if s.contains(x) {
                let k = choose|k: int| 0 <= k < s.len() && s[k] == x;
                if k < s.len() - 1 {
                    assert(s.drop_last()[k] == x);
                }
            }
            if s.drop_last().contains(x) {
                let k = choose|k: int| 0 <= k < s.len() - 1 && s.drop_last()[k] == x;
                assert(s[k] == x);
            }
            if x == s.last() {
                assert(s[s.len() - 1] == x);
            }
        }
        let r = distinct(s.drop_last());
        if !r.contains(s.last()) {
            assert forall|x: Seq<char>| r.push(s.last()).contains(x) <==> (r.contains(x) || x
                == s.last()) by {
                if r.push(s.last()).contains(x) {
                    let k = choose|k: int| 0 <= k < r.len() + 1 && r.push(s.last())[k] == x;
                    if k < r.len() {
                        assert(r[k] == x);
                    }
                }
                if r.contains(x) {
                    let k = choose|k: int| 0 <= k < r.len() && r[k] == x;
                    assert(r.push(s.last())[k] == x);
                }
                if x == s.last() {
                    assert(r.push(s.last())[r.len() as int] == x);
                }
            }
        }
    }
}

/// The members of a group whose names are all different come out as they
/// are, one name each; a missing group has no members.
pub proof fn lemma_members_kept(s: Seq<Seq<char>>)
    requires
        s.no_duplicates(),
    ensures
        distinct(s) == s,
        distinct(s).len() == s.len(),
        distinct(Seq::<Seq<char>>::empty()).len() == 0,
    decreases s.len(),
{
    if s.len() > 0 {
        assert(s.drop_last().no_duplicates());
        lemma_members_kept(s.drop_last());
        assert(s.drop_last().push(s.last()) =~= s);
        if s.drop_last().contains(s.last()) {
            let k = choose|k: int| 0 <= k < s.len() - 1 && s.drop_last()[k] == s.last();
            assert(s[k] == s[s.len() - 1]);
        }
    }
}

/// Whether `v` holds a string equal to `s`.
pub fn contains_str(v: &Vec<String>, s: &String) -> (r: bool)
    ensures
        r == strs(v@).contains(s@),
{
    let mut i: usize = 0;
    while i < v.len()
        invariant
            i <= v.len(),
            forall|k: int| 0 <= k < i ==> v[k]@ != s@,
        decreases v.len() - i,
    {
        if v[i] == *s {
            assert(strs(v@)[i as int] == s@);
            return true;
        }
        i += 1;
    }
    false
}

/// The build accounts: the members of the build group, each once, in the
/// order the group lists them; none when the group does not exist.
pub fn build_users(members: Option<Vec<String>>) -> (r: Vec<String>)
    ensures
        strs(r@) == match members {
            Some(m) => distinct(strs(m@)),
            None => Seq::empty(),
        },
{
    let mut r: Vec<String> = Vec::new();
    match members {
        None => {
            assert(strs(r@) =~= Seq::<Seq<char>>::empty());
            r
        },
        Some(m) => {
            let mut i: usize = 0;
            assert(strs(m@).take(0) =~= Seq::<Seq<char>>::empty());
            assert(strs(r@) =~= Seq::<Seq<char>>::empty());
            while i < m.len()
                invariant
                    i <= m.len(),
                    strs(r@) == distinct(strs(m@).take(i as int)),
                decreases m.len() - i,
            {
                assert(strs(m@).take(i + 1).drop_last() =~= strs(m@).take(i as int));
                if !contains_str(&r, &m[i]) {
                    r.push(m[i].clone());
                    assert(strs(r@) =~= distinct(strs(m@).take(i + 1)));
                }
                i += 1;
            }
            assert(strs(m@).take(m.len() as int) =~= strs(m@));
            r
        },
    }
}

/// The argument that asks the process table for the processes of `accounts`:
/// their names joined by commas; none when there are no accounts, so that
/// the table is not queried at all.
pub fn ps_user_arg(accounts: &Vec<String>) -> (r: Option<String>)
    ensures
        accounts.len() == 0 <==> r is None,
        r is Some ==> r->0@ == joined(strs(accounts@), ','),
{
    if accounts.len() == 0 {
        return None;
    }
    let mut out: Vec<char> = Vec::new();
    let mut i: usize = 0;
    while i < accounts.len()
        invariant
            i <= accounts.len(),
            accounts.len() > 0,
            i == 0 ==> out@ == Seq::<char>::empty(),
            i > 0 ==> out@ == joined(strs(accounts@).take(i as int), ','),
        decreases accounts.len() - i,
    {
        let name = chars_of(accounts[i].as_str());
        if i > 0 {
            out.push(',');
        }
        let mut j: usize = 0;
        let ghost before = out@;
        while j < name.len()
            invariant
                j <= name.len(),
                out@ == before + name@.take(j as int),
            decreases name.len() - j,
        {
            out.push(name[j]);
            assert(name@.take(j + 1) =~= name@.take(j as int).push(name[j as int]));
            j += 1;
        }
        assert(name@.take(name.len() as int) =~= name@);
        assert(strs(accounts@).take(i + 1).drop_last() =~= strs(accounts@).take(i as int));
        if i == 0 {
            assert(strs(accounts@).take(1).drop_last().len() == 0);
            assert(out@ =~= joined(strs(accounts@).take(1), ','));
        }
        i += 1;
    }
    assert(strs(accounts@).take(accounts.len() as int) =~= strs(accounts@));
    Some(string_of(&out))
}

/// The pieces of `s` with `sep` between each two.
pub open spec fn joined(s: Seq<Seq<char>>, sep: char) -> Seq<char>
    decreases s.len(),
{
    if s.len() == 0 {
        Seq::empty()
    } else if s.len() == 1 {
        s[0]
    } else {
        joined(s.drop_last(), sep).push(sep) + s.last()
    }
}

} // verus!

verus! {

/// Whether `c` is a decimal digit.
pub open spec fn is_digit(c: char) -> bool {
    48 <= c as u32 <= 57
}

/// The number that a string of decimal digits denotes.
pub open spec fn digits_value(s: Seq<char>) -> int
    decreases s.len(),
{
    if s.len() == 0 {
        0
    } else {
        digits_value(s.drop_last()) * 10 + (s.last() as u32 - 48)
    }
}

/// Whether `s` is made of decimal digits alone.
pub open spec fn all_digits(s: Seq<char>) -> bool {
    forall|i: int| 0 <= i < s.len() ==> is_digit(#[trigger] s[i])
}

/// The integer that `s` denotes: an optional sign, then one or more digits.
pub open spec fn int_value(s: Seq<char>) -> Option<int> {
    let signed = s.len() > 0 && (s[0] == '-' || s[0] == '+');
    let ds = if signed {
        s.drop_first()
    } else {
        s
    };
    if ds.len() > 0 && all_digits(ds) {
        Some(
            if signed && s[0] == '-' {
                -digits_value(ds)
            } else {
                digits_value(ds)
            },
        )
    } else {
        None
    }
}

/// A process id written in decimal, when it fits in an `i32`.
pub open spec fn pid_value(s: Seq<char>) -> Option<i32> {
    match int_value(s) {
        Some(v) => if i32::MIN <= v <= i32::MAX {
            Some(v as i32)
        } else {
            None
        },
        None => None,
    }
}

proof fn lemma_digits_grow(s: Seq<char>, k: int)
    requires
        0 <= k <= s.len(),
        forall|i: int| 0 <= i < s.len() ==> is_digit(#[trigger] s[i]),
    ensures
        0 <= digits_value(s.take(k)) <= digits_value(s),
    decreases s.len(),
{
    if s.len() > 0 {
        if k == s.len() {
            assert(s.take(k) =~= s);
            lemma_digits_grow(s.drop_last(), k - 1);
            assert(s.drop_last().take(k - 1) =~= s.drop_last());
        } else {
            lemma_digits_grow(s.drop_last(), k);
            assert(s.drop_last().take(k) =~= s.take(k));
            lemma_digits_grow(s.drop_last(), s.len() - 1);
            assert(s.drop_last().take(s.len() - 1) =~= s.drop_last());
        }
    } else {
        assert(s.take(k) =~= s);
    }
}

/// Reads a process id written in decimal.
pub fn parse_pid(s: &Vec<char>) -> (r: Option<i32>)
    ensures
        r == pid_value(s@),
{
    let signed = s.len() > 0 && (s[0] == '-' || s[0] == '+');
    let neg = signed && s[0] == '-';
    let start: usize = if signed { 1 } else { 0 };
    let ghost ds = if signed { s@.drop_first() } else { s@ };
    assert(ds =~= s@.skip(start as int));
    if start >= s.len() {
        return None;
    }
    let mut acc: i64 = 0;
    let mut i: usize = start;
    while i < s.len()
        invariant
            start <= i <= s.len(),
            signed == (s@.len() > 0 && (s@[0] == '-' || s@[0] == '+')),
            neg == (signed && s@[0] == '-'),
            ds == (if signed { s@.drop_first() } else { s@ }),
            ds =~= s@.skip(start as int),
            0 <= acc <= 2147483648,
            acc == digits_value(ds.take(i - start)),
            forall|j: int| 0 <= j < i - start ==> is_digit(#[trigger] ds[j]),
        decreases s.len() - i,
    {
        let c = s[i];
        let u = c as u32;
        assert(ds[i - start] == c);
        if !(48 <= u && u <= 57) {
            assert(!is_digit(ds[i - start]));
            return None;
        }
        assert(ds.take(i - start + 1).drop_last() =~= ds.take(i - start));
        assert(ds.take(i - start + 1).last() == c);
        let d: i64 = (u - 48) as i64;
        acc = acc * 10 + d;
        assert(acc == digits_value(ds.take(i - start + 1)));
        if acc > 2147483648 {
            proof {
                if all_digits(ds) {
                    lemma_digits_grow(ds, i - start + 1);
                }
            }
            return None;
        }
        i += 1;
    }
    assert(ds.take(s.len() - start) =~= ds);
    if neg {
        Some((-acc) as i32)
    } else if acc <= 2147483647 {
        Some(acc as i32)
    } else {
        None
    }
}

/// The owner and pid that a line of `ps -o user=,pid=` gives: its first two
/// whitespace-separated fields, when the second is a pid.
pub open spec fn line_entry(line: Seq<char>) -> Option<(Seq<char>, i32)> {
    let fields = non_empty(split_by(line, None));
    if fields.len() >= 2 {
        match pid_value(fields[1]) {
            Some(pid) => Some((fields[0], pid)),
            None => None,
        }
    } else {
        None
    }
}

/// The entries of the lines of `ls` that give one, in order.
pub open spec fn entries(ls: Seq<Seq<char>>) -> Seq<(Seq<char>, i32)>
    decreases ls.len(),
{
    if ls.len() == 0 {
        Seq::empty()
    } else {
        match line_entry(ls.last()) {
            Some(e) => entries(ls.drop_last()).push(e),
            None => entries(ls.drop_last()),
        }
    }
}

/// The character sequences and pids held by `v`.
pub open spec fn pair_views(v: Seq<(String, i32)>) -> Seq<(Seq<char>, i32)> {
    v.map_values(|p: (String, i32)| (p.0@, p.1))
}

/// Keeps the pieces that are not empty.
pub fn keep_non_empty(ps: Vec<Vec<char>>) -> (r: Vec<Vec<char>>)
    ensures
        views(r@) == non_empty(views(ps@)),
{
    let mut r: Vec<Vec<char>> = Vec::new();
    let mut i: usize = 0;
    assert(views(ps@).take(0) =~= Seq::<Seq<char>>::empty());
    assert(views(r@) =~= non_empty(views(ps@).take(0)));
    while i < ps.len()
        invariant
            i <= ps.len(),
            views(r@) == non_empty(views(ps@).take(i as int)),
        decreases ps.len() - i,
    {
        assert(views(ps@).take(i + 1).drop_last() =~= views(ps@).take(i as int));
        if ps[i].len() > 0 {
            r.push(ps[i].clone());
            assert(views(r@) =~= non_empty(views(ps@).take(i + 1)));
        }
        i += 1;
    }
    assert(views(ps@).take(ps.len() as int) =~= views(ps@));
    r
}

/// Reads the owner and pid of each line of `ps -o user=,pid=` output,
/// skipping lines that give none.
pub fn parse_user_pids(listing: &str) -> (r: Vec<(String, i32)>)
    ensures
        pair_views(r@) == entries(lines_of(listing@)),
{
    let ls = lines(&chars_of(listing));
    let ghost lv = lines_of(listing@);
    let mut r: Vec<(String, i32)> = Vec::new();
    let mut i: usize = 0;
    assert(lv.take(0) =~= Seq::<Seq<char>>::empty());
    assert(pair_views(r@) =~= entries(lv.take(0)));
    while i < ls.len()
        invariant
            i <= ls.len(),
            views(ls@) == lv,
            pair_views(r@) == entries(lv.take(i as int)),
        decreases ls.len() - i,
    {
        assert(lv.take(i + 1).drop_last() =~= lv.take(i as int));
        assert(lv.take(i + 1).last() == ls[i as int]@);
        let fields = keep_non_empty(split_chars(&ls[i], None));
        if fields.len() >= 2 {
            assert(fields[1]@ == views(fields@)[1]);
            assert(fields[0]@ == views(fields@)[0]);
            match parse_pid(&fields[1]) {
                Some(pid) => {
                    r.push((string_of(&fields[0]), pid));
                    assert(pair_views(r@) =~= entries(lv.take(i + 1)));
                },
                None => {},
            }
        }
        i += 1;
    }
    assert(lv.take(ls.len() as int) =~= lv);
    r
}

} // verus!

verus! {

/// The processes of one account, in the order they were listed.
pub struct PidGroup {
    pub user: String,
    pub pids: Vec<i32>,
}

impl PidGroup {
    /// The pid whose build context stands for the whole group: the first one
    /// listed.
    pub fn representative(&self) -> (r: i32)
        requires
            self.pids.len() > 0,
        ensures
            r == self.pids[0],
    {
        self.pids[0]
    }
}

/// The owners of a list of (owner, pid) entries.
pub open spec fn users_of(ps: Seq<(Seq<char>, i32)>) -> Seq<Seq<char>> {
    ps.map_values(|p: (Seq<char>, i32)| p.0)
}

/// The accounts that own an entry, in order of first appearance.
pub open spec fn owners(ps: Seq<(Seq<char>, i32)>) -> Seq<Seq<char>> {
    distinct(users_of(ps))
}

/// The pids of the entries that `u` owns, in order.
pub open spec fn pids_of(ps: Seq<(Seq<char>, i32)>, u: Seq<char>) -> Seq<i32>
    decreases ps.len(),
{
    if ps.len() == 0 {
        Seq::empty()
    } else {
        let r = pids_of(ps.drop_last(), u);
        if ps.last().0 == u {
            r.push(ps.last().1)
        } else {
            r
        }
    }
}

proof fn lemma_pids_present(ps: Seq<(Seq<char>, i32)>, u: Seq<char>)
    ensures
        pids_of(ps, u).len() > 0 <==> users_of(ps).contains(u),
    decreases ps.len(),
{
    if ps.len() > 0 {
        lemma_pids_present(ps.drop_last(), u);
        let us = users_of(ps);
        assert(users_of(ps.drop_last()) =~= us.drop_last());
        if us.drop_last().contains(u) {
            let k = choose|k: int| 0 <= k < us.len() - 1 && us.drop_last()[k] == u;
            assert(us[k] == u);
        }
        if us.contains(u) && ps.last().0 != u {
            let k = choose|k: int| 0 <= k < us.len() && us[k] == u;
            assert(us.drop_last()[k] == u);
        }
        if ps.last().0 == u {
            assert(us[us.len() - 1] == u);
        }
    }
}

/// Every account in the grouping of a process listing has at least one pid.
pub proof fn lemma_no_empty_group(ps: Seq<(Seq<char>, i32)>, k: int)
    requires
        0 <= k < owners(ps).len(),
    ensures
        pids_of(ps, owners(ps)[k]).len() > 0,
{
    lemma_distinct(users_of(ps));
    lemma_pids_present(ps, owners(ps)[k]);
}

/// The position of the group of `user`.
pub fn find_user(groups: &Vec<PidGroup>, user: &String) -> (r: Option<usize>)
    ensures
        match r {
            Some(j) => j < groups.len() && groups[j as int].user@ == user@,
            None => forall|k: int| 0 <= k < groups.len() ==> groups[k].user@ != user@,
        },
{
    let mut j: usize = 0;
    while j < groups.len()
        invariant
            j <= groups.len(),
            forall|k: int| 0 <= k < j ==> groups[k].user@ != user@,
        decreases groups.len() - j,
    {
        if groups[j].user == *user {
            return Some(j);
        }
        j += 1;
    }
    None
}

/// Groups the pids of a process listing by owner: one group per owner, in
/// order of first appearance, with the owner's pids in listing order.
pub fn group_by_owner(pairs: &Vec<(String, i32)>) -> (r: Vec<PidGroup>)
    ensures
        r.len() == owners(pair_views(pairs@)).len(),
        forall|k: int|
            0 <= k < r.len() ==> {
                &&& #[trigger] r[k].user@ == owners(pair_views(pairs@))[k]
                &&& r[k].pids@ == pids_of(pair_views(pairs@), r[k].user@)
            },
{
    let ghost pv = pair_views(pairs@);
    let mut r: Vec<PidGroup> = Vec::new();
    let mut i: usize = 0;
    assert(users_of(pv.take(0)) =~= Seq::<Seq<char>>::empty());
    while i < pairs.len()
        invariant
            i <= pairs.len(),
            pv == pair_views(pairs@),
            r.len() == owners(pv.take(i as int)).len(),
            forall|k: int|
                0 <= k < r.len() ==> {
                    &&& #[trigger] r[k].user@ == owners(pv.take(i as int))[k]
                    &&& r[k].pids@ == pids_of(pv.take(i as int), r[k].user@)
                },
        decreases pairs.len() - i,
    {
        let ghost before = pv.take(i as int);
        let ghost after = pv.take(i + 1);
        let user = &pairs[i].0;
        let pid = pairs[i].1;
        proof {
            assert(after.drop_last() =~= before);
            assert(users_of(after).drop_last() =~= users_of(before));
            assert(users_of(after).last() == user@);
            lemma_distinct(users_of(before));
        }
        let found = find_user(&r, user);
        if let Some(j) = found {
            proof {
                assert(owners(before)[j as int] == user@);
                assert(owners(before).contains(user@));
                assert(owners(after) == owners(before));
            }
            let mut g = r.remove(j);
            g.pids.push(pid);
            r.insert(j, g);
            proof {
                assert forall|k: int| 0 <= k < r.len() implies {
                    &&& #[trigger] r[k].user@ == owners(after)[k]
                    &&& r[k].pids@ == pids_of(after, r[k].user@)
                } by {
                    if k != j {
                        assert(owners(before)[k] != owners(before)[j as int]);
                    }
                }
            }
        } else {
            proof {
                if owners(before).contains(user@) {
                    let k = choose|k: int| 0 <= k < owners(before).len() && owners(before)[k] == user@;
                    assert(r[k].user@ == owners(before)[k]);
                }
                assert(!users_of(before).contains(user@));
                lemma_pids_present(before, user@);
                assert(owners(after) == owners(before).push(user@));
            }
            let mut pids: Vec<i32> = Vec::new();
            pids.push(pid);
            r.push(PidGroup { user: user.clone(), pids });
            proof {
                assert(pids_of(before, user@) =~= Seq::<i32>::empty());
                assert(r[r.len() - 1].pids@ =~= pids_of(after, user@));
            }
        }
        i += 1;
    }
    assert(pv.take(pairs.len() as int) =~= pv);
    r
}

/// The processes of the build accounts, grouped by account, from the output
/// of `ps -o user=,pid=`: no account appears without a pid.
pub fn get_processes(listing: &str) -> (r: Vec<PidGroup>)
    ensures
        r.len() == owners(entries(lines_of(listing@))).len(),
        forall|k: int|
            0 <= k < r.len() ==> {
                &&& #[trigger] r[k].user@ == owners(entries(lines_of(listing@)))[k]
                &&& r[k].pids@ == pids_of(entries(lines_of(listing@)), r[k].user@)
                &&& r[k].pids.len() > 0
            },
{
    let pairs = parse_user_pids(listing);
    let r = group_by_owner(&pairs);
    proof {
        assert forall|k: int| 0 <= k < r.len() implies #[trigger] r[k].pids.len() > 0 by {
            assert(r[k].user@ == owners(entries(lines_of(listing@)))[k]);
            lemma_no_empty_group(entries(lines_of(listing@)), k);
        }
    }
    r
}

} // verus!
